//! Secure key storage using the OS keyring: what is made of its answers.
//!
//! - macOS: Keychain
//! - Windows: Credential Manager
//! - Linux: keyutils + Secret Service
//!
//! A keyring built without a platform backend silently uses an in-memory mock
//! store. Nothing is written to it, and nothing is read from it.
use vstd::prelude::*;
use vstd::string::*;

use crate::error::{Failure, FailureView};
use crate::text;
use crate::text::{joined2, joined3, same_text};

verus! {

/// Service under which API keys are kept.
pub const SERVICE_NAME: &'static str = "linear-cli";

/// Service under which OAuth tokens are kept.
pub const OAUTH_SERVICE_NAME: &'static str = "linear-cli-oauth";

/// Profile of the entry that shows which backend is in use.
pub const PROBE_PROFILE: &'static str = "__linear_cli_backend_probe__";

/// The name of an entry of the keyring: its service and its profile.
#[derive(Debug)]
pub struct EntryName {
    pub service: &'static str,
    pub profile: String,
}

#[verifier::ext_equal]
pub struct EntryNameView {
    pub service: Seq<char>,
    pub profile: Seq<char>,
}

impl View for EntryName {
    type V = EntryNameView;

    open spec fn view(&self) -> EntryNameView {
        EntryNameView { service: self.service@, profile: self.profile@ }
    }
}

impl EntryNameView {
    pub open spec fn key(profile: Seq<char>) -> EntryNameView {
        EntryNameView { service: SERVICE_NAME@, profile }
    }

    pub open spec fn tokens(profile: Seq<char>) -> EntryNameView {
        EntryNameView { service: OAUTH_SERVICE_NAME@, profile }
    }
}

/// The entry that keeps the API key of a profile.
pub fn key_entry(profile: &str) -> (r: EntryName)
    ensures
        r@ == EntryNameView::key(profile@),
{
    EntryName { service: SERVICE_NAME, profile: profile.to_string() }
}

/// The entry that keeps the OAuth tokens of a profile.
pub fn tokens_entry(profile: &str) -> (r: EntryName)
    ensures
        r@ == EntryNameView::tokens(profile@),
{
    EntryName { service: OAUTH_SERVICE_NAME, profile: profile.to_string() }
}

/// Keys and tokens have entries of their own, and so has every profile.
pub proof fn entries_are_kept_apart(profile: Seq<char>, other: Seq<char>)
    ensures
        EntryNameView::key(profile) != EntryNameView::tokens(other),
        profile != other ==> EntryNameView::key(profile) != EntryNameView::key(other),
        profile != other ==> EntryNameView::tokens(profile) != EntryNameView::tokens(other),
{
    reveal_strlit("linear-cli");
    reveal_strlit("linear-cli-oauth");
    assert(SERVICE_NAME@.len() != OAUTH_SERVICE_NAME@.len());
}

/// An entry of the keyring, once it was asked for.
#[derive(Debug)]
pub enum Entry {
    /// It could not be made, for a reason.
    Failed(String),
    /// It lies in the in-memory mock store.
    Mock,
    Durable,
}

/// Why an entry could not be read, written or deleted.
#[derive(Debug)]
pub enum Refusal {
    NoEntry,
    /// The store cannot be reached, for a reason.
    NoStorageAccess(String),
    Other(String),
}

pub const ENTRY_FAILED: &'static str = "Failed to create keyring entry";

pub open spec fn entry_failure(reason: Seq<char>) -> FailureView {
    FailureView::message(reason).with_context(ENTRY_FAILED@)
}

fn failed_entry(reason: &str) -> (r: Failure)
    ensures
        r@ == entry_failure(reason@),
{
    Failure::message(reason).with_context(ENTRY_FAILED)
}

/// The backend that is expected on an operating system.
pub open spec fn backend(os: Seq<char>) -> Seq<char> {
    if os == "macos"@ {
        "macOS Keychain"@
    } else if os == "windows"@ {
        "Windows Credential Manager"@
    } else if os == "linux"@ {
        "Linux keyutils + Secret Service"@
    } else {
        "platform credential store"@
    }
}

/// Human-readable name of the backend that is expected on an operating system.
pub fn backend_name(os: &str) -> (r: &'static str)
    ensures
        r@ == backend(os@),
{
    if same_text(os, "macos") {
        "macOS Keychain"
    } else if same_text(os, "windows") {
        "Windows Credential Manager"
    } else if same_text(os, "linux") {
        "Linux keyutils + Secret Service"
    } else {
        "platform credential store"
    }
}

pub fn is_mock_entry(entry: &Entry) -> (r: bool)
    ensures
        r == (entry is Mock),
{
    matches!(entry, Entry::Mock)
}

pub open spec fn mock_refused(os: Seq<char>) -> Seq<char> {
    "secure-storage is using keyring's in-memory mock backend instead of "@ + backend(os)
        + ". Credentials will not persist. Rebuild with `--features secure-storage` after enabling keyring platform features (apple-native, windows-native, linux-native-sync-persistent)."@
}

/// Why secrets cannot be kept in a backend.
pub open spec fn backend_fault(probe: Entry, os: Seq<char>) -> Option<FailureView> {
    match probe {
        Entry::Failed(reason) => Some(entry_failure(reason@)),
        Entry::Mock => Some(FailureView::message(mock_refused(os))),
        Entry::Durable => None,
    }
}

/// Rejects the in-memory mock backend, which keeps nothing.
pub fn require_persistent_backend(probe: &Entry, os: &str) -> (r: Result<(), Failure>)
    ensures
        match backend_fault(*probe, os@) {
            Some(failure) => r is Err && r->Err_0@ == failure,
            None => r is Ok,
        },
{
    match probe {
        Entry::Failed(reason) => Err(failed_entry(reason.as_str())),
        Entry::Mock => Err(
            Failure::message(
                joined3(
                    "secure-storage is using keyring's in-memory mock backend instead of ",
                    backend_name(os),
                    ". Credentials will not persist. Rebuild with `--features secure-storage` after enabling keyring platform features (apple-native, windows-native, linux-native-sync-persistent).",
                ).as_str(),
            ),
        ),
        Entry::Durable => Ok(()),
    }
}

/// What has happened in reading a secret.
pub enum Reading {
    Opened(Entry),
    Read(Result<String, Refusal>),
}

/// What follows: the entry is read, or the secret is known (with a warning where
/// the keyring had to be passed over), or it all failed.
#[derive(Debug)]
pub enum ReadStep {
    Read,
    Secret { secret: Option<String>, warning: Option<String> },
    Failed(Failure),
}

#[verifier::ext_equal]
pub enum ReadStepView {
    Read,
    Secret { secret: Option<Seq<char>>, warning: Option<Seq<char>> },
    Failed(FailureView),
}

impl View for ReadStep {
    type V = ReadStepView;

    open spec fn view(&self) -> ReadStepView {
        match self {
            ReadStep::Read => ReadStepView::Read,
            ReadStep::Secret { secret, warning } => ReadStepView::Secret {
                secret: secret.deep_view(),
                warning: warning.deep_view(),
            },
            ReadStep::Failed(failure) => ReadStepView::Failed(failure@),
        }
    }
}

/// A mock entry counts as missing, so that another source is used; so does an
/// entry that cannot be read.
pub open spec fn reading_step(event: Reading, fallback_label: Seq<char>) -> ReadStepView {
    match event {
        Reading::Opened(Entry::Failed(reason)) => ReadStepView::Failed(entry_failure(reason@)),
        Reading::Opened(Entry::Mock) => ReadStepView::Secret { secret: None, warning: None },
        Reading::Opened(Entry::Durable) => ReadStepView::Read,
        Reading::Read(Ok(secret)) => ReadStepView::Secret {
            secret: Some(secret@),
            warning: None,
        },
        Reading::Read(Err(Refusal::NoEntry)) => ReadStepView::Secret {
            secret: None,
            warning: None,
        },
        Reading::Read(Err(Refusal::NoStorageAccess(_))) => ReadStepView::Secret {
            secret: None,
            warning: Some(
                "Warning: Keyring not available, falling back to "@ + fallback_label,
            ),
        },
        Reading::Read(Err(Refusal::Other(reason))) => ReadStepView::Secret {
            secret: None,
            warning: Some(
                "Warning: Keyring error ("@ + reason@ + "), falling back to "@ + fallback_label,
            ),
        },
    }
}

fn get_secret(event: Reading, fallback_label: &str) -> (r: ReadStep)
    ensures
        r@ == reading_step(event, fallback_label@),
{
    match event {
        Reading::Opened(Entry::Failed(reason)) => ReadStep::Failed(failed_entry(reason.as_str())),
        Reading::Opened(Entry::Mock) => ReadStep::Secret { secret: None, warning: None },
        Reading::Opened(Entry::Durable) => ReadStep::Read,
        Reading::Read(Ok(secret)) => ReadStep::Secret { secret: Some(secret), warning: None },
        Reading::Read(Err(Refusal::NoEntry)) => ReadStep::Secret { secret: None, warning: None },
        Reading::Read(Err(Refusal::NoStorageAccess(_))) => ReadStep::Secret {
            secret: None,
            warning: Some(
                joined2("Warning: Keyring not available, falling back to ", fallback_label),
            ),
        },
        Reading::Read(Err(Refusal::Other(reason))) => {
            let start = joined3("Warning: Keyring error (", reason.as_str(), "), falling back to ");
            ReadStep::Secret { secret: None, warning: Some(joined2(start.as_str(), fallback_label)) }
        },
    }
}

/// What has happened in storing a secret.
pub enum Storing {
    /// The entry that shows the backend was asked for.
    Probed(Entry),
    /// The entry of the profile was asked for.
    Opened(Result<(), String>),
    Written(Result<(), String>),
}

#[derive(Debug)]
pub enum StoreStep {
    Open,
    Write,
    Done,
    Failed(Failure),
}

#[verifier::ext_equal]
pub enum StoreStepView {
    Open,
    Write,
    Done,
    Failed(FailureView),
}

impl View for StoreStep {
    type V = StoreStepView;

    open spec fn view(&self) -> StoreStepView {
        match self {
            StoreStep::Open => StoreStepView::Open,
            StoreStep::Write => StoreStepView::Write,
            StoreStep::Done => StoreStepView::Done,
            StoreStep::Failed(failure) => StoreStepView::Failed(failure@),
        }
    }
}

pub open spec fn storing_step(event: Storing, os: Seq<char>) -> StoreStepView {
    match event {
        Storing::Probed(Entry::Failed(reason)) => StoreStepView::Failed(entry_failure(reason@)),
        Storing::Probed(Entry::Mock) => StoreStepView::Failed(
            FailureView::message(mock_refused(os)),
        ),
        Storing::Probed(Entry::Durable) => StoreStepView::Open,
        Storing::Opened(Err(reason)) => StoreStepView::Failed(entry_failure(reason@)),
        Storing::Opened(Ok(_)) => StoreStepView::Write,
        Storing::Written(Err(reason)) => StoreStepView::Failed(
            FailureView::message(reason@).with_context("Failed to store secret in "@ + backend(os)),
        ),
        Storing::Written(Ok(_)) => StoreStepView::Done,
    }
}

fn set_secret(event: Storing, os: &str) -> (r: StoreStep)
    ensures
        r@ == storing_step(event, os@),
{
    match event {
        Storing::Probed(probe) => match require_persistent_backend(&probe, os) {
            Ok(()) => StoreStep::Open,
            Err(failure) => StoreStep::Failed(failure),
        },
        Storing::Opened(Err(reason)) => StoreStep::Failed(failed_entry(reason.as_str())),
        Storing::Opened(Ok(_)) => StoreStep::Write,
        Storing::Written(Err(reason)) => StoreStep::Failed(
            Failure::message(reason.as_str()).with_context(
                joined2("Failed to store secret in ", backend_name(os)).as_str(),
            ),
        ),
        Storing::Written(Ok(_)) => StoreStep::Done,
    }
}

/// What has happened in deleting a secret.
pub enum Deleting {
    Opened(Entry),
    Deleted(Result<(), Refusal>),
}

#[derive(Debug)]
pub enum DeleteStep {
    Delete,
    Done,
    Failed(Failure),
}

#[verifier::ext_equal]
pub enum DeleteStepView {
    Delete,
    Done,
    Failed(FailureView),
}

impl View for DeleteStep {
    type V = DeleteStepView;

    open spec fn view(&self) -> DeleteStepView {
        match self {
            DeleteStep::Delete => DeleteStepView::Delete,
            DeleteStep::Done => DeleteStepView::Done,
            DeleteStep::Failed(failure) => DeleteStepView::Failed(failure@),
        }
    }
}

/// The text that a refusal is shown with.
pub open spec fn refusal_text(refusal: Refusal) -> Seq<char> {
    match refusal {
        Refusal::NoEntry => "No matching entry found in secure storage"@,
        Refusal::NoStorageAccess(reason) => reason@,
        Refusal::Other(reason) => reason@,
    }
}

/// Deleting what is not there succeeds.
pub open spec fn deleting_step(event: Deleting, os: Seq<char>) -> DeleteStepView {
    match event {
        Deleting::Opened(Entry::Failed(reason)) => DeleteStepView::Failed(entry_failure(reason@)),
        Deleting::Opened(Entry::Mock) => DeleteStepView::Done,
        Deleting::Opened(Entry::Durable) => DeleteStepView::Delete,
        Deleting::Deleted(Ok(_)) => DeleteStepView::Done,
        Deleting::Deleted(Err(Refusal::NoEntry)) => DeleteStepView::Done,
        Deleting::Deleted(Err(refusal)) => DeleteStepView::Failed(
            FailureView::message(refusal_text(refusal)).with_context(
                "Failed to delete secret from "@ + backend(os),
            ),
        ),
    }
}

fn delete_secret(event: Deleting, os: &str) -> (r: DeleteStep)
    ensures
        r@ == deleting_step(event, os@),
{
    let refusal = match event {
        Deleting::Opened(Entry::Failed(reason)) => {
            return DeleteStep::Failed(failed_entry(reason.as_str()));
        },
        Deleting::Opened(Entry::Mock) => {
            return DeleteStep::Done;
        },
        Deleting::Opened(Entry::Durable) => {
            return DeleteStep::Delete;
        },
        Deleting::Deleted(Ok(_)) => {
            return DeleteStep::Done;
        },
        Deleting::Deleted(Err(refusal)) => refusal,
    };
    let text = match refusal {
        Refusal::NoEntry => {
            return DeleteStep::Done;
        },
        Refusal::NoStorageAccess(reason) => reason,
        Refusal::Other(reason) => reason,
    };
    DeleteStep::Failed(
        Failure::message(text.as_str()).with_context(
            joined2("Failed to delete secret from ", backend_name(os)).as_str(),
        ),
    )
}

/// Gets an API key from the keyring: no secret where no key is stored.
pub fn get_key(event: Reading) -> (r: ReadStep)
    ensures
        r@ == reading_step(event, "config file"@),
{
    get_secret(event, "config file")
}

/// Stores an API key in the keyring.
pub fn set_key(event: Storing, os: &str) -> (r: StoreStep)
    ensures
        r@ == storing_step(event, os@),
{
    set_secret(event, os)
}

/// Deletes an API key from the keyring. Succeeds even if no key was stored.
pub fn delete_key(event: Deleting, os: &str) -> (r: DeleteStep)
    ensures
        r@ == deleting_step(event, os@),
{
    delete_secret(event, os)
}

/// What a reading says of the keyring as a durable store; nothing where the entry
/// has to be read first.
pub open spec fn availability(event: Reading) -> Option<bool> {
    match event {
        Reading::Opened(Entry::Failed(_)) => Some(false),
        Reading::Opened(Entry::Mock) => Some(false),
        Reading::Opened(Entry::Durable) => None,
        Reading::Read(Err(Refusal::NoStorageAccess(_))) => Some(false),
        Reading::Read(_) => Some(true),
    }
}

/// Checks whether a durable keyring is available; nothing where the entry has to
/// be read first.
pub fn is_available(event: &Reading) -> (r: Option<bool>)
    ensures
        r == availability(*event),
{
    match event {
        Reading::Opened(Entry::Failed(_)) => Some(false),
        Reading::Opened(Entry::Mock) => Some(false),
        Reading::Opened(Entry::Durable) => None,
        Reading::Read(Err(Refusal::NoStorageAccess(_))) => Some(false),
        Reading::Read(_) => Some(true),
    }
}

/// Gets the OAuth tokens of a profile from the keyring.
pub fn get_oauth_tokens(event: Reading) -> (r: ReadStep)
    ensures
        r@ == reading_step(event, "config"@),
{
    get_secret(event, "config")
}

/// Stores the OAuth tokens of a profile in the keyring.
pub fn set_oauth_tokens(event: Storing, os: &str) -> (r: StoreStep)
    ensures
        r@ == storing_step(event, os@),
{
    set_secret(event, os)
}

/// Deletes the OAuth tokens of a profile from the keyring.
pub fn delete_oauth_tokens(event: Deleting, os: &str) -> (r: DeleteStep)
    ensures
        r@ == deleting_step(event, os@),
{
    delete_secret(event, os)
}

/// The mock store counts for nothing: it holds no secret, takes none, is never
/// available, and has nothing to delete.
pub proof fn mock_store_is_never_used(label: Seq<char>, os: Seq<char>)
    ensures
        reading_step(Reading::Opened(Entry::Mock), label) == (ReadStepView::Secret {
            secret: None,
            warning: None,
        }),
        storing_step(Storing::Probed(Entry::Mock), os) is Failed,
        availability(Reading::Opened(Entry::Mock)) == Some(false),
        deleting_step(Deleting::Opened(Entry::Mock), os) == DeleteStepView::Done,
{
}

/// Whatever reading an entry brings, the search for a key goes on: only the
/// making of the entry can fail it.
pub proof fn reading_never_fails_the_search(read: Result<String, Refusal>, label: Seq<char>)
    ensures
        reading_step(Reading::Read(read), label) is Secret,
        reading_step(Reading::Read(read), label)->secret is Some <==> read is Ok,
{
}

/// A change that a keyring made.
pub enum Change {
    Stored { name: EntryNameView, secret: Seq<char> },
    Deleted { name: EntryNameView },
}

impl Change {
    pub open spec fn entry(self) -> EntryNameView {
        match self {
            Change::Stored { name, .. } => name,
            Change::Deleted { name } => name,
        }
    }
}

/// What a keyring that keeps what is stored in it holds after some changes.
pub open spec fn held_after(held: Map<EntryNameView, Seq<char>>, changes: Seq<Change>) -> Map<
    EntryNameView,
    Seq<char>,
>
    decreases changes.len(),
{
    if changes.len() == 0 {
        held
    } else {
        let before = held_after(held, changes.drop_last());
        match changes.last() {
            Change::Stored { name, secret } => before.insert(name, secret),
            Change::Deleted { name } => before.remove(name),
        }
    }
}

/// What came of reading an entry is what the keyring holds of it.
pub open spec fn answers(
    read: Result<String, Refusal>,
    held: Map<EntryNameView, Seq<char>>,
    name: EntryNameView,
) -> bool {
    match read {
        Ok(secret) => held.contains_key(name) && held[name] == secret@,
        Err(refusal) => refusal is NoEntry && !held.contains_key(name),
    }
}

proof fn last_change_decides(
    held: Map<EntryNameView, Seq<char>>,
    changes: Seq<Change>,
    at: int,
)
    requires
        0 <= at < changes.len(),
        forall|k: int| at < k < changes.len() ==> (#[trigger] changes[k]).entry()
            != changes[at].entry(),
    ensures
        match changes[at] {
            Change::Stored { name, secret } => held_after(held, changes).contains_key(name)
                && held_after(held, changes)[name] == secret,
            Change::Deleted { name } => !held_after(held, changes).contains_key(name),
        },
    decreases changes.len(),
{
    let before = changes.drop_last();
    if at < before.len() {
        assert(before[at] == changes[at]);
        assert forall|k: int| at < k < before.len() implies (#[trigger] before[k]).entry()
            != before[at].entry() by {
            assert(before[k] == changes[k]);
        }
        last_change_decides(held, before, at);
        assert(changes[changes.len() - 1].entry() != changes[at].entry());
    }
}

/// On a durable keyring that keeps what is stored in it, the key or the tokens that were
/// last stored in an entry are what is read of it, whatever was stored there before, and
/// whatever has changed in other entries since.
pub proof fn last_stored_secret_is_read(
    held: Map<EntryNameView, Seq<char>>,
    changes: Seq<Change>,
    at: int,
    name: EntryNameView,
    secret: Seq<char>,
    read: Result<String, Refusal>,
    label: Seq<char>,
    os: Seq<char>,
)
    requires
        0 <= at < changes.len(),
        changes[at] == (Change::Stored { name, secret }),
        forall|k: int| at < k < changes.len() ==> (#[trigger] changes[k]).entry()
            != name,
        answers(read, held_after(held, changes), name),
    ensures
        storing_step(Storing::Probed(Entry::Durable), os) == StoreStepView::Open,
        storing_step(Storing::Opened(Ok(())), os) == StoreStepView::Write,
        storing_step(Storing::Written(Ok(())), os) == StoreStepView::Done,
        reading_step(Reading::Opened(Entry::Durable), label) == ReadStepView::Read,
        reading_step(Reading::Read(read), label) == (ReadStepView::Secret {
            secret: Some(secret),
            warning: None,
        }),
{
    last_change_decides(held, changes, at);
}

/// On a durable keyring that keeps what is stored in it, what was deleted is not read any
/// more, until something is stored in the entry again.
pub proof fn deleted_secret_is_not_read(
    held: Map<EntryNameView, Seq<char>>,
    changes: Seq<Change>,
    at: int,
    name: EntryNameView,
    read: Result<String, Refusal>,
    label: Seq<char>,
    os: Seq<char>,
)
    requires
        0 <= at < changes.len(),
        changes[at] == (Change::Deleted { name }),
        forall|k: int| at < k < changes.len() ==> (#[trigger] changes[k]).entry()
            != name,
        answers(read, held_after(held, changes), name),
    ensures
        deleting_step(Deleting::Opened(Entry::Durable), os) == DeleteStepView::Delete,
        deleting_step(Deleting::Deleted(Ok(())), os) == DeleteStepView::Done,
        reading_step(Reading::Read(read), label) == (ReadStepView::Secret {
            secret: None,
            warning: None,
        }),
{
    last_change_decides(held, changes, at);
}

/// Secrets are kept for their profile under the service of their kind.
pub proof fn entries_are_named_by_service_and_profile(profile: Seq<char>)
    ensures
        EntryNameView::key(profile).profile == profile,
        EntryNameView::key(profile).service == "linear-cli"@,
        EntryNameView::tokens(profile).profile == profile,
        EntryNameView::tokens(profile).service == "linear-cli-oauth"@,
{
}

/// Secrets are stored in a durable backend and in no other, and one that cannot be used is
/// named by what is expected in its place.
pub proof fn only_durable_backends_are_used(probe: Entry, os: Seq<char>)
    ensures
        backend_fault(probe, os) is None <==> probe is Durable,
        storing_step(Storing::Probed(probe), os) == (match backend_fault(probe, os) {
            Some(failure) => StoreStepView::Failed(failure),
            None => StoreStepView::Open,
        }),
        probe is Mock ==> text::contains_text(backend_fault(probe, os)->0.shown(), backend(os)),
        os == "macos"@ ==> backend(os) == "macOS Keychain"@,
        os == "windows"@ ==> backend(os) == "Windows Credential Manager"@,
        os == "linux"@ ==> backend(os) == "Linux keyutils + Secret Service"@,
{
    reveal_strlit("macos");
    reveal_strlit("windows");
    reveal_strlit("linux");
    assert("macos"@.len() == 5 && "windows"@.len() == 7 && "linux"@.len() == 5);
    assert("macos"@[0] != "linux"@[0]);
    let message = mock_refused(os);
    let from =
        "secure-storage is using keyring's in-memory mock backend instead of "@.len() as int;
    assert(message.subrange(from, from + backend(os).len()) =~= backend(os));
    text::subrange_occurs(message, from, from + backend(os).len());
}

/// Where the keyring cannot be read, a warning says what is used in its place, and why where
/// that is known; where the entry is just not there, nothing is said.
pub proof fn unreadable_keyring_is_told(label: Seq<char>, reason: String)
    ensures
        reading_step(Reading::Read(Err(Refusal::NoEntry)), label)->warning is None,
        ({
            let step = reading_step(Reading::Read(Err(Refusal::NoStorageAccess(reason))), label);
            step->secret is None && step->warning is Some && text::contains_text(
                step->warning->0,
                label,
            )
        }),
        ({
            let step = reading_step(Reading::Read(Err(Refusal::Other(reason))), label);
            step->secret is None && step->warning is Some && text::contains_text(
                step->warning->0,
                label,
            ) && text::contains_text(step->warning->0, reason@)
        }),
        availability(Reading::Read(Err(Refusal::NoStorageAccess(reason)))) == Some(false),
        availability(Reading::Read(Err(Refusal::NoEntry))) == Some(true),
        availability(Reading::Read(Ok(reason))) == Some(true),
        availability(Reading::Opened(Entry::Durable)) is None,
        availability(Reading::Opened(Entry::Failed(reason))) == Some(false),
{
    let closed = "Warning: Keyring not available, falling back to "@ + label;
    let from = "Warning: Keyring not available, falling back to "@.len() as int;
    assert(closed.subrange(from, closed.len() as int) =~= label);
    text::subrange_occurs(closed, from, closed.len() as int);
    let other = "Warning: Keyring error ("@ + reason@ + "), falling back to "@ + label;
    let start = "Warning: Keyring error ("@.len() as int;
    let end = start + reason@.len();
    assert(other.subrange(start, end) =~= reason@);
    text::subrange_occurs(other, start, end);
    let tail = end + "), falling back to "@.len();
    assert(other.subrange(tail, other.len() as int) =~= label);
    text::subrange_occurs(other, tail, other.len() as int);
}

/// A secret that could not be stored or deleted is told with the backend and the cause;
/// deleting what is not there is no failure.
pub proof fn refused_changes_are_told(reason: String, os: Seq<char>)
    ensures
        ({
            let step = storing_step(Storing::Written(Err(reason)), os);
            &&& step is Failed
            &&& step->Failed_0.shown() == "Failed to store secret in "@ + backend(os)
            &&& step->Failed_0.cause == crate::error::CauseView::Message(reason@)
        }),
        ({
            let step = deleting_step(Deleting::Deleted(Err(Refusal::Other(reason))), os);
            &&& step is Failed
            &&& step->Failed_0.shown() == "Failed to delete secret from "@ + backend(os)
            &&& step->Failed_0.cause == crate::error::CauseView::Message(reason@)
        }),
        deleting_step(Deleting::Deleted(Err(Refusal::NoStorageAccess(reason))), os) is Failed,
        deleting_step(Deleting::Deleted(Err(Refusal::NoEntry)), os) is Done,
        storing_step(Storing::Opened(Err(reason)), os) is Failed,
        reading_step(Reading::Opened(Entry::Failed(reason)), os) is Failed,
        deleting_step(Deleting::Opened(Entry::Failed(reason)), os) is Failed,
{
}


} // verus!
