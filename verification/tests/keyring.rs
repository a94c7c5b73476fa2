use linear_cli::keyring::{
    backend_name, delete_key, get_key, get_oauth_tokens, is_available, is_mock_entry, key_entry,
    require_persistent_backend, set_key, set_oauth_tokens, tokens_entry, DeleteStep, Deleting,
    Entry, EntryName, ReadStep, Reading, Refusal, StoreStep, Storing, SERVICE_NAME,
};

const TEST_PROFILE: &str = "linear-cli-test-profile";
const TEST_KEY: &str = "lin_api_test_key_12345";
const OS: &str = "linux";

fn open(profile: &str) -> Result<keyring::Entry, keyring::Error> {
    keyring::Entry::new(SERVICE_NAME, profile)
}

fn entry_of(opened: &Result<keyring::Entry, keyring::Error>) -> Entry {
    match opened {
        Ok(entry) => {
            let mock = entry
                .get_credential()
                .downcast_ref::<keyring::mock::MockCredential>()
                .is_some();
            if mock {
                Entry::Mock
            } else {
                Entry::Durable
            }
        }
        Err(e) => Entry::Failed(e.to_string()),
    }
}

fn refusal_of(e: keyring::Error) -> Refusal {
    match e {
        keyring::Error::NoEntry => Refusal::NoEntry,
        keyring::Error::NoStorageAccess(_) => Refusal::NoStorageAccess(e.to_string()),
        other => Refusal::Other(other.to_string()),
    }
}

fn platform_store_is_available() -> bool {
    let opened = open("__test__");
    match is_available(&Reading::Opened(entry_of(&opened))) {
        Some(known) => known,
        None => {
            let read = opened.unwrap().get_password().map_err(refusal_of);
            is_available(&Reading::Read(read)).unwrap()
        }
    }
}

/// A durable store that lives as long as a test.
struct Store {
    secrets: Vec<(EntryName, String)>,
}

fn same(a: &EntryName, b: &EntryName) -> bool {
    a.service == b.service && a.profile == b.profile
}

impl Store {
    fn new() -> Store {
        Store { secrets: vec![] }
    }

    fn password(&self, entry: EntryName) -> Result<String, Refusal> {
        match self.secrets.iter().find(|(name, _)| same(name, &entry)) {
            Some((_, secret)) => Ok(secret.clone()),
            None => Err(Refusal::NoEntry),
        }
    }

    fn write(&mut self, entry: EntryName, secret: &str) {
        self.secrets.retain(|(name, _)| !same(name, &entry));
        self.secrets.push((entry, secret.to_string()));
    }

    fn is_available(&self) -> bool {
        match is_available(&Reading::Opened(Entry::Durable)) {
            Some(known) => known,
            None => is_available(&Reading::Read(self.password(key_entry("__test__")))).unwrap(),
        }
    }

    fn get_key(&self, profile: &str) -> Result<Option<String>, String> {
        let mut step = get_key(Reading::Opened(Entry::Durable));
        if let ReadStep::Read = step {
            step = get_key(Reading::Read(self.password(key_entry(profile))));
        }
        match step {
            ReadStep::Secret { secret, .. } => Ok(secret),
            ReadStep::Failed(failure) => Err(failure.to_string()),
            ReadStep::Read => unreachable!(),
        }
    }

    fn set_key(&mut self, profile: &str, key: &str) -> Result<(), String> {
        let mut step = set_key(Storing::Probed(Entry::Durable), OS);
        loop {
            step = match step {
                StoreStep::Open => set_key(Storing::Opened(Ok(())), OS),
                StoreStep::Write => {
                    self.write(key_entry(profile), key);
                    set_key(Storing::Written(Ok(())), OS)
                }
                StoreStep::Done => return Ok(()),
                StoreStep::Failed(failure) => return Err(failure.to_string()),
            };
        }
    }

    fn delete_key(&mut self, profile: &str) -> Result<(), String> {
        let mut step = delete_key(Deleting::Opened(Entry::Durable), OS);
        if let DeleteStep::Delete = step {
            let deleted = self.password(key_entry(profile)).map(|_| ());
            let entry = key_entry(profile);
            self.secrets.retain(|(name, _)| !same(name, &entry));
            step = delete_key(Deleting::Deleted(deleted), OS);
        }
        match step {
            DeleteStep::Done => Ok(()),
            DeleteStep::Failed(failure) => Err(failure.to_string()),
            DeleteStep::Delete => unreachable!(),
        }
    }
}

#[test]
fn default_backend_is_not_mock() {
    let probe = open("__backend_test__").expect("create probe entry");
    assert!(
        !is_mock_entry(&entry_of(&Ok(probe))),
        "secure-storage must not use keyring's mock backend; enable apple-native, windows-native, and linux-native-sync-persistent on the keyring dependency"
    );
}

#[test]
fn test_is_available() {
    // Availability depends on OS services; mock must never count as available.
    if is_mock_entry(&entry_of(&Ok(open("__test__").expect("probe")))) {
        assert!(!platform_store_is_available());
    }
    let _ = platform_store_is_available();
    assert!(Store::new().is_available());
}

#[test]
fn test_set_get_delete_key() {
    let mut store = Store::new();
    assert!(store.is_available());

    // Set a key - check for errors
    store.set_key(TEST_PROFILE, TEST_KEY).expect("set_key");

    // Get the key back
    assert_eq!(
        store.get_key(TEST_PROFILE).expect("get_key").as_deref(),
        Some(TEST_KEY),
        "Key should match"
    );

    store.delete_key(TEST_PROFILE).expect("delete_key");
    assert_eq!(store.get_key(TEST_PROFILE), Ok(None));
}

#[test]
fn test_delete_nonexistent_key() {
    let mut store = Store::new();
    assert!(store.is_available());

    // Deleting a key that doesn't exist should not error
    let result = store.delete_key("nonexistent-profile-xyz");
    assert!(result.is_ok(), "Deleting nonexistent key should succeed");
}

#[test]
fn test_overwrite_key() {
    let mut store = Store::new();
    assert!(store.is_available());
    let profile = "linear-cli-test-overwrite";

    // Set initial key - check for errors
    store.set_key(profile, "key1").expect("set_key");
    assert_eq!(store.get_key(profile).unwrap().as_deref(), Some("key1"));

    // Overwrite with new key
    store.set_key(profile, "key2").expect("Failed to set key2");
    assert_eq!(
        store.get_key(profile).unwrap().as_deref(),
        Some("key2"),
        "Overwritten key should match"
    );

    // Other entries do not touch the key
    store.set_key("another-profile", "key3").expect("set_key");
    assert!(matches!(
        set_oauth_tokens(Storing::Opened(Ok(())), OS),
        StoreStep::Write
    ));
    store.write(tokens_entry(profile), "{}");
    assert_eq!(store.get_key(profile).unwrap().as_deref(), Some("key2"));
    store.delete_key("another-profile").expect("delete_key");
    assert_eq!(store.get_key(profile).unwrap().as_deref(), Some("key2"));
}

#[test]
fn backends_have_names() {
    assert_eq!(backend_name("macos"), "macOS Keychain");
    assert_eq!(backend_name("windows"), "Windows Credential Manager");
    assert_eq!(backend_name("linux"), "Linux keyutils + Secret Service");
    assert_eq!(backend_name("plan9"), "platform credential store");
}

#[test]
fn mock_store_is_never_used() {
    assert!(require_persistent_backend(&Entry::Mock, "linux").is_err());
    assert!(require_persistent_backend(&Entry::Durable, "linux").is_ok());
    assert!(matches!(
        set_key(Storing::Probed(Entry::Mock), "linux"),
        StoreStep::Failed(_)
    ));
    assert!(matches!(
        get_key(Reading::Opened(Entry::Mock)),
        ReadStep::Secret { secret: None, warning: None }
    ));
    assert!(matches!(
        delete_key(Deleting::Opened(Entry::Mock), "linux"),
        DeleteStep::Done
    ));
    assert_eq!(is_available(&Reading::Opened(Entry::Mock)), Some(false));
}

#[test]
fn unreadable_store_is_passed_over_with_a_warning() {
    let refused = Reading::Read(Err(Refusal::NoStorageAccess("locked".to_string())));
    match get_key(refused) {
        ReadStep::Secret { secret, warning } => {
            assert!(secret.is_none());
            assert_eq!(
                warning.as_deref(),
                Some("Warning: Keyring not available, falling back to config file")
            );
        }
        other => panic!("{:?}", other),
    }
    let broken = Reading::Read(Err(Refusal::Other("broken".to_string())));
    match get_oauth_tokens(broken) {
        ReadStep::Secret { warning, .. } => assert_eq!(
            warning.as_deref(),
            Some("Warning: Keyring error (broken), falling back to config")
        ),
        other => panic!("{:?}", other),
    }
}

#[test]
fn keyring_failures_say_what_was_tried() {
    match set_key(Storing::Written(Err("full".to_string())), "linux") {
        StoreStep::Failed(failure) => assert_eq!(
            failure.to_string(),
            "Failed to store secret in Linux keyutils + Secret Service"
        ),
        other => panic!("{:?}", other),
    }
    match delete_key(Deleting::Deleted(Err(Refusal::NoEntry)), "linux") {
        DeleteStep::Done => {}
        other => panic!("{:?}", other),
    }
    match delete_key(Deleting::Opened(Entry::Failed("no".to_string())), "linux") {
        DeleteStep::Failed(failure) => {
            assert_eq!(failure.to_string(), "Failed to create keyring entry")
        }
        other => panic!("{:?}", other),
    }
}
