//! How an issue's priority is shown.
use colored::Colorize;
use vstd::prelude::*;
use vstd::string::*;

use crate::text;

verus! {

/// What ends a coloured text.
pub const RESET: &'static str = "\x1b[0m";

pub const RED: &'static str = "\x1b[31m";

pub const YELLOW: &'static str = "\x1b[33m";

pub const DIMMED: &'static str = "\x1b[2m";

/// A text as it is shown in a style. Whether colours are shown is asked twice
/// while the text is written, so that the start of the style may be missing.
pub open spec fn painted(plain: Seq<char>, style: Seq<char>, shown: Seq<char>) -> bool {
    ||| shown == plain
    ||| shown == style + plain + RESET@
    ||| shown == plain + RESET@
}

/// No escape sequence starts in a text.
pub open spec fn without_escapes(plain: Seq<char>) -> bool {
    forall|i: int| 0 <= i < plain.len() ==> plain[i] != '\x1b'
}

/// `colored::Colorize::red`: the text in red, or plain where colours are not
/// shown, which the environment decides.
#[verifier::external_body]
fn red(plain: &str) -> (r: String)
    requires
        without_escapes(plain@),
    ensures
        painted(plain@, RED@, r@),
{
    plain.red().to_string()
}

/// `colored::Colorize::yellow`: the text in yellow, or plain where colours are
/// not shown, which the environment decides.
#[verifier::external_body]
fn yellow(plain: &str) -> (r: String)
    requires
        without_escapes(plain@),
    ensures
        painted(plain@, YELLOW@, r@),
{
    plain.yellow().to_string()
}

/// `colored::Colorize::dimmed`: the text dimmed, or plain where colours are not
/// shown, which the environment decides.
#[verifier::external_body]
fn dimmed(plain: &str) -> (r: String)
    requires
        without_escapes(plain@),
    ensures
        painted(plain@, DIMMED@, r@),
{
    plain.dimmed().to_string()
}

/// The name of a priority; a dash for none and for what is no priority.
pub open spec fn label(priority: Option<i64>) -> Seq<char> {
    match priority {
        Some(1i64) => "Urgent"@,
        Some(2i64) => "High"@,
        Some(3i64) => "Normal"@,
        Some(4i64) => "Low"@,
        _ => "-"@,
    }
}

/// The style that a priority is shown in.
pub open spec fn style(priority: Option<i64>) -> Option<Seq<char>> {
    match priority {
        Some(1i64) => Some(RED@),
        Some(2i64) => Some(YELLOW@),
        Some(4i64) => Some(DIMMED@),
        _ => None,
    }
}

/// A text shows a priority: its name, in its style or plain.
pub open spec fn shows(priority: Option<i64>, shown: Seq<char>) -> bool {
    match style(priority) {
        Some(style) => painted(label(priority), style, shown),
        None => shown == label(priority),
    }
}

pub fn priority_to_string(priority: Option<i64>) -> (r: String)
    ensures
        shows(priority, r@),
{
    proof {
        reveal_strlit("Urgent");
        reveal_strlit("High");
        reveal_strlit("Low");
    }
    match priority {
        Some(1) => red("Urgent"),
        Some(2) => yellow("High"),
        Some(3) => "Normal".to_string(),
        Some(4) => dimmed("Low"),
        _ => "-".to_string(),
    }
}

/// A priority is shown by its name, in red, yellow or dimmed where it is urgent, high or low
/// and colours are shown, and anything that is no priority by a dash.
pub proof fn priority_is_shown_by_its_name(priority: Option<i64>, shown: Seq<char>)
    requires
        shows(priority, shown),
    ensures
        priority == Some(1i64) ==> painted("Urgent"@, "\x1b[31m"@, shown),
        priority == Some(2i64) ==> painted("High"@, "\x1b[33m"@, shown),
        priority == Some(3i64) ==> shown == "Normal"@,
        priority == Some(4i64) ==> painted("Low"@, "\x1b[2m"@, shown),
        priority is None || priority->0 < 1 || priority->0 > 4 ==> shown == "-"@,
{
}

/// What is painted holds the plain text.
pub proof fn painted_text_holds_the_plain_one(
    plain: Seq<char>,
    style: Seq<char>,
    shown: Seq<char>,
)
    requires
        painted(plain, style, shown),
    ensures
        text::contains_text(shown, plain),
{
    let n = plain.len() as int;
    if shown == style + plain + RESET@ {
        let from = style.len() as int;
        assert(shown.subrange(from, from + n) =~= plain);
        text::subrange_occurs(shown, from, from + n);
    } else {
        assert(shown.subrange(0, n) =~= plain);
        text::subrange_occurs(shown, 0, n);
    }
}


} // verus!
