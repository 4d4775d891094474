//! The relay's log level setting.

use vstd::prelude::*;

verus! {

/// Verbosity of the relay's log.
#[derive(Clone, Copy, Debug, PartialEq, Eq, Structural)]
pub enum LogLevel {
    Trace,
    Debug,
    Info,
    Warn,
    Error,
}

/// The lower-case form of a string, as `str::to_lowercase` computes it.
pub uninterp spec fn lowercase(s: Seq<char>) -> Seq<char>;

/// Lower-cases a string.
#[verifier::external_body]
fn to_lowercase(s: &str) -> (res: String)
    ensures
        res@ == lowercase(s@),
{
    s.to_lowercase()
}

/// The level a lower-case setting names, and whether it names one; anything
/// unrecognised falls back to `Debug`.
pub open spec fn level_of(lower: Seq<char>) -> (LogLevel, bool) {
    if lower == "trace"@ {
        (LogLevel::Trace, true)
    } else if lower == "debug"@ {
        (LogLevel::Debug, true)
    } else if lower == "info"@ {
        (LogLevel::Info, true)
    } else if lower == "warn"@ {
        (LogLevel::Warn, true)
    } else if lower == "error"@ {
        (LogLevel::Error, true)
    } else {
        (LogLevel::Debug, false)
    }
}

/// The level a lower-case setting names, and whether it names one.
pub fn level_from_lowercase(lower: &str) -> (res: (LogLevel, bool))
    ensures
        res == level_of(lower@),
{
    let s = lower.to_owned();
    if s == "trace".to_owned() {
        (LogLevel::Trace, true)
    } else if s == "debug".to_owned() {
        (LogLevel::Debug, true)
    } else if s == "info".to_owned() {
        (LogLevel::Info, true)
    } else if s == "warn".to_owned() {
        (LogLevel::Warn, true)
    } else if s == "error".to_owned() {
        (LogLevel::Error, true)
    } else {
        (LogLevel::Debug, false)
    }
}

/// The level for the `LOG_LEVEL` setting, compared without regard to case; an
/// absent setting means "debug". The flag is `false` when the setting names no
/// level (the level is then `Debug`).
pub fn get_log_level(setting: Option<&str>) -> (res: (LogLevel, bool))
    ensures
        res == (match setting {
            Some(s) => level_of(lowercase(s@)),
            None => (LogLevel::Debug, true),
        }),
{
    match setting {
        Some(s) => {
            let lower = to_lowercase(s);
            level_from_lowercase(lower.as_str())
        },
        None => (LogLevel::Debug, true),
    }
}

} // verus!
