use vstd::prelude::*;
use crate::text::str_eq;

verus! {

/// How much the application log lets through.
#[derive(Debug, Clone, Copy, PartialEq, Eq, Structural)]
pub enum LevelFilter {
    Off,
    Error,
    Warn,
    Info,
    Debug,
    Trace,
}

/// The upper-case form of a text, as `str::to_uppercase` gives it.
pub uninterp spec fn upper_of(s: Seq<char>) -> Seq<char>;

/// Relies on str::to_uppercase: the result depends on the characters alone.
#[verifier::external_body]
fn uppercase(s: &str) -> (r: String)
    ensures
        r@ == upper_of(s@),
{
    s.to_uppercase()
}

/// The level that an upper-case name stands for; other names mean `Info`.
pub open spec fn level_named(u: Seq<char>) -> LevelFilter {
    if u == "DEBUG"@ {
        LevelFilter::Debug
    } else if u == "INFO"@ {
        LevelFilter::Info
    } else if u == "WARN"@ {
        LevelFilter::Warn
    } else if u == "ERROR"@ {
        LevelFilter::Error
    } else if u == "TRACE"@ {
        LevelFilter::Trace
    } else {
        LevelFilter::Info
    }
}

/// The application log's settings.
pub struct Logger;

impl Logger {
    /// The level of an already upper-case name.
    pub fn level_from_uppercase(u: &str) -> (r: LevelFilter)
        ensures
            r == level_named(u@),
    {
        if str_eq(u, "DEBUG") {
            LevelFilter::Debug
        } else if str_eq(u, "INFO") {
            LevelFilter::Info
        } else if str_eq(u, "WARN") {
            LevelFilter::Warn
        } else if str_eq(u, "ERROR") {
            LevelFilter::Error
        } else if str_eq(u, "TRACE") {
            LevelFilter::Trace
        } else {
            LevelFilter::Info
        }
    }

    /// The level named by `level`, in any case; unknown names mean `Info`.
    pub fn get_level_filter(level: &str) -> (r: LevelFilter)
        ensures
            r == level_named(upper_of(level@)),
    {
        let u = uppercase(level);
        Logger::level_from_uppercase(u.as_str())
    }
}

} // verus!
