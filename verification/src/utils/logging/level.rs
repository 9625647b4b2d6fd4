//! Log level names.
use vstd::prelude::*;
use crate::text::{ascii_lower_code, same_chars};

verus! {

/// The five log levels, most verbose first.
#[derive(Clone, Copy, PartialEq, Eq, Structural, Debug)]
pub enum LogLevel {
    Trace,
    Debug,
    Info,
    Warn,
    Error,
}

/// The level named by an already lower-cased name.
pub open spec fn level_named(name: Seq<char>) -> Option<LogLevel> {
    if name == "trace"@ {
        Some(LogLevel::Trace)
    } else if name == "debug"@ {
        Some(LogLevel::Debug)
    } else if name == "info"@ {
        Some(LogLevel::Info)
    } else if name == "warn"@ {
        Some(LogLevel::Warn)
    } else if name == "error"@ {
        Some(LogLevel::Error)
    } else {
        None
    }
}

/// What `str::to_lowercase` returns for `s`.
pub uninterp spec fn lowercase(s: Seq<char>) -> Seq<char>;

/// Whether every character of `s` is ASCII.
pub open spec fn all_ascii(s: Seq<char>) -> bool {
    forall|i: int| 0 <= i < s.len() ==> (#[trigger] s[i] as u32) < 128
}

/// `s` with the ASCII capitals `A` to `Z` turned into `a` to `z`, every other
/// character unchanged.
pub open spec fn ascii_lowercase(s: Seq<char>) -> Seq<char> {
    s.map_values(|c: char| ascii_lower_code(c) as char)
}

/// `str::to_lowercase`: the Unicode lower-case form of `s`, which the contract
/// names `lowercase`; on ASCII text it turns `A` to `Z` into `a` to `z` and
/// keeps every other character. Of other text it states nothing more.
#[verifier::external_body]
fn to_lowercase(s: &str) -> (r: String)
    ensures
        r@ == lowercase(s@),
        all_ascii(s@) ==> r@ == ascii_lowercase(s@),
{
    s.to_lowercase()
}

/// The level named by `name`, which must already be in lower case.
pub fn level_from_lowercase(name: &str) -> (l: Option<LogLevel>)
    ensures
        l == level_named(name@),
{
    if same_chars(name, "trace") {
        Some(LogLevel::Trace)
    } else if same_chars(name, "debug") {
        Some(LogLevel::Debug)
    } else if same_chars(name, "info") {
        Some(LogLevel::Info)
    } else if same_chars(name, "warn") {
        Some(LogLevel::Warn)
    } else if same_chars(name, "error") {
        Some(LogLevel::Error)
    } else {
        None
    }
}

/// The level named by `level`, in any letter case.
pub fn from_str(level: &str) -> (l: Option<LogLevel>)
    ensures
        l == level_named(lowercase(level@)),
        all_ascii(level@) ==> l == level_named(ascii_lowercase(level@)),
{
    let lower = to_lowercase(level);
    level_from_lowercase(lower.as_str())
}

/// The names of all levels, most verbose first.
pub fn all_levels() -> (v: Vec<&'static str>)
    ensures
        v@.len() == 5,
        v@[0]@ == "trace"@,
        v@[1]@ == "debug"@,
        v@[2]@ == "info"@,
        v@[3]@ == "warn"@,
        v@[4]@ == "error"@,
{
    let mut v: Vec<&'static str> = Vec::new();
    v.push("trace");
    v.push("debug");
    v.push("info");
    v.push("warn");
    v.push("error");
    v
}

/// Each name `all_levels` lists names its own level: trace, debug, info,
/// warn and error, in that order.
pub proof fn lemma_level_names_round_trip()
    ensures
        level_named("trace"@) == Some(LogLevel::Trace),
        level_named("debug"@) == Some(LogLevel::Debug),
        level_named("info"@) == Some(LogLevel::Info),
        level_named("warn"@) == Some(LogLevel::Warn),
        level_named("error"@) == Some(LogLevel::Error),
{
    reveal_strlit("trace");
    reveal_strlit("debug");
    reveal_strlit("info");
    reveal_strlit("warn");
    reveal_strlit("error");
    assert("trace"@[0] == 't' && "debug"@[0] == 'd' && "info"@[0] == 'i' && "warn"@[0] == 'w' && "error"@[0] == 'e');
}

} // verus!
