//! Explicit injection strategies and their string representations.

pub mod argument;
pub mod commit;
pub mod hijack;
pub mod import_table;
pub mod load_library;
pub mod patch;
pub mod queue_apc;
pub mod rollback;

use crate::error::{outcome, Error, ErrorView, Result};
use vstd::prelude::*;

verus! {

/// The injection mechanism. No strategy resumes the primary thread.
#[derive(Debug, Clone, Copy, PartialEq, Eq, Structural)]
#[non_exhaustive]
pub enum Strategy {
    /// Start a remote LoadLibrary thread and wait up to 30 seconds.
    LoadLibraryRemoteThread,
    /// Queue LoadLibrary on the caller-attested never-run primary thread.
    QueueUserApc,
    /// Rewrite imports in a caller-attested never-run image.
    ImportTableHijack,
}

impl Default for Strategy {
    fn default() -> (strategy: Self)
        ensures
            strategy == Strategy::LoadLibraryRemoteThread,
    {
        Strategy::LoadLibraryRemoteThread
    }
}

/// The canonical name of a strategy.
pub open spec fn name_of(strategy: Strategy) -> Seq<char> {
    match strategy {
        Strategy::LoadLibraryRemoteThread => "loadlibrary"@,
        Strategy::QueueUserApc => "apc"@,
        Strategy::ImportTableHijack => "iat"@,
    }
}

impl Strategy {
    /// Return the canonical strategy name: `loadlibrary`, `apc`, or `iat`.
    pub fn as_str(&self) -> (name: &'static str)
        ensures
            name@ == name_of(*self),
    {
        match self {
            Self::LoadLibraryRemoteThread => "loadlibrary",
            Self::QueueUserApc => "apc",
            Self::ImportTableHijack => "iat",
        }
    }
}

/// The ASCII lower case of a character; any other character is unchanged.
pub open spec fn lower_char(c: char) -> char {
    if 'A' <= c <= 'Z' {
        (c as u32 + 32) as char
    } else {
        c
    }
}

/// The text with every ASCII letter in lower case.
pub open spec fn lowercase(text: Seq<char>) -> Seq<char> {
    text.map_values(|c: char| lower_char(c))
}

/// `str::to_ascii_lowercase` copies the text with the ASCII letters `A` to `Z`
/// in lower case and every other character unchanged.
pub assume_specification[ str::to_ascii_lowercase ](s: &str) -> (lower: String)
    ensures
        lower@ == lowercase(s@),
;

/// The strategy that a lower-case name stands for.
pub open spec fn strategy_named(lower: Seq<char>) -> Option<Strategy> {
    if lower == "loadlibrary"@ || lower == "load-library"@ || lower == "remote-thread"@ || lower
        == "crt"@ {
        Some(Strategy::LoadLibraryRemoteThread)
    } else if lower == "apc"@ || lower == "queue-user-apc"@ || lower == "early-bird"@ {
        Some(Strategy::QueueUserApc)
    } else if lower == "iat"@ || lower == "import-table"@ || lower == "detours"@ {
        Some(Strategy::ImportTableHijack)
    } else {
        None
    }
}

/// What a name is parsed to, in any case of its ASCII letters.
pub open spec fn parsed(text: Seq<char>) -> std::result::Result<Strategy, ErrorView> {
    match strategy_named(lowercase(text)) {
        Some(strategy) => Ok(strategy),
        None => Err(ErrorView::UnknownStrategy(text)),
    }
}

fn equals(text: &String, name: &str) -> (yes: bool)
    ensures
        yes == (text@ == name@),
{
    text.eq(&name.to_owned())
}

impl Strategy {
    /// The strategy of a canonical name or an alias, in any ASCII case.
    pub fn from_name(s: &str) -> (result: Result<Self>)
        ensures
            outcome(result) == parsed(s@),
    {
        let lower = s.to_ascii_lowercase();
        if equals(&lower, "loadlibrary") || equals(&lower, "load-library") || equals(
            &lower,
            "remote-thread",
        ) || equals(&lower, "crt") {
            Ok(Self::LoadLibraryRemoteThread)
        } else if equals(&lower, "apc") || equals(&lower, "queue-user-apc") || equals(
            &lower,
            "early-bird",
        ) {
            Ok(Self::QueueUserApc)
        } else if equals(&lower, "iat") || equals(&lower, "import-table") || equals(
            &lower,
            "detours",
        ) {
            Ok(Self::ImportTableHijack)
        } else {
            Err(Error::UnknownStrategy(s.to_owned()))
        }
    }
}

impl std::str::FromStr for Strategy {
    type Err = Error;

    fn from_str(s: &str) -> (result: Result<Self>)
        ensures
            outcome(result) == parsed(s@),
    {
        Strategy::from_name(s)
    }
}

/// A strategy's canonical name parses to that strategy.
pub proof fn name_parses_back(strategy: Strategy)
    ensures
        parsed(name_of(strategy)) == Ok::<Strategy, ErrorView>(strategy),
{
    reveal_strlit("loadlibrary");
    reveal_strlit("load-library");
    reveal_strlit("remote-thread");
    reveal_strlit("crt");
    reveal_strlit("apc");
    reveal_strlit("queue-user-apc");
    reveal_strlit("early-bird");
    reveal_strlit("iat");
    let name = name_of(strategy);
    assert(lowercase(name) =~= name);
    match strategy {
        Strategy::LoadLibraryRemoteThread => {},
        Strategy::QueueUserApc => {
            assert(name[0] == 'a');
            assert("crt"@[0] == 'c');
        },
        Strategy::ImportTableHijack => {
            assert(name[0] == 'i');
            assert("crt"@[0] == 'c');
            assert("apc"@[0] == 'a');
        },
    }
}

/// Parsing does not see the case of ASCII letters.
pub proof fn parsing_ignores_case(one: Seq<char>, other: Seq<char>)
    requires
        lowercase(one) == lowercase(other),
    ensures
        parsed(one) is Ok <==> parsed(other) is Ok,
        parsed(one) is Ok ==> parsed(one) == parsed(other),
{
}

} // verus!
