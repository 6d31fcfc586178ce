//! Numbers and characters in text, and what errors say.

use crate::error::{cleanup_text, file_io, from_win32, restore_text, Error, ErrorView, Source};
use crate::strategy::load_library::unexpected_wait_of;
use crate::strategy::Strategy;
use crate::text::{char_units, decimal, digit_char, hex4, hexadecimal, utf16_text, utf16_units};
use vstd::prelude::*;

verus! {

/// The value of a digit: `0` to `9`, and behind them `a` to `f`.
pub open spec fn value_of_digit(c: char) -> int {
    if 48 <= c as int <= 57 {
        c as int - 48
    } else if 97 <= c as int <= 102 {
        c as int - 87
    } else {
        -1
    }
}

/// The number that digits make in a base.
pub open spec fn value_of_digits(base: int, text: Seq<char>) -> int
    decreases text.len(),
{
    if text.len() == 0 {
        0
    } else {
        base * value_of_digits(base, text.drop_last()) + value_of_digit(text.last())
    }
}

/// Every character is a digit of the base.
pub open spec fn are_digits(base: int, text: Seq<char>) -> bool {
    forall|i: int| 0 <= i < text.len() ==> 0 <= value_of_digit(#[trigger] text[i]) < base
}

proof fn lemma_digit(d: int)
    requires
        0 <= d < 16,
    ensures
        value_of_digit(digit_char(d)) == d,
{
}

/// A number is written in base ten by digits that make it, without a zero in
/// front.
pub proof fn decimals_are_read_back(n: nat)
    ensures
        decimal(n).len() >= 1,
        are_digits(10, decimal(n)),
        value_of_digits(10, decimal(n)) == n,
        n > 0 ==> value_of_digit(decimal(n)[0]) != 0,
        n == 0 ==> decimal(n).len() == 1,
    decreases n,
{
    reveal_with_fuel(value_of_digits, 2);
    lemma_digit((n % 10) as int);
    if n >= 10 {
        decimals_are_read_back(n / 10);
        let start = decimal(n / 10);
        assert(decimal(n).drop_last() =~= start);
        assert(decimal(n)[0] == start[0]);
        assert forall|i: int| 0 <= i < decimal(n).len() implies 0 <= value_of_digit(
            #[trigger] decimal(n)[i],
        ) < 10 by {
            if i < start.len() {
                assert(decimal(n)[i] == start[i]);
            }
        }
    } else {
        assert(decimal(n).drop_last() =~= Seq::<char>::empty());
    }
}

/// A number is written in base sixteen by digits that make it, without a zero
/// in front.
pub proof fn hexadecimals_are_read_back(n: nat)
    ensures
        hexadecimal(n).len() >= 1,
        are_digits(16, hexadecimal(n)),
        value_of_digits(16, hexadecimal(n)) == n,
        n > 0 ==> value_of_digit(hexadecimal(n)[0]) != 0,
        n == 0 ==> hexadecimal(n).len() == 1,
    decreases n,
{
    reveal_with_fuel(value_of_digits, 2);
    lemma_digit((n % 16) as int);
    if n >= 16 {
        hexadecimals_are_read_back(n / 16);
        let start = hexadecimal(n / 16);
        assert(hexadecimal(n).drop_last() =~= start);
        assert(hexadecimal(n)[0] == start[0]);
        assert forall|i: int| 0 <= i < hexadecimal(n).len() implies 0 <= value_of_digit(
            #[trigger] hexadecimal(n)[i],
        ) < 16 by {
            if i < start.len() {
                assert(hexadecimal(n)[i] == start[i]);
            }
        }
    } else {
        assert(hexadecimal(n).drop_last() =~= Seq::<char>::empty());
    }
}

/// A machine number is `0x` and always four digits.
pub proof fn machines_have_four_digits(n: u16)
    ensures
        hex4(n).len() == 6,
        hex4(n)[0] == '0',
        hex4(n)[1] == 'x',
        4096 * value_of_digit(hex4(n)[2]) + 256 * value_of_digit(hex4(n)[3]) + 16 * value_of_digit(
            hex4(n)[4],
        ) + value_of_digit(hex4(n)[5]) == n,
        forall|i: int| 2 <= i < 6 ==> 0 <= value_of_digit(#[trigger] hex4(n)[i]) < 16,
{
    reveal_strlit("0x");
    let m = n as int;
    lemma_digit(m / 4096);
    lemma_digit(m / 256 % 16);
    lemma_digit(m / 16 % 16);
    lemma_digit(m % 16);
    assert(m / 256 / 16 == m / 4096);
    assert(m / 16 / 16 == m / 256);
}

/// A character of the basic plane is one unit. Every other one is a pair whose
/// halves give its number above that plane.
pub proof fn characters_have_their_units(c: char)
    ensures
        (c as int) < 0x10000 ==> char_units(c).len() == 1 && char_units(c)[0] == c as int,
        (c as int) >= 0x10000 ==> {
            let u = char_units(c);
            &&& u.len() == 2
            &&& 0xd800 <= u[0] < 0xdc00
            &&& 0xdc00 <= u[1] < 0xe000
            &&& 0x10000 + 1024 * (u[0] - 0xd800) + (u[1] - 0xdc00) == c as int
        },
{
    let n = c as u32;
    if n >= 0x10000 {
        let m = n - 0x10000;
        assert(n <= 0x10ffff);
        assert(m / 0x400 < 0x400);
        assert(m == m / 0x400 * 0x400 + m % 0x400);
    }
}

/// A text has the units of its characters, in order, and nothing else.
pub proof fn texts_have_the_units_of_their_characters(text: Seq<char>, c: char)
    ensures
        utf16_units(Seq::<char>::empty()) == Seq::<u16>::empty(),
        utf16_units(text.push(c)) == utf16_units(text) + char_units(c),
    decreases text.len(),
{
    reveal_with_fuel(utf16_units, 2);
    if text.len() == 0 {
        assert(text.push(c).skip(1) =~= Seq::<char>::empty());
        assert(text =~= Seq::<char>::empty());
        assert(utf16_units(text.push(c)) =~= utf16_units(text) + char_units(c));
    } else {
        texts_have_the_units_of_their_characters(text.skip(1), c);
        assert(text.push(c).skip(1) =~= text.skip(1).push(c));
        assert(utf16_units(text.push(c)) =~= utf16_units(text) + char_units(c));
    }
}

/// An unknown wait result is named in base sixteen.
pub proof fn unexpected_waits_are_named(result: u32)
    ensures
        unexpected_wait_of(result) == "unexpected thread wait result: 0x"@ + hexadecimal(
            result as nat,
        ),
{
}

/// The error of a call names the call and keeps the source; that of a file
/// names the operation and the path too.
pub proof fn errors_name_what_failed(
    call: &'static str,
    path: &[u16],
    source: std::io::Error,
    error: Error,
    io: Error,
)
    requires
        call_ensures(from_win32, (call, source), error),
        call_ensures(file_io, (call, path, source), io),
    ensures
        error@ == (ErrorView::Win32 { call: call@, source }),
        io@ == (ErrorView::Io { operation: call@, path: path@, source }),
{
}

/// What an error came from: the operation rather than its cleanup, and for a
/// failed call the error of the system.
pub proof fn errors_have_their_source(error: &Error, source: Option<Source<'_>>)
    requires
        call_ensures(Error::source, (error,), source),
    ensures
        match *error {
            Error::ProtectionRestore(inner) => source == Some(Source::Library(&*inner)),
            Error::Cleanup { operation, .. } => source == Some(Source::Library(&*operation)),
            Error::RemotePending(os) => source == Some(Source::Os(&os)),
            Error::Io { source: os, .. } => source == Some(Source::Os(&os)),
            Error::Win32 { source: os, .. } => source == Some(Source::Os(&os)),
            _ => source is None,
        },
{
}

/// What the errors say that carry nothing.
pub proof fn plain_errors_have_their_words(text: Seq<char>)
    ensures
        ErrorView::MissingThreadHandle.says(text) <==> text
            == "this strategy needs the target main-thread handle"@,
        ErrorView::ModuleNotFound.says(text) <==> text
            == "could not confirm the injected module in the target"@,
        ErrorView::RemoteTimeout.says(text) <==> text
            == "the remote thread timed out; outcome pending; do not retry"@,
        ErrorView::AmbiguousPrimaryThread.says(text) <==> text
            == "could not identify the primary thread unambiguously"@,
        ErrorView::IatRollbackFailed.says(text) <==> text
            == "IAT rollback failed; the target is modified and must not resume"@,
{
}

/// What the errors say that carry a path, a reason, a number or a name: their
/// own words, and then exactly what they carry.
pub proof fn errors_say_what_they_carry(
    path: Seq<u16>,
    reason: Seq<char>,
    machine: u16,
    limit: u64,
    text: Seq<char>,
)
    ensures
        ErrorView::DllNotFound(path).says(text) <==> text == "the DLL path does not exist: "@
            + utf16_text(path),
        ErrorView::Pe(reason).says(text) <==> text == "PE parse error: "@ + reason,
        ErrorView::InvalidTarget(reason).says(text) <==> text == "invalid target or state: "@
            + reason,
        ErrorView::UnsupportedPath(reason).says(text) <==> text == "unsupported payload path: "@
            + reason,
        ErrorView::UnknownStrategy(reason).says(text) <==> text == "unknown injection strategy: "@
            + reason,
        ErrorView::UnsupportedMachine(machine).says(text) <==> text == "unsupported machine type: "@
            + hex4(machine),
        (ErrorView::PayloadTooLarge { limit }).says(text) <==> text == "payload file exceeds the "@
            + decimal(limit as nat) + "-byte limit"@,
        (ErrorView::StrategyUnavailable {
            strategy: Strategy::LoadLibraryRemoteThread,
            reason,
        }).says(text) <==> text == "the strategy "@ + "LoadLibraryRemoteThread"@
            + " is not available: "@ + reason,
        (ErrorView::StrategyUnavailable { strategy: Strategy::QueueUserApc, reason }).says(text)
            <==> text == "the strategy "@ + "QueueUserApc"@ + " is not available: "@ + reason,
        (ErrorView::StrategyUnavailable { strategy: Strategy::ImportTableHijack, reason }).says(
            text,
        ) <==> text == "the strategy "@ + "ImportTableHijack"@ + " is not available: "@ + reason,
        (ErrorView::BitnessMismatch { injector_64: true, target_64: false }).says(text) <==> text
            == "the injector and target bitness differ (injector_64="@ + "true"@ + ", target_64="@
            + "false"@ + ")"@,
        (ErrorView::BitnessMismatch { injector_64: false, target_64: true }).says(text) <==> text
            == "the injector and target bitness differ (injector_64="@ + "false"@ + ", target_64="@
            + "true"@ + ")"@,
{
}

/// Errors of the system begin with what was tried.
pub proof fn system_errors_begin_with_what_was_tried(
    call: Seq<char>,
    path: Seq<u16>,
    source: std::io::Error,
    text: Seq<char>,
)
    ensures
        (ErrorView::Win32 { call, source }).says(text) <==> (call + " failed: "@).is_prefix_of(
            text,
        ),
        (ErrorView::Io { operation: call, path, source }).says(text) <==> (call + " failed for "@
            + utf16_text(path) + ": "@).is_prefix_of(text),
        ErrorView::RemotePending(source).says(text) <==> (
        "the remote wait failed; outcome pending; allocation retained: "@).is_prefix_of(text),
{
}

/// Two failures say both, the operation first. A protection that was not
/// restored says why, and that the target must not resume.
pub proof fn combined_errors_say_both(
    operation: ErrorView,
    cleanup: ErrorView,
    first: Seq<char>,
    second: Seq<char>,
)
    requires
        operation.says(first),
        cleanup.says(second),
    ensures
        (ErrorView::Cleanup { operation: Box::new(operation), cleanup: Box::new(cleanup) }).says(
            "operation failed: "@ + first + "; cleanup also failed: "@ + second,
        ),
        ErrorView::ProtectionRestore(Box::new(operation)).says(
            "protection restoration failed; do not resume: "@ + first,
        ),
{
    reveal_with_fuel(ErrorView::says, 2);
    assert(cleanup_text(first, second) == "operation failed: "@ + first
        + "; cleanup also failed: "@ + second);
    assert(restore_text(first) == "protection restoration failed; do not resume: "@
        + first);
}

} // verus!
