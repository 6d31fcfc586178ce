//! Names of the events that a harness and its fixtures share, and what the
//! payload fixture signals when it is loaded.

use crate::text::{
    char_units, decimal, digit_char, lemma_units_without_nul, push_decimal, push_utf16, utf16_text,
    utf16_units, utf16_keeps_the_text,
};
use vstd::prelude::*;

verus! {

/// The terminated name of the event of a process.
pub open spec fn event_name_of(pid: u32, prefix: Seq<char>) -> Seq<u16> {
    utf16_units(prefix) + utf16_units(decimal(pid as nat)) + seq![0u16]
}

/// The terminated name of the event of a process.
pub fn event_name(pid: u32, prefix: &str) -> (name: Vec<u16>)
    requires
        !prefix@.contains('\0'),
    ensures
        name@ == event_name_of(pid, prefix@),
{
    let mut digits = String::new();
    push_decimal(&mut digits, pid as u64);
    assert(digits@ =~= decimal(pid as nat));
    let mut name: Vec<u16> = Vec::new();
    push_utf16(&mut name, prefix);
    push_utf16(&mut name, digits.as_str());
    name.push(0);
    assert(name@ =~= event_name_of(pid, prefix@));
    name
}

proof fn lemma_decimal_without_nul(n: nat)
    ensures
        !decimal(n).contains('\0'),
    decreases n,
{
    if n >= 10 {
        lemma_decimal_without_nul(n / 10);
        let start = decimal(n / 10);
        assert forall|i: int| 0 <= i < decimal(n).len() implies decimal(n)[i] != '\0' by {
            if i < start.len() {
                assert(start.contains(start[i]));
            }
        }
    }
}

proof fn lemma_utf16_append(one: Seq<char>, other: Seq<char>)
    ensures
        utf16_units(one + other) == utf16_units(one) + utf16_units(other),
    decreases one.len(),
{
    if one.len() == 0 {
        assert(one + other =~= other);
        assert(utf16_units(one) + utf16_units(other) =~= utf16_units(other));
    } else {
        assert((one + other).skip(1) =~= one.skip(1) + other);
        lemma_utf16_append(one.skip(1), other);
        assert(utf16_units(one + other) =~= utf16_units(one) + utf16_units(other));
    }
}

/// An event name decodes to its prefix and the process number, characters
/// outside the basic plane included, and its only NUL is the terminator.
pub proof fn event_names_decode(pid: u32, prefix: Seq<char>)
    requires
        !prefix.contains('\0'),
    ensures
        utf16_text(event_name_of(pid, prefix).drop_last()) == prefix + decimal(pid as nat),
        event_name_of(pid, prefix).last() == 0,
        !event_name_of(pid, prefix).drop_last().contains(0),
{
    let text = prefix + decimal(pid as nat);
    lemma_utf16_append(prefix, decimal(pid as nat));
    utf16_keeps_the_text(text);
    assert(event_name_of(pid, prefix).drop_last() =~= utf16_units(text));
    lemma_decimal_without_nul(pid as nat);
    assert forall|i: int| 0 <= i < text.len() implies text[i] != '\0' by {
        if i < prefix.len() {
            assert(prefix.contains(prefix[i]));
        } else {
            let d = decimal(pid as nat);
            assert(d.contains(d[i - prefix.len()]));
        }
    }
    lemma_units_without_nul(text);
}

/// How many units a name on the stack of a fixture may have.
pub const STACK_NAME_UNITS: usize = 96;

/// The units of ASCII bytes.
pub open spec fn byte_units(bytes: Seq<u8>) -> Seq<u16> {
    bytes.map_values(|byte: u8| byte as u16)
}

/// The digits of `n` in base ten, as units.
pub open spec fn digit_units(n: nat) -> Seq<u16>
    decreases n,
{
    if n < 10 {
        seq![(48 + n) as u16]
    } else {
        digit_units(n / 10).push((48 + n % 10) as u16)
    }
}

proof fn lemma_digit_units(n: nat, k: nat, bound: nat)
    requires
        n < bound,
        bound == pow10(k),
        k > 0,
    ensures
        1 <= digit_units(n).len() <= k,
    decreases k,
{
    if n >= 10 {
        assert(k > 1) by {
            if k == 1 {
                assert(pow10(1) == 10 * pow10(0));
            }
        }
        lemma_digit_units(n / 10, (k - 1) as nat, pow10((k - 1) as nat));
    }
}

spec fn pow10(k: nat) -> nat
    decreases k,
{
    if k == 0 {
        1
    } else {
        10 * pow10((k - 1) as nat)
    }
}

/// The name of an event as a fixture composes it without allocating: the
/// buffer, and how many of its units stand in front of the terminator.
pub fn stack_event_name(prefix: &[u8], pid: u32) -> (name: ([u16; 96], usize))
    requires
        prefix@.len() + digit_units(pid as nat).len() < STACK_NAME_UNITS,
    ensures
        name.1 < STACK_NAME_UNITS,
        name.0@.take(name.1 as int) == byte_units(prefix@) + digit_units(pid as nat),
        name.0@[name.1 as int] == 0,
{
    let mut name: [u16; 96] = [0u16;96];
    let mut n: usize = 0;
    while n < prefix.len()
        invariant
            n <= prefix@.len(),
            prefix@.len() < STACK_NAME_UNITS,
            name@.len() == 96,
            forall|i: int| 0 <= i < n ==> #[trigger] name@[i] == prefix@[i] as u16,
            forall|i: int| n <= i < 96 ==> #[trigger] name@[i] == 0,
        decreases prefix@.len() - n,
    {
        name[n] = prefix[n] as u16;
        n += 1;
    }
    let ghost start = n as int;
    let mut digits: [u16; 10] = [0u16;10];
    let mut count: usize = 0;
    let mut rest: u32 = pid;
    proof {
        reveal_with_fuel(pow10, 11);
        assert(pow10(10) == 10000000000);
        lemma_digit_units(pid as nat, 10, pow10(10));
    }
    let ghost all = digit_units(pid as nat);
    assert(all =~= digit_units(rest as nat) + Seq::<u16>::empty());
    loop
        invariant_except_break
            count < all.len() <= 10,
            digits@.len() == 10,
            all == digit_units(pid as nat),
            all.len() == digit_units(rest as nat).len() + count,
            forall|i: int|
                0 <= i < digit_units(rest as nat).len() ==> #[trigger] digit_units(rest as nat)[i]
                    == all[i],
            forall|i: int| 0 <= i < count ==> #[trigger] digits@[i] == all[all.len() - 1 - i],
        ensures
            count == all.len(),
            digits@.len() == 10,
            all.len() <= 10,
            all == digit_units(pid as nat),
            forall|i: int| 0 <= i < count ==> #[trigger] digits@[i] == all[all.len() - 1 - i],
        decreases rest,
    {
        let ghost before = digit_units(rest as nat);
        digits[count] = 48 + (rest % 10) as u16;
        assert(before.last() == (48 + rest % 10) as u16);
        assert(before[before.len() - 1] == all[before.len() - 1]);
        count += 1;
        if rest < 10 {
            assert(before.len() == 1);
            break;
        }
        rest = rest / 10;
        assert(before.drop_last() =~= digit_units(rest as nat));
    }
    while count > 0
        invariant
            count <= all.len() <= 10,
            digits@.len() == 10,
            name@.len() == 96,
            start == prefix@.len(),
            start + all.len() < 96,
            n == start + all.len() - count,
            all == digit_units(pid as nat),
            forall|i: int| 0 <= i < all.len() ==> #[trigger] digits@[i] == all[all.len() - 1 - i],
            forall|i: int| 0 <= i < start ==> #[trigger] name@[i] == prefix@[i] as u16,
            forall|i: int| start <= i < n ==> #[trigger] name@[i] == all[i - start],
            forall|i: int| n <= i < 96 ==> #[trigger] name@[i] == 0,
        decreases count,
    {
        count -= 1;
        name[n] = digits[count];
        n += 1;
    }
    assert(name@.take(n as int) =~= byte_units(prefix@) + digit_units(pid as nat));
    (name, n)
}

proof fn lemma_digit_unit(d: int)
    requires
        0 <= d < 10,
    ensures
        utf16_units(seq![digit_char(d)]) == seq![(48 + d) as u16],
{
    let c = digit_char(d);
    let text = seq![c];
    assert(c as u32 == 48 + d);
    assert(text.skip(1) =~= Seq::empty());
    assert(utf16_units(text.skip(1)) =~= Seq::empty());
    assert(char_units(c) =~= seq![(48 + d) as u16]);
    assert(utf16_units(text) =~= seq![(48 + d) as u16]);
}

proof fn lemma_digits_agree(n: nat)
    ensures
        utf16_units(decimal(n)) == digit_units(n),
    decreases n,
{
    if n < 10 {
        lemma_digit_unit(n as int);
    } else {
        lemma_digit_unit((n % 10) as int);
        lemma_digits_agree(n / 10);
        let last = seq![digit_char((n % 10) as int)];
        assert(decimal(n) =~= decimal(n / 10) + last);
        lemma_utf16_append(decimal(n / 10), last);
        assert(utf16_units(decimal(n)) =~= digit_units(n));
    }
}

/// A fixture and the harness agree on the name of an event with an ASCII
/// prefix, so one opens what the other created.
pub proof fn event_names_agree(pid: u32, prefix: Seq<char>, bytes: Seq<u8>)
    requires
        utf16_units(prefix) == byte_units(bytes),
    ensures
        event_name_of(pid, prefix) == byte_units(bytes) + digit_units(pid as nat) + seq![0u16],
{
    lemma_digits_agree(pid as nat);
}

/// The prefixes of the standard events, each completed by a process number.
#[derive(Debug, Clone, Copy, PartialEq, Eq, Structural)]
pub enum EventKind {
    /// The payload was attached.
    Test,
    /// The payload is ready.
    Ready,
    /// The entry point of the target runs.
    Entry,
    /// The entry point has seen the payload.
    Pass,
    /// The payload was ready when the entry point ran.
    ReadyAtEntry,
    /// The main function of the target runs.
    Main,
}

impl EventKind {
    /// The prefix of the event's name.
    pub fn prefix(&self) -> (prefix: &'static str)
        ensures
            prefix@ == match *self {
                EventKind::Test => "Local\\stork_test_"@,
                EventKind::Ready => "Local\\stork_ready_"@,
                EventKind::Entry => "Local\\stork_entry_"@,
                EventKind::Pass => "Local\\stork_pass_"@,
                EventKind::ReadyAtEntry => "Local\\stork_ready_at_entry_"@,
                EventKind::Main => "Local\\stork_main_"@,
            },
            !prefix@.contains('\0'),
    {
        proof {
            reveal_strlit("Local\\stork_test_");
            reveal_strlit("Local\\stork_ready_");
            reveal_strlit("Local\\stork_entry_");
            reveal_strlit("Local\\stork_pass_");
            reveal_strlit("Local\\stork_ready_at_entry_");
            reveal_strlit("Local\\stork_main_");
        }
        match self {
            EventKind::Test => "Local\\stork_test_",
            EventKind::Ready => "Local\\stork_ready_",
            EventKind::Entry => "Local\\stork_entry_",
            EventKind::Pass => "Local\\stork_pass_",
            EventKind::ReadyAtEntry => "Local\\stork_ready_at_entry_",
            EventKind::Main => "Local\\stork_main_",
        }
    }
}

/// What the payload fixture does next while it is attached.
#[derive(Debug, Clone, Copy, PartialEq, Eq, Structural)]
pub enum AttachStep {
    SignalTest,
    /// Look for the event that delays readiness.
    OpenDelay,
    /// Start the worker that reports readiness later.
    StartWorker,
    SignalReady,
    /// Look for the event that blocks the attachment.
    OpenBlock,
    SignalWaiting,
    /// Wait for the blocking event.
    Block,
    SignalUnblocked,
    SignalDone,
    Finished,
}

impl AttachStep {
    /// The step behind this one. `opened` says whether the event that the step
    /// looked for is there.
    pub fn next(&self, opened: bool) -> (next: AttachStep)
        ensures
            next == match *self {
                AttachStep::SignalTest => AttachStep::OpenDelay,
                AttachStep::OpenDelay => if opened {
                    AttachStep::StartWorker
                } else {
                    AttachStep::SignalReady
                },
                AttachStep::StartWorker | AttachStep::SignalReady => AttachStep::OpenBlock,
                AttachStep::OpenBlock => if opened {
                    AttachStep::SignalWaiting
                } else {
                    AttachStep::SignalDone
                },
                AttachStep::SignalWaiting => AttachStep::Block,
                AttachStep::Block => AttachStep::SignalUnblocked,
                AttachStep::SignalUnblocked => AttachStep::SignalDone,
                AttachStep::SignalDone | AttachStep::Finished => AttachStep::Finished,
            },
    {
        match self {
            AttachStep::SignalTest => AttachStep::OpenDelay,
            AttachStep::OpenDelay => if opened {
                AttachStep::StartWorker
            } else {
                AttachStep::SignalReady
            },
            AttachStep::StartWorker | AttachStep::SignalReady => AttachStep::OpenBlock,
            AttachStep::OpenBlock => if opened {
                AttachStep::SignalWaiting
            } else {
                AttachStep::SignalDone
            },
            AttachStep::SignalWaiting => AttachStep::Block,
            AttachStep::Block => AttachStep::SignalUnblocked,
            AttachStep::SignalUnblocked => AttachStep::SignalDone,
            AttachStep::SignalDone | AttachStep::Finished => AttachStep::Finished,
        }
    }
}

pub const DLL_PROCESS_ATTACH: u32 = 1;

/// The first step of the payload fixture for a loader notification. Only an
/// attachment changes anything.
pub fn attach_start(reason: u32) -> (step: AttachStep)
    ensures
        step == if reason == DLL_PROCESS_ATTACH {
            AttachStep::SignalTest
        } else {
            AttachStep::Finished
        },
{
    if reason == DLL_PROCESS_ATTACH {
        AttachStep::SignalTest
    } else {
        AttachStep::Finished
    }
}

} // verus!
