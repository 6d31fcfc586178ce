//! Command lines for child processes, quoted so that every argument arrives
//! as it was given.

use crate::text::{push_utf16, utf16_units};
use vstd::prelude::*;

verus! {

pub const QUOTE: u16 = 34;

pub const BACKSLASH: u16 = 92;

pub const SPACE: u16 = 32;

pub const TAB: u16 = 9;

/// `count` backslashes in a row.
pub open spec fn slashes(count: nat) -> Seq<u16> {
    Seq::new(count, |i: int| BACKSLASH)
}

/// The quoted form of `arg` behind `run` backslashes that are not written yet.
/// Backslashes are doubled in front of a quote, and a quote gets one more.
pub open spec fn quoted_tail(arg: Seq<u16>, run: nat) -> Seq<u16>
    decreases arg.len(),
{
    if arg.len() == 0 {
        slashes(run * 2).push(QUOTE)
    } else if arg[0] == BACKSLASH {
        quoted_tail(arg.skip(1), run + 1)
    } else if arg[0] == QUOTE {
        slashes(run * 2 + 1).push(QUOTE) + quoted_tail(arg.skip(1), 0)
    } else {
        slashes(run).push(arg[0]) + quoted_tail(arg.skip(1), 0)
    }
}

/// The quoted form of an argument.
pub open spec fn quoted(arg: Seq<u16>) -> Seq<u16> {
    seq![QUOTE] + quoted_tail(arg, 0)
}

/// Every argument in its quoted form, behind a space.
pub open spec fn quoted_args(args: Seq<Seq<u16>>) -> Seq<u16>
    decreases args.len(),
{
    if args.len() == 0 {
        Seq::empty()
    } else {
        seq![SPACE] + quoted(args[0]) + quoted_args(args.skip(1))
    }
}

/// The command line that runs `exe` with `args`, without its terminator.
pub open spec fn command_line(exe: Seq<u16>, args: Seq<Seq<u16>>) -> Seq<u16> {
    seq![QUOTE] + exe + seq![QUOTE] + quoted_args(args)
}

/// The units of every argument.
pub open spec fn arg_units(args: Seq<&str>) -> Seq<Seq<u16>> {
    args.map_values(|arg: &str| utf16_units(arg@))
}

fn push_slashes(command: &mut Vec<u16>, count: usize)
    ensures
        final(command)@ == old(command)@ + slashes(count as nat),
{
    let mut i: usize = 0;
    while i < count
        invariant
            i <= count,
            command@ == old(command)@ + slashes(i as nat),
        decreases count - i,
    {
        command.push(BACKSLASH);
        i += 1;
        assert(command@ =~= old(command)@ + slashes(i as nat));
    }
    assert(command@ =~= old(command)@ + slashes(count as nat));
}

/// Append the quoted form of `arg`.
fn push_quoted(command: &mut Vec<u16>, arg: &Vec<u16>)
    ensures
        final(command)@ == old(command)@ + quoted(arg@),
{
    command.push(QUOTE);
    let mut run: usize = 0;
    let mut i: usize = 0;
    assert(arg@.skip(0) =~= arg@);
    assert(command@ + quoted_tail(arg@, 0) =~= old(command)@ + quoted(arg@));
    while i < arg.len()
        invariant
            i <= arg@.len(),
            run <= i,
            command@ + quoted_tail(arg@.skip(i as int), run as nat) == old(command)@ + quoted(arg@),
        decreases arg@.len() - i,
    {
        let unit: u16 = arg[i];
        let ghost before = command@;
        let ghost rest = arg@.skip(i + 1);
        assert(arg@.skip(i as int)[0] == unit);
        assert(arg@.skip(i as int).skip(1) =~= rest);
        i += 1;
        if unit == BACKSLASH {
            run += 1;
        } else {
            let ghost count: nat = if unit == QUOTE {
                (run * 2 + 1) as nat
            } else {
                run as nat
            };
            push_slashes(command, run);
            if unit == QUOTE {
                push_slashes(command, run);
                command.push(BACKSLASH);
            }
            command.push(unit);
            run = 0;
            assert(command@ =~= before + slashes(count).push(unit));
            assert(command@ + quoted_tail(rest, 0) =~= before + (slashes(count).push(unit)
                + quoted_tail(rest, 0)));
        }
    }
    assert(arg@.skip(i as int) =~= Seq::empty());
    let ghost before = command@;
    push_slashes(command, run);
    push_slashes(command, run);
    command.push(QUOTE);
    assert(command@ =~= before + slashes((run * 2) as nat).push(QUOTE));
}

/// The terminated command line that runs `exe` with `args`.
pub fn wide_command_line(exe: &[u16], args: &[&str]) -> (command: Vec<u16>)
    requires
        !exe@.contains(0),
        forall|i: int| 0 <= i < args@.len() ==> !(#[trigger] args@[i])@.contains('\0'),
    ensures
        command@ == command_line(exe@, arg_units(args@)).push(0),
{
    let mut command: Vec<u16> = Vec::new();
    command.push(QUOTE);
    command.extend_from_slice(exe);
    command.push(QUOTE);
    let mut i: usize = 0;
    let ghost units = arg_units(args@);
    assert(units.skip(0) =~= units);
    assert(command@ + quoted_args(units) =~= command_line(exe@, units));
    while i < args.len()
        invariant
            i <= args@.len(),
            units == arg_units(args@),
            command@ + quoted_args(units.skip(i as int)) == command_line(exe@, units),
        decreases args@.len() - i,
    {
        let ghost before = command@;
        let mut arg: Vec<u16> = Vec::new();
        push_utf16(&mut arg, args[i]);
        assert(arg@ =~= units[i as int]);
        assert(units.skip(i as int)[0] == arg@);
        assert(units.skip(i as int).skip(1) =~= units.skip(i + 1));
        command.push(SPACE);
        push_quoted(&mut command, &arg);
        i += 1;
        assert(command@ + quoted_args(units.skip(i as int)) =~= before + (seq![SPACE] + quoted(arg@)
            + quoted_args(units.skip(i as int))));
    }
    assert(units.skip(i as int) =~= Seq::empty());
    assert(command@ =~= command@ + quoted_args(units.skip(i as int)));
    command.push(0);
    command
}

/// What separates arguments.
pub open spec fn is_blank(unit: u16) -> bool {
    unit == SPACE || unit == TAB
}

/// `line` without the blanks at its beginning.
pub open spec fn unblanked(line: Seq<u16>) -> Seq<u16>
    decreases line.len(),
{
    if line.len() > 0 && is_blank(line[0]) {
        unblanked(line.skip(1))
    } else {
        line
    }
}

/// How a program reads its own name from `line`: quotes only protect blanks.
/// The name and what is left of the line.
pub open spec fn read_name(line: Seq<u16>, inside: bool, name: Seq<u16>) -> (Seq<u16>, Seq<u16>)
    decreases line.len(),
{
    if line.len() == 0 {
        (name, line)
    } else if line[0] == QUOTE {
        read_name(line.skip(1), !inside, name)
    } else if is_blank(line[0]) && !inside {
        (name, line)
    } else {
        read_name(line.skip(1), inside, name.push(line[0]))
    }
}

/// How a program reads an argument from `line`, behind `run` backslashes and
/// inside quotes or not: in front of a quote two backslashes stand for one, a
/// quote behind an odd number of them or behind another quote is literal, and
/// elsewhere a backslash stands for itself. The argument and what is left of
/// the line.
pub open spec fn read_arg(line: Seq<u16>, run: nat, inside: bool, arg: Seq<u16>) -> (
    Seq<u16>,
    Seq<u16>,
)
    decreases line.len(),
{
    if line.len() == 0 {
        (arg + slashes(run), line)
    } else if line[0] == BACKSLASH {
        read_arg(line.skip(1), run + 1, inside, arg)
    } else if line[0] == QUOTE {
        let kept = arg + slashes(run / 2);
        if run % 2 == 1 {
            read_arg(line.skip(1), 0, inside, kept.push(QUOTE))
        } else if inside && line.len() > 1 && line[1] == QUOTE {
            read_arg(line.skip(2), 0, inside, kept.push(QUOTE))
        } else {
            read_arg(line.skip(1), 0, !inside, kept)
        }
    } else if is_blank(line[0]) && !inside {
        (arg + slashes(run), line)
    } else {
        read_arg(line.skip(1), 0, inside, (arg + slashes(run)).push(line[0]))
    }
}

/// A program reads exactly these arguments from `line`.
pub open spec fn reads_args(line: Seq<u16>, args: Seq<Seq<u16>>) -> bool
    decreases args.len(),
{
    let rest = unblanked(line);
    if args.len() == 0 {
        rest.len() == 0
    } else {
        let (arg, left) = read_arg(rest, 0, false, Seq::empty());
        &&& rest.len() > 0
        &&& arg == args[0]
        &&& reads_args(left, args.skip(1))
    }
}

/// A program reads this name and these arguments from `line`.
pub open spec fn reads_as(line: Seq<u16>, name: Seq<u16>, args: Seq<Seq<u16>>) -> bool {
    let (read, left) = read_name(line, false, Seq::empty());
    read == name && reads_args(left, args)
}

proof fn lemma_read_slashes(count: nat, line: Seq<u16>, run: nat, inside: bool, arg: Seq<u16>)
    ensures
        read_arg(slashes(count) + line, run, inside, arg) == read_arg(
            line,
            run + count,
            inside,
            arg,
        ),
    decreases count,
{
    let text = slashes(count) + line;
    if count > 0 {
        assert(text[0] == BACKSLASH);
        assert(text.skip(1) =~= slashes((count - 1) as nat) + line);
        lemma_read_slashes((count - 1) as nat, line, run + 1, inside, arg);
    } else {
        assert(text =~= line);
    }
}

/// An argument reads back from its quoted form, behind its opening quote.
proof fn lemma_read_tail(arg: Seq<u16>, run: nat, read: Seq<u16>, line: Seq<u16>)
    requires
        line.len() > 0 ==> line[0] == SPACE,
    ensures
        read_arg(quoted_tail(arg, run) + line, 0, true, read) == (read + slashes(run) + arg, line),
    decreases arg.len(),
{
    if arg.len() == 0 {
        reveal_with_fuel(read_arg, 3);
        let count = run * 2;
        let closing = seq![QUOTE] + line;
        assert(quoted_tail(arg, run) + line =~= slashes(count) + closing);
        lemma_read_slashes(count, closing, 0, true, read);
        assert(closing.skip(1) =~= line);
        assert(read + slashes(run) + slashes(0) =~= read + slashes(run) + arg);
    } else {
        let rest = arg.skip(1);
        if arg[0] == BACKSLASH {
            lemma_read_tail(rest, run + 1, read, line);
            assert(read + slashes(run + 1) + rest =~= read + slashes(run) + arg);
        } else {
            let count = if arg[0] == QUOTE {
                run * 2 + 1
            } else {
                run
            };
            let left = seq![arg[0]] + (quoted_tail(rest, 0) + line);
            assert(quoted_tail(arg, run) + line =~= slashes(count) + left);
            lemma_read_slashes(count, left, 0, true, read);
            assert(left.skip(1) =~= quoted_tail(rest, 0) + line);
            let next = (read + slashes(run)).push(arg[0]);
            lemma_read_tail(rest, 0, next, line);
            assert(next + slashes(0) + rest =~= read + slashes(run) + arg);
        }
    }
}

proof fn lemma_reads_args(args: Seq<Seq<u16>>)
    ensures
        reads_args(quoted_args(args), args),
        quoted_args(args).len() > 0 ==> quoted_args(args)[0] == SPACE,
    decreases args.len(),
{
    if args.len() > 0 {
        let others = quoted_args(args.skip(1));
        let line = quoted_args(args);
        let tail = quoted_tail(args[0], 0) + others;
        lemma_reads_args(args.skip(1));
        assert(line.skip(1) =~= seq![QUOTE] + tail);
        let rest = seq![QUOTE] + tail;
        assert(unblanked(rest) == rest);
        assert(unblanked(line) == rest);
        assert(rest.skip(1) =~= tail);
        assert(Seq::<u16>::empty() + slashes(0) =~= Seq::empty());
        assert(read_arg(rest, 0, false, Seq::empty()) == read_arg(tail, 0, true, Seq::empty()));
        lemma_read_tail(args[0], 0, Seq::empty(), others);
        assert(Seq::empty() + slashes(0) + args[0] =~= args[0]);
    }
}

proof fn lemma_read_name(exe: Seq<u16>, line: Seq<u16>, name: Seq<u16>)
    requires
        !exe.contains(QUOTE),
        line.len() > 0 ==> line[0] == SPACE,
    ensures
        read_name(exe + seq![QUOTE] + line, true, name) == (name + exe, line),
    decreases exe.len(),
{
    let text = exe + seq![QUOTE] + line;
    if exe.len() == 0 {
        reveal_with_fuel(read_name, 3);
        assert(text.skip(1) =~= line);
        assert(name + exe =~= name);
    } else {
        let rest = exe.skip(1);
        assert(exe[0] != QUOTE);
        assert forall|i: int| 0 <= i < rest.len() implies rest[i] != QUOTE by {
            assert(exe[i + 1] == rest[i]);
        }
        assert(text.skip(1) =~= rest + seq![QUOTE] + line);
        lemma_read_name(rest, line, name.push(exe[0]));
        assert(name.push(exe[0]) + rest =~= name + exe);
    }
}

/// A program reads its name and every argument from its command line exactly
/// as they were given, whatever the arguments hold. A file name holds no quote.
pub proof fn arguments_arrive_exactly(exe: Seq<u16>, args: Seq<Seq<u16>>)
    requires
        !exe.contains(QUOTE),
    ensures
        reads_as(command_line(exe, args), exe, args),
{
    let line = command_line(exe, args);
    let rest = exe + seq![QUOTE] + quoted_args(args);
    lemma_reads_args(args);
    assert(line.skip(1) =~= rest);
    lemma_read_name(exe, quoted_args(args), Seq::empty());
    assert(Seq::empty() + exe =~= exe);
}

} // verus!
