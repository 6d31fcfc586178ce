//! The command lines, names and files of a test run.

use crate::harness::command_line::{
    arg_units, command_line, quoted, quoted_args, quoted_tail, wide_command_line, BACKSLASH, QUOTE,
    SPACE, TAB,
};
use crate::harness::events::{
    attach_start, byte_units, digit_units, event_name_of, stack_event_name, AttachStep, EventKind,
};
use crate::harness::fixtures::{
    build_arguments_of, csharp_target, csharp_target_x64, fixtures, joined, mixed_target,
    name_start, profile, wait_for_file, with_file_name, FileWait, Fixtures, ManagedBuild, TargetDir,
};
use crate::harness::scripts::{
    checkpoint_name_of, csharp_code_of, node_code, python_code, replaced, runtime_config,
    script_literal,
};
use crate::text::{decimal, utf16_units};
use vstd::prelude::*;

verus! {

/// The units that command lines are made with.
pub proof fn quotes_and_blanks_are_ascii()
    ensures
        QUOTE == 34,
        BACKSLASH == 92,
        SPACE == 32,
        TAB == 9,
{
}

/// A command line is the program between quotes, and every argument between
/// quotes behind a space. It ends in a NUL.
pub proof fn command_lines_begin_with_the_program(
    exe: &[u16],
    args: &[&str],
    command: Vec<u16>,
)
    requires
        call_ensures(wide_command_line, (exe, args), command),
    ensures
        ({
            let n = exe@.len() as int;
            let line = command@;
            &&& line.len() >= n + 3
            &&& line[0] == 34
            &&& forall|i: int| 0 <= i < n ==> line[1 + i] == #[trigger] exe@[i]
            &&& line[n + 1] == 34
            &&& line[line.len() - 1] == 0
            &&& args@.len() == 0 ==> line.len() == n + 3
            &&& args@.len() > 0 ==> line.len() >= n + 6 && line[n + 2] == 32 && line[n + 3] == 34
                && line[line.len() - 2] == 34
            &&& command@ == command_line(exe@, arg_units(args@)).push(0)
        }),
{
    let n = exe@.len() as int;
    let units = arg_units(args@);
    let rest = quoted_args(units);
    let line = command@;
    assert(line == (seq![QUOTE] + exe@ + seq![QUOTE] + rest).push(0));
    assert(line.len() == n + 2 + rest.len() + 1);
    assert forall|i: int| 0 <= i < n implies line[1 + i] == #[trigger] exe@[i] by {
        assert((seq![QUOTE] + exe@)[1 + i] == exe@[i]);
    }
    lemma_quoted_args(units);
    if args@.len() > 0 {
        assert(line[n + 2] == rest[0]);
        assert(line[n + 3] == rest[1]);
        assert(line[line.len() - 2] == rest[rest.len() - 1]);
    }
}

proof fn lemma_quoted_tail(arg: Seq<u16>, run: nat)
    ensures
        quoted_tail(arg, run).len() > 0,
        quoted_tail(arg, run).last() == 34,
    decreases arg.len(),
{
    let tail = quoted_tail(arg, run);
    if arg.len() > 0 {
        let next: nat = if arg[0] == 92 {
            run + 1
        } else {
            0
        };
        let rest = quoted_tail(arg.skip(1), next);
        lemma_quoted_tail(arg.skip(1), next);
        assert(tail.last() == rest.last());
    }
}

proof fn lemma_quoted_args(args: Seq<Seq<u16>>)
    ensures
        args.len() == 0 ==> quoted_args(args).len() == 0,
        args.len() > 0 ==> quoted_args(args).len() >= 3 && quoted_args(args)[0] == 32
            && quoted_args(args)[1] == 34 && quoted_args(args).last() == 34,
    decreases args.len(),
{
    if args.len() > 0 {
        let whole = quoted_args(args);
        let rest = quoted_args(args.skip(1));
        lemma_quoted_tail(args[0], 0);
        lemma_quoted_args(args.skip(1));
        assert(whole == seq![SPACE] + quoted(args[0]) + rest);
        assert(quoted(args[0])[0] == 34);
        assert(whole[1] == quoted(args[0])[0]);
        if args.len() > 1 {
            assert(whole.last() == rest.last());
        } else {
            assert(whole.last() == quoted(args[0]).last());
        }
    }
}

/// The events of a process have the prefix of their kind.
pub proof fn events_have_their_prefix(kind: &EventKind, prefix: &'static str)
    requires
        call_ensures(EventKind::prefix, (kind,), prefix),
    ensures
        prefix@ == match *kind {
            EventKind::Test => "Local\\stork_test_"@,
            EventKind::Ready => "Local\\stork_ready_"@,
            EventKind::Entry => "Local\\stork_entry_"@,
            EventKind::Pass => "Local\\stork_pass_"@,
            EventKind::ReadyAtEntry => "Local\\stork_ready_at_entry_"@,
            EventKind::Main => "Local\\stork_main_"@,
        },
{
}

/// The name of an event is its prefix, the number of the process and a NUL.
pub proof fn event_names_end_in_the_process(pid: u32, prefix: Seq<char>)
    ensures
        ({
            let name = event_name_of(pid, prefix);
            let start = utf16_units(prefix);
            let digits = utf16_units(decimal(pid as nat));
            &&& name.len() == start.len() + digits.len() + 1
            &&& forall|i: int| 0 <= i < start.len() ==> name[i] == #[trigger] start[i]
            &&& forall|i: int|
                0 <= i < digits.len() ==> name[start.len() + i] == #[trigger] digits[i]
            &&& name[name.len() - 1] == 0
        }),
{
}

/// The number that digit units make.
pub open spec fn value_of_units(units: Seq<u16>) -> int
    decreases units.len(),
{
    if units.len() == 0 {
        0
    } else {
        10 * value_of_units(units.drop_last()) + (units.last() - 48)
    }
}

/// A number is written in base ten by units that make it, without a zero in
/// front.
pub proof fn digit_units_are_read_back(n: nat)
    ensures
        digit_units(n).len() >= 1,
        forall|i: int| 0 <= i < digit_units(n).len() ==> 48 <= #[trigger] digit_units(n)[i] <= 57,
        value_of_units(digit_units(n)) == n,
        n > 0 ==> digit_units(n)[0] != 48,
        n == 0 ==> digit_units(n).len() == 1,
    decreases n,
{
    reveal_with_fuel(value_of_units, 2);
    let whole = digit_units(n);
    if n >= 10 {
        digit_units_are_read_back(n / 10);
        let start = digit_units(n / 10);
        assert(whole.drop_last() =~= start);
        assert(whole[0] == start[0]);
        assert forall|i: int| 0 <= i < whole.len() implies 48 <= #[trigger] whole[i] <= 57 by {
            if i < start.len() {
                assert(whole[i] == start[i]);
            }
        }
    } else {
        assert(whole.drop_last() =~= Seq::<u16>::empty());
    }
}

/// A fixture composes the name of an event from its prefix and the number of
/// the process, and ends it with a NUL.
pub proof fn fixtures_compose_the_same_names(prefix: &[u8], pid: u32, name: ([u16; 96], usize))
    requires
        call_ensures(stack_event_name, (prefix, pid), name),
    ensures
        ({
            let n = prefix@.len();
            let digits = digit_units(pid as nat);
            &&& name.1 == n + digits.len()
            &&& name.1 < 96
            &&& forall|i: int| 0 <= i < n ==> name.0@[i] == #[trigger] prefix@[i] as int
            &&& forall|i: int| 0 <= i < digits.len() ==> name.0@[n + i] == #[trigger] digits[i]
            &&& name.0@[name.1 as int] == 0
        }),
{
    let n = prefix@.len();
    let digits = digit_units(pid as nat);
    let whole = byte_units(prefix@) + digits;
    let taken = name.0@.take(name.1 as int);
    assert(taken.len() == name.1);
    assert forall|i: int| 0 <= i < n implies name.0@[i] == #[trigger] prefix@[i] as int by {
        assert(taken[i] == name.0@[i]);
        assert(whole[i] == byte_units(prefix@)[i]);
    }
    assert forall|i: int| 0 <= i < digits.len() implies name.0@[n + i] == #[trigger] digits[i] by {
        assert(taken[n + i] == name.0@[n + i]);
        assert(whole[n + i] == digits[i]);
    }
}

/// The payload fixture works only when it is attached to a process.
pub proof fn only_attachments_start_the_fixture(reason: u32, step: AttachStep)
    requires
        call_ensures(attach_start, (reason,), step),
    ensures
        step == AttachStep::SignalTest <==> reason == 1,
        reason != 1 ==> step == AttachStep::Finished,
{
}

/// The payload fixture signals its attachment first and its end last. It is
/// ready at once unless that is to be delayed, and waits only where it is
/// blocked.
pub proof fn attachments_go_in_order(step: &AttachStep, opened: bool, next: AttachStep)
    requires
        call_ensures(AttachStep::next, (step, opened), next),
    ensures
        *step is SignalTest ==> next is OpenDelay,
        *step is OpenDelay && opened ==> next is StartWorker,
        *step is OpenDelay && !opened ==> next is SignalReady,
        *step is StartWorker || *step is SignalReady ==> next is OpenBlock,
        *step is OpenBlock && opened ==> next is SignalWaiting,
        *step is OpenBlock && !opened ==> next is SignalDone,
        *step is SignalWaiting ==> next is Block,
        *step is Block ==> next is SignalUnblocked,
        *step is SignalUnblocked ==> next is SignalDone,
        *step is SignalDone || *step is Finished ==> next is Finished,
{
}

/// A file lies in its directory behind one separator, which is added unless the
/// directory ends in one, is empty, or is a bare drive.
pub proof fn files_lie_in_their_directory(dir: Seq<u16>, name: Seq<u16>)
    ensures
        dir.len() == 0 ==> joined(dir, name) == name,
        dir.len() > 0 && (dir[dir.len() - 1] == 92 || dir[dir.len() - 1] == 47) ==> joined(
            dir,
            name,
        ) == dir + name,
        dir.len() == 2 && dir[1] == 58 && (65 <= dir[0] <= 90 || 97 <= dir[0] <= 122) ==> joined(
            dir,
            name,
        ) == dir + name,
        dir.len() > 0 && dir[dir.len() - 1] != 92 && dir[dir.len() - 1] != 47 && !(dir.len() == 2
            && dir[1] == 58 && (65 <= dir[0] <= 90 || 97 <= dir[0] <= 122)) ==> joined(dir, name)
            == dir.push(92) + name,
{
    if dir.len() == 0 {
        assert(dir + name =~= name);
    }
}

proof fn lemma_name_start(path: Seq<u16>)
    ensures
        0 <= name_start(path) <= path.len(),
        forall|i: int|
            name_start(path) <= i < path.len() ==> #[trigger] path[i] != 92 && path[i] != 47,
        name_start(path) > 0 ==> path[name_start(path) - 1] == 92 || path[name_start(path) - 1]
            == 47,
    decreases path.len(),
{
    if path.len() > 0 && path.last() != 92 && path.last() != 47 {
        let rest = path.drop_last();
        lemma_name_start(rest);
        assert forall|i: int| name_start(path) <= i < path.len() implies #[trigger] path[i] != 92
            && path[i] != 47 by {
            if i < rest.len() {
                assert(path[i] == rest[i]);
            }
        }
        if name_start(path) > 0 {
            assert(rest[name_start(path) - 1] == path[name_start(path) - 1]);
        }
    }
}

/// Another file of the same directory keeps everything through the last
/// separator, `n` units, and nothing behind it.
pub proof fn siblings_share_their_directory(path: &[u16], name: &str, n: int, other: Vec<u16>)
    requires
        call_ensures(with_file_name, (path, name), other),
        0 <= n <= path@.len(),
        forall|i: int| n <= i < path@.len() ==> #[trigger] path@[i] != 92 && path@[i] != 47,
        n > 0 ==> path@[n - 1] == 92 || path@[n - 1] == 47,
    ensures
        other@ == path@.take(n) + utf16_units(name@),
{
    lemma_name_start(path@);
    let m = name_start(path@);
    if m < n {
        assert(path@[n - 1] != 92 && path@[n - 1] != 47);
    } else if n < m {
        assert(path@[m - 1] != 92 && path@[m - 1] != 47);
    }
}

/// The fixtures have their names in the artifact directory, and the workspace
/// is kept.
pub proof fn fixtures_have_their_names(
    target_dir: &[u16],
    workspace: Vec<u16>,
    debug: bool,
    found: Fixtures,
    name: &'static str,
)
    requires
        call_ensures(fixtures, (target_dir, workspace), found),
        call_ensures(profile, (debug,), name),
    ensures
        found.payload@ == joined(target_dir@, utf16_units("test_payload.dll"@)),
        found.rust_target@ == joined(target_dir@, utf16_units("test_target.exe"@)),
        found.entry@ == joined(target_dir@, utf16_units("test_target_entry.exe"@)),
        found.noimport@ == joined(target_dir@, utf16_units("test_target_noimport.exe"@)),
        found.workspace == workspace,
        debug ==> name@ == "debug"@,
        !debug ==> name@ == "release"@,
{
}

/// A fixture is there only where it can be built, and compiled for its own
/// platform.
pub proof fn optional_fixtures_are_not_made_up(
    rust_target: &[u16],
    dir: &str,
    present: bool,
    mixed: Option<Vec<u16>>,
    any: Option<ManagedBuild>,
    wide: Option<ManagedBuild>,
)
    requires
        call_ensures(mixed_target, (rust_target, present), mixed),
        call_ensures(csharp_target, (present, dir), any),
        call_ensures(csharp_target_x64, (present, dir), wide),
    ensures
        mixed is Some <==> present,
        any is Some <==> present,
        wide is Some <==> present,
        any matches Some(build) ==> {
            &&& build.source@ == "stork_csharp_"@ + "anycpu"@ + ".cs"@
            &&& build.exe@ == "stork_csharp_"@ + "anycpu"@ + ".exe"@
            &&& build.platform@ == "/platform:"@ + "anycpu"@
            &&& build.code@ == csharp_code_of(dir@)
        },
        wide matches Some(build) ==> {
            &&& build.source@ == "stork_csharp_"@ + "x64"@ + ".cs"@
            &&& build.exe@ == "stork_csharp_"@ + "x64"@ + ".exe"@
            &&& build.platform@ == "/platform:"@ + "x64"@
            &&& build.code@ == csharp_code_of(dir@)
        },
{
}

/// The fixtures are built with the profile of their directory, which Cargo
/// calls `dev` for `debug`, and for the triple that the directory above names
/// if it names one.
pub proof fn fixtures_are_built_where_they_are_looked_for(dir: TargetDir)
    ensures
        ({
            let a = build_arguments_of(dir);
            let triple = dir.parent_name is Some && utf16_units("x86_64-"@).is_prefix_of(
                dir.parent_name->0@,
            );
            &&& a[0] == utf16_units("build"@)
            &&& a[1] == utf16_units("--locked"@)
            &&& a[2] == utf16_units("-p"@)
            &&& a[3] == utf16_units("test-payload"@)
            &&& a[4] == utf16_units("-p"@)
            &&& a[5] == utf16_units("test-target"@)
            &&& a[6] == utf16_units("--profile"@)
            &&& dir.profile@ == utf16_units("debug"@) ==> a[7] == utf16_units("dev"@)
            &&& dir.profile@ != utf16_units("debug"@) ==> a[7] == dir.profile@
            &&& triple ==> a.len() == 12 && a[8] == utf16_units("--target"@) && a[9]
                == dir.parent_name->0@ && a[10] == utf16_units("--target-dir"@) && a[11]
                == dir.root->0@
            &&& !triple ==> a.len() == 10 && a[8] == utf16_units("--target-dir"@) && a[9]
                == dir.parent@
        }),
{
}

/// A wait for a file ends with the file, even when the time is up, and with
/// the time.
pub proof fn waits_for_files_end(is_file: bool, elapsed: u64, timeout: u64, wait: FileWait)
    requires
        call_ensures(wait_for_file, (is_file, elapsed, timeout), wait),
    ensures
        wait is Found <==> is_file,
        wait is TimedOut <==> !is_file && elapsed >= timeout,
        wait is Sleep <==> !is_file && elapsed < timeout,
{
}

/// Replacing a character changes each of its occurrences and nothing else.
pub proof fn replacing_changes_each_occurrence(text: Seq<char>, c: char, from: char, to: Seq<char>)
    ensures
        replaced(Seq::<char>::empty(), from, to) == Seq::<char>::empty(),
        replaced(text.push(from), from, to) == replaced(text, from, to) + to,
        c != from ==> replaced(text.push(c), from, to) == replaced(text, from, to).push(c),
{
    assert(text.push(from).drop_last() =~= text);
    assert(text.push(c).drop_last() =~= text);
    if c != from {
        assert(replaced(text.push(c), from, to) =~= replaced(text, from, to).push(c));
    }
}

/// A directory in a script has slashes for its backslashes and its quotes
/// behind a backslash. Everything else is as it was.
pub proof fn script_literals_keep_the_directory(dir: Seq<char>, c: char)
    ensures
        script_literal(Seq::<char>::empty()) == Seq::<char>::empty(),
        script_literal(dir.push('\\')) == script_literal(dir).push('/'),
        script_literal(dir.push('\'')) == script_literal(dir).push('\\').push('\''),
        c != '\\' && c != '\'' ==> script_literal(dir.push(c)) == script_literal(dir).push(c),
{
    reveal_strlit("/");
    reveal_strlit("\\'");
    let forward = replaced(dir, '\\', "/"@);
    replacing_changes_each_occurrence(dir, '\'', '\\', "/"@);
    replacing_changes_each_occurrence(dir, c, '\\', "/"@);
    assert(forward + "/"@ =~= forward.push('/'));
    replacing_changes_each_occurrence(forward, '/', '\'', "\\'"@);
    replacing_changes_each_occurrence(forward, c, '\'', "\\'"@);
    assert(script_literal(dir.push('\'')) =~= script_literal(dir).push('\\').push('\''));
}

/// The programs of real targets touch the checkpoint of their process in the
/// directory, and sleep.
pub proof fn scripts_touch_their_checkpoint(
    dir: &str,
    number: &str,
    pid: u32,
    python: String,
    node: String,
    config: String,
)
    requires
        call_ensures(python_code, (dir,), python),
        call_ensures(node_code, (dir,), node),
        call_ensures(runtime_config, (number,), config),
    ensures
        python@ == "import os,time; d='"@ + script_literal(dir@)
            + "'; open(os.path.join(d,'ckpt_%d.txt'%os.getpid()),'w').close(); time.sleep(60)"@,
        node@ == "require('fs').writeFileSync(require('path').join('"@ + script_literal(dir@)
            + "','ckpt_'+process.pid+'.txt'),'');setTimeout(function(){},60000)"@,
        csharp_code_of(dir@) == "using System;using System.IO;using System.Threading;\n"@
            + "class StorkCSharpTarget { static void Main() {\n"@ + "var d=@\""@ + replaced(
            dir@,
            '"',
            "\"\""@,
        ) + "\";\n"@ + "File.WriteAllText(Path.Combine(d,\"ckpt_\"+"@
            + "System.Diagnostics.Process.GetCurrentProcess().Id+\".txt\"),\"\");\n"@
            + "Thread.Sleep(60000); }}\n"@,
        config@
            == "{\"runtimeOptions\":{\"framework\":{\"name\":\"Microsoft.NETCore.App\",\"version\":\""@
            + number@ + "\"}}}"@,
        checkpoint_name_of(pid) == "ckpt_"@ + decimal(pid as nat) + ".txt"@,
{
}

} // verus!
