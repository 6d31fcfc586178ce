//! How helper tools and child processes are run, ended and read.

use crate::harness::child::{
    is_first_at, lies_at, module_base, module_loaded, none_lies_at, probe_path, snapshot_step,
    trim_end, trim_start, trimmed, LoadedModule, SnapshotStep, TeardownEvent, TeardownFailure,
    TeardownPhase, TeardownView, REAP_TIMEOUT,
};
use crate::harness::runtimes::{
    at_least, digits_value, is_white, latest_runtime, newest, number, pieces, runtime_of, version,
    words,
};
use crate::harness::supervisor::{
    capture_name_of, capture_quota, check_capture, first_failure, resume_step, tries_on,
    CaptureSearch, JobEvent, JobStop, Supervisor, ThreadStep, ToolError, ToolEvent, ToolResult,
    WaitFailure,
};
use crate::text::decimal;
use vstd::prelude::*;

verus! {

/// A tool that was put into its job and resumed is polled until it ends or its
/// time is up. Everything that goes wrong has the job stopped.
pub proof fn tools_run_in_their_job(
    supervisor: Supervisor,
    error: std::io::Error,
    status: i32,
    elapsed: u64,
)
    ensures
        supervisor.phase is Assign ==> {
            let assigned = supervisor.after(ToolEvent::Assigned(Ok(())));
            let refused = supervisor.after(ToolEvent::Assigned(Err(error)));
            &&& assigned.phase is Resume
            &&& assigned.error == supervisor.error
            &&& refused.phase is Stop
            &&& refused.error == Some(ToolError::Os(error))
        },
        supervisor.phase is Resume ==> {
            let resumed = supervisor.after(ToolEvent::Resumed(Ok(())));
            let refused = supervisor.after(ToolEvent::Resumed(Err(error)));
            &&& resumed.phase is Poll
            &&& resumed.error == supervisor.error
            &&& refused.phase is Stop
            &&& refused.error == Some(ToolError::Os(error))
        },
        supervisor.phase is Poll ==> {
            let ended = supervisor.after(ToolEvent::Waited { status: Ok(Some(status)), elapsed });
            let running = supervisor.after(ToolEvent::Waited { status: Ok(None), elapsed });
            let lost = supervisor.after(ToolEvent::Waited { status: Err(error), elapsed });
            &&& ended.phase is Stop
            &&& ended.status == status
            &&& ended.error is None
            &&& lost.phase is Stop
            &&& lost.error == Some(ToolError::Os(error))
            &&& elapsed >= supervisor.timeout ==> running.phase is Stop && running.error == Some(
                ToolError::Exceeded,
            )
            &&& elapsed < supervisor.timeout ==> running.phase is Sleep && running.error
                == supervisor.error
            &&& running.timeout == supervisor.timeout
        },
        supervisor.phase is Sleep ==> {
            let again = supervisor.after(ToolEvent::Slept);
            again.phase is Poll && again.error == supervisor.error && again.timeout
                == supervisor.timeout
        },
{
}

/// A tool that ended by itself is done with its job. After any failure the
/// child is killed, and of two failures the first one leads.
pub proof fn stopped_jobs_end_the_tool(
    supervisor: Supervisor,
    cleanup: ToolError,
    result: ToolResult,
)
    requires
        supervisor.phase is Stop,
        call_ensures(
            Supervisor::finish,
            (supervisor.after(ToolEvent::Stopped(Ok(()))),),
            result,
        ),
    ensures
        ({
            let stopped = supervisor.after(ToolEvent::Stopped(Ok(())));
            let unstopped = supervisor.after(ToolEvent::Stopped(Err(cleanup)));
            &&& supervisor.error is None ==> stopped.phase is Finished && result == Ok::<
                i32,
                ToolError,
            >(supervisor.status)
            &&& supervisor.error is Some ==> stopped.phase is Kill && stopped.error
                == supervisor.error
            &&& unstopped.phase is Kill
            &&& supervisor.error is None ==> unstopped.error == Some(cleanup)
            &&& supervisor.error matches Some(first) ==> unstopped.error == Some(
                ToolError::JobCleanup { error: Box::new(first), cleanup: Box::new(cleanup) },
            )
        }),
{
}

/// A killed child is asked for five seconds whether it has ended. One that has
/// not, or cannot be asked, is reported behind the failure that it was killed
/// for.
pub proof fn killed_children_are_reaped(
    supervisor: Supervisor,
    first: ToolError,
    error: std::io::Error,
    status: i32,
    elapsed: u64,
)
    requires
        supervisor.error == Some(first),
    ensures
        supervisor.phase is Kill ==> {
            let killed = supervisor.after(ToolEvent::Killed(Ok(())));
            let alive = supervisor.after(ToolEvent::Killed(Err(error)));
            &&& killed.phase is Reap && killed.kill_error is None && killed.error == Some(first)
            &&& alive.phase is Reap && alive.kill_error == Some(error) && alive.error == Some(
                first,
            )
        },
        supervisor.phase is Reap ==> {
            let ended = supervisor.after(ToolEvent::Waited { status: Ok(Some(status)), elapsed });
            let running = supervisor.after(ToolEvent::Waited { status: Ok(None), elapsed });
            let lost = supervisor.after(ToolEvent::Waited { status: Err(error), elapsed });
            &&& ended.phase is Finished && ended.error == Some(first)
            &&& elapsed < 5_000_000_000 ==> running.phase is ReapSleep && running.error == Some(
                first,
            )
            &&& elapsed >= 5_000_000_000 ==> running.phase is Finished && running.error == Some(
                ToolError::Unreaped {
                    error: Box::new(first),
                    killed: supervisor.kill_error,
                    wait: WaitFailure::StillRuns,
                },
            )
            &&& lost.phase is Finished && lost.error == Some(
                ToolError::Unreaped {
                    error: Box::new(first),
                    killed: supervisor.kill_error,
                    wait: WaitFailure::Failed(error),
                },
            )
        },
        supervisor.phase is ReapSleep ==> {
            let again = supervisor.after(ToolEvent::Slept);
            again.phase is Reap && again.error == Some(first)
        },
{
}

/// A terminated job is asked for five seconds until no process is left.
pub proof fn jobs_end_without_processes(
    stop: JobStop,
    error: std::io::Error,
    active: u32,
    elapsed: u64,
)
    ensures
        stop.phase is Terminate ==> {
            let terminated = stop.after(JobEvent::Terminated(Ok(())));
            let refused = stop.after(JobEvent::Terminated(Err(error)));
            &&& terminated.phase is Query && terminated.error == stop.error
            &&& refused.phase is Finished && refused.error == Some(ToolError::Os(error))
        },
        stop.phase is Query ==> {
            let counted = stop.after(JobEvent::Queried { active: Ok(active), elapsed });
            let lost = stop.after(JobEvent::Queried { active: Err(error), elapsed });
            &&& active == 0 ==> counted.phase is Finished && counted.error is None
            &&& active > 0 && elapsed >= 5_000_000_000 ==> counted.phase is Finished
                && counted.error == Some(ToolError::JobStillRuns)
            &&& active > 0 && elapsed < 5_000_000_000 ==> counted.phase is Sleep && counted.error
                == stop.error
            &&& lost.phase is Finished && lost.error == Some(ToolError::Os(error))
        },
        stop.phase is Sleep ==> stop.after(JobEvent::Slept).phase is Query && stop.after(
            JobEvent::Slept,
        ).error == stop.error,
{
}

/// An error is an overrun when what came first is one, however often it was
/// wrapped.
pub proof fn overruns_stay_overruns(
    error: ToolError,
    cleanup: ToolError,
    killed: Option<std::io::Error>,
    wait: WaitFailure,
    yes: bool,
)
    requires
        call_ensures(ToolError::timed_out, (&error,), yes),
    ensures
        yes <==> first_failure(error) is Exceeded || first_failure(error) is JobStillRuns,
        first_failure(
            ToolError::JobCleanup { error: Box::new(error), cleanup: Box::new(cleanup) },
        ) == first_failure(error),
        first_failure(ToolError::Unreaped { error: Box::new(error), killed, wait })
            == first_failure(error),
        !(error is JobCleanup) && !(error is Unreaped) ==> first_failure(error) == error,
{
    reveal_with_fuel(first_failure, 2);
}

/// A capture may have a mebibyte, and one byte more is read to see an excess.
/// Up to 1024 names are tried, and only for a name that is taken.
pub proof fn captures_are_limited(
    read: std::result::Result<Vec<u8>, std::io::Error>,
    quota: u64,
    result: std::result::Result<Vec<u8>, ToolError>,
    search: CaptureSearch,
    claimed: bool,
)
    requires
        call_ensures(capture_quota, (), quota),
        call_ensures(check_capture, (read,), result),
    ensures
        quota == 1048577,
        read matches Err(error) ==> result == Err::<Vec<u8>, ToolError>(ToolError::Os(error)),
        read matches Ok(bytes) ==> (if bytes@.len() <= 1048576 {
            result == Ok::<Vec<u8>, ToolError>(bytes)
        } else {
            result == Err::<Vec<u8>, ToolError>(ToolError::OutputTooLarge)
        }),
        tries_on(search, claimed) <==> claimed && search.attempts < 1023,
{
}

/// A capture is named after the process, the number and the stream.
pub proof fn captures_have_their_name(pid: u32, id: u64, label: Seq<char>)
    ensures
        capture_name_of(pid, id, label) == "stork_tool_"@ + decimal(pid as nat) + "_"@ + decimal(
            id as nat,
        ) + "_"@ + label + ".log"@,
{
}

/// The threads of the tool are resumed, and no others.
pub proof fn only_the_tool_is_resumed(pid: u32, owner: u32, thread: u32, step: ThreadStep)
    requires
        call_ensures(resume_step, (pid, owner, thread), step),
    ensures
        step == ThreadStep::Resume(thread) <==> owner == pid,
        owner != pid ==> step == ThreadStep::Next,
{
}

/// `next` has the phase, and the failures so far with one more if there is one.
pub open spec fn tears_on(
    teardown: TeardownView,
    next: TeardownView,
    failure: Option<TeardownFailure>,
) -> bool {
    match failure {
        None => next.failures == teardown.failures,
        Some(failure) => {
            &&& next.failures.len() == teardown.failures.len() + 1
            &&& next.failures[teardown.failures.len() as int] == failure
            &&& forall|i: int|
                0 <= i < teardown.failures.len() ==> next.failures[i] == teardown.failures[i]
        },
    }
}

/// A child that has ended has its handles closed. One that runs is terminated
/// and waited for first. What fails is noted, and the teardown goes on.
pub proof fn children_are_torn_down(
    teardown: TeardownView,
    result: u32,
    last: Option<std::io::Error>,
    error: std::io::Error,
)
    ensures
        REAP_TIMEOUT == 5000,
        teardown.phase is Probe ==> {
            let next = teardown.after(TeardownEvent::Waited(result, last));
            &&& tears_on(teardown, next, None)
            &&& result == 0 ==> next.phase is CloseProcess
            &&& result != 0 ==> next.phase is Terminate
        },
        teardown.phase is Terminate ==> {
            let done = teardown.after(TeardownEvent::Terminated(Ok(())));
            let refused = teardown.after(TeardownEvent::Terminated(Err(error)));
            &&& done.phase is Reap && tears_on(teardown, done, None)
            &&& refused.phase == TeardownPhase::Confirm(error) && tears_on(teardown, refused, None)
        },
        teardown.phase == TeardownPhase::Confirm(error) ==> {
            let next = teardown.after(TeardownEvent::Waited(result, last));
            &&& next.phase is Reap
            &&& result == 0 ==> tears_on(teardown, next, None)
            &&& result != 0 ==> tears_on(teardown, next, Some(TeardownFailure::Terminate(error)))
        },
        teardown.phase is Reap ==> {
            let next = teardown.after(TeardownEvent::Waited(result, last));
            &&& next.phase is CloseProcess
            &&& result == 0 ==> tears_on(teardown, next, None)
            &&& result == 0xffff_ffff && last == Some(error) ==> tears_on(
                teardown,
                next,
                Some(TeardownFailure::Reap(error)),
            )
            &&& result != 0 && (result != 0xffff_ffff || last is None) ==> tears_on(
                teardown,
                next,
                Some(TeardownFailure::UnexpectedWait(result)),
            )
        },
        teardown.phase is CloseProcess || teardown.phase is CloseThread ==> {
            let closed = teardown.after(TeardownEvent::Closed(Ok(())));
            let refused = teardown.after(TeardownEvent::Closed(Err(error)));
            &&& tears_on(teardown, closed, None)
            &&& tears_on(teardown, refused, Some(TeardownFailure::Close(error)))
            &&& teardown.phase is CloseProcess ==> closed.phase is CloseThread
                && refused.phase is CloseThread
            &&& teardown.phase is CloseThread ==> closed.phase is Finished
                && refused.phase is Finished
        },
{
}

/// A snapshot is complete when its 8-byte handles fit in the buffer. Otherwise
/// the next buffer has room for 16 handles more than are needed.
pub proof fn snapshots_are_whole(capacity: usize, needed: u32, step: SnapshotStep)
    requires
        call_ensures(snapshot_step, (capacity, needed), step),
    ensures
        step is Complete <==> needed <= 8 * capacity,
        step matches SnapshotStep::Complete(count) ==> count == needed / 8,
        step matches SnapshotStep::Retry(room) ==> room == needed / 8 + 16,
{
}

/// A module is loaded exactly when one lies at the path, and its base is that
/// of the first that does.
pub proof fn loaded_modules_are_found(
    modules: &[LoadedModule],
    expected: &[u16],
    base: Option<usize>,
    loaded: bool,
)
    requires
        call_ensures(module_base, (modules, expected), base),
        call_ensures(module_loaded, (modules, expected), loaded),
    ensures
        loaded <==> base is Some,
        base matches Some(base) ==> exists|i: int|
            {
                &&& 0 <= i < modules@.len()
                &&& (#[trigger] modules@[i]).canonical is Some
                &&& modules@[i].canonical->0@ == expected@
                &&& modules@[i].base == base
                &&& forall|k: int|
                    0 <= k < i ==> ((#[trigger] modules@[k]).canonical is None
                        || modules@[k].canonical->0@ != expected@)
            },
        base is None ==> forall|k: int|
            0 <= k < modules@.len() ==> ((#[trigger] modules@[k]).canonical is None
                || modules@[k].canonical->0@ != expected@),
{
    match base {
        Some(base) => {
            let i = choose|i: int|
                #[trigger] is_first_at(modules@, expected@, i) && modules@[i].base == base;
            assert(lies_at(modules@[i], expected@));
            assert forall|k: int| 0 <= k < i implies ((#[trigger] modules@[k]).canonical is None
                || modules@[k].canonical->0@ != expected@) by {
                assert(!lies_at(modules@[k], expected@));
            }
        },
        None => {
            assert(none_lies_at(modules@, expected@));
            assert forall|k: int| 0 <= k < modules@.len() implies ((
            #[trigger] modules@[k]).canonical is None || modules@[k].canonical->0@
                != expected@) by {
                assert(!lies_at(modules@[k], expected@));
            }
        },
    }
}

/// A character that separates words: the white space of Unicode.
pub open spec fn separates(c: char) -> bool {
    let n = c as int;
    (9 <= n <= 13) || n == 32 || n == 133 || n == 160 || n == 5760 || (8192 <= n <= 8202) || n
        == 8232 || n == 8233 || n == 8239 || n == 8287 || n == 12288
}

/// White space is what Unicode says.
pub proof fn white_space_is_that_of_unicode(c: char)
    ensures
        is_white(c) <==> separates(c),
{
}

proof fn lemma_trim_start(text: Seq<char>)
    ensures
        0 <= trim_start(text) <= text.len(),
        forall|i: int| 0 <= i < trim_start(text) ==> separates(#[trigger] text[i]),
        trim_start(text) < text.len() ==> !separates(text[trim_start(text)]),
    decreases text.len(),
{
    if text.len() > 0 {
        white_space_is_that_of_unicode(text[0]);
    }
    if text.len() > 0 && is_white(text[0]) {
        let rest = text.skip(1);
        lemma_trim_start(rest);
        assert forall|i: int| 0 <= i < trim_start(text) implies separates(#[trigger] text[i]) by {
            if i > 0 {
                assert(text[i] == rest[i - 1]);
            }
        }
        if trim_start(text) < text.len() {
            assert(text[trim_start(text)] == rest[trim_start(rest)]);
        }
    }
}

proof fn lemma_trim_end(text: Seq<char>)
    ensures
        0 <= trim_end(text) <= text.len(),
        forall|i: int| trim_end(text) <= i < text.len() ==> separates(#[trigger] text[i]),
        trim_end(text) > 0 ==> !separates(text[trim_end(text) - 1]),
    decreases text.len(),
{
    if text.len() > 0 {
        white_space_is_that_of_unicode(text.last());
    }
    if text.len() > 0 && is_white(text.last()) {
        let rest = text.drop_last();
        lemma_trim_end(rest);
        assert forall|i: int| trim_end(text) <= i < text.len() implies separates(
            #[trigger] text[i],
        ) by {
            if i < rest.len() {
                assert(text[i] == rest[i]);
            }
        }
        if trim_end(text) > 0 {
            assert(text[trim_end(text) - 1] == rest[trim_end(rest) - 1]);
        }
    }
}

/// `start` to `end` holds everything of a text but the white space around it.
pub open spec fn is_core(text: Seq<char>, start: int, end: int) -> bool {
    &&& 0 <= start < end <= text.len()
    &&& !separates(text[start])
    &&& !separates(text[end - 1])
    &&& forall|i: int| 0 <= i < start ==> separates(#[trigger] text[i])
    &&& forall|i: int| end <= i < text.len() ==> separates(#[trigger] text[i])
}

/// A path that a tool has printed loses the white space around it and nothing
/// else.
pub proof fn printed_paths_are_trimmed(text: Seq<char>, start: int, end: int)
    ensures
        is_core(text, start, end) ==> trimmed(text) == text.subrange(start, end),
        (forall|i: int| 0 <= i < text.len() ==> separates(#[trigger] text[i])) ==> trimmed(text)
            == Seq::<char>::empty(),
{
    lemma_trim_start(text);
    lemma_trim_end(text);
    let s = trim_start(text);
    let e = trim_end(text);
    if is_core(text, start, end) {
        if s < start {
            assert(separates(text[s]));
        }
        if s > start {
            assert(separates(text[start]));
        }
        if e > end {
            assert(separates(text[e - 1]));
        }
        if e < end {
            assert(separates(text[end - 1]));
        }
    } else if forall|i: int| 0 <= i < text.len() ==> separates(#[trigger] text[i]) {
        if s < text.len() {
            assert(separates(text[s]));
        }
    }
}

/// A text is split at a character and nowhere else.
pub proof fn texts_are_split_at_a_character(text: Seq<char>, c: char, at: char)
    ensures
        pieces(Seq::<char>::empty(), at) == seq![Seq::<char>::empty()],
        pieces(text.push(at), at) == pieces(text, at).push(Seq::<char>::empty()),
        c != at ==> {
            let before = pieces(text, at);
            let after = pieces(text.push(c), at);
            &&& after.len() == before.len()
            &&& before.len() > 0
            &&& after[after.len() - 1] == before[before.len() - 1].push(c)
            &&& forall|i: int| 0 <= i < before.len() - 1 ==> after[i] == before[i]
        },
{
    lemma_pieces(text, at);
    assert(text.push(at).drop_last() =~= text);
    assert(text.push(c).drop_last() =~= text);
}

proof fn lemma_pieces(text: Seq<char>, at: char)
    ensures
        pieces(text, at).len() > 0,
    decreases text.len(),
{
    if text.len() > 0 {
        lemma_pieces(text.drop_last(), at);
    }
}

proof fn lemma_words_of_one(text: Seq<char>)
    requires
        text.len() > 0,
        forall|i: int| 0 <= i < text.len() ==> !separates(#[trigger] text[i]),
    ensures
        words(text) == seq![text],
    decreases text.len(),
{
    let start = text.drop_last();
    assert(!separates(text[text.len() - 1]));
    white_space_is_that_of_unicode(text.last());
    if text.len() == 1 {
        assert(words(start) =~= Seq::<Seq<char>>::empty());
        assert(seq![text.last()] =~= text);
        assert(words(text) =~= seq![text]);
    } else {
        assert forall|i: int| 0 <= i < start.len() implies !separates(#[trigger] start[i]) by {
            assert(start[i] == text[i]);
        }
        lemma_words_of_one(start);
        assert(!separates(text[text.len() - 2]));
        white_space_is_that_of_unicode(text[text.len() - 2]);
        assert(start.push(text.last()) =~= text);
        assert(words(text) =~= seq![text]);
    }
}

proof fn lemma_words_nonempty(text: Seq<char>)
    requires
        text.len() > 0,
        !is_white(text.last()),
    ensures
        words(text).len() > 0,
    decreases text.len(),
{
    if text.len() > 1 && !is_white(text[text.len() - 2]) {
        assert(text.drop_last().last() == text[text.len() - 2]);
        lemma_words_nonempty(text.drop_last());
    }
}

/// A text has the words on both sides of white space, and a text without white
/// space is one word.
pub proof fn words_stand_between_white_space(one: Seq<char>, c: char, other: Seq<char>)
    requires
        separates(c),
    ensures
        words(Seq::<char>::empty()).len() == 0,
        words(one.push(c) + other) == words(one) + words(other),
        one.len() > 0 && (forall|i: int| 0 <= i < one.len() ==> !separates(#[trigger] one[i]))
            ==> words(one) == seq![one],
    decreases other.len(),
{
    if one.len() > 0 && (forall|i: int| 0 <= i < one.len() ==> !separates(#[trigger] one[i])) {
        lemma_words_of_one(one);
    }
    white_space_is_that_of_unicode(c);
    let whole = one.push(c) + other;
    if other.len() == 0 {
        assert(whole =~= one.push(c));
        assert(one.push(c).drop_last() =~= one);
        assert(words(one) + words(other) =~= words(one));
    } else {
        let rest = other.drop_last();
        words_stand_between_white_space(one, c, rest);
        assert(whole.drop_last() =~= one.push(c) + rest);
        assert(whole.last() == other.last());
        if is_white(other.last()) {
        } else if other.len() == 1 {
            assert(whole[whole.len() - 2] == c);
            assert(words(rest).len() == 0);
            assert(words(whole) =~= words(one) + words(other));
        } else {
            assert(whole[whole.len() - 2] == other[other.len() - 2]);
            if is_white(other[other.len() - 2]) {
                assert(words(whole) =~= words(one) + words(other));
            } else {
                assert(rest.last() == other[other.len() - 2]);
                lemma_words_nonempty(rest);
                assert(words(whole) =~= words(one) + words(other));
            }
        }
    }
}

/// A digit behind a number multiplies it by ten and adds itself.
pub proof fn digits_make_a_number(text: Seq<char>, c: char)
    ensures
        digits_value(Seq::<char>::empty()) == Some(0nat),
        48 <= c as int <= 57 && digits_value(text) is Some ==> digits_value(text.push(c)) == Some(
            (10 * digits_value(text)->0 + (c as int - 48)) as nat,
        ),
        !(48 <= c as int <= 57) || digits_value(text) is None ==> digits_value(text.push(c)) is None,
{
    assert(text.push(c).drop_last() =~= text);
}

/// A text stands for a number when it is digits, perhaps behind one plus sign,
/// whose value fits in 32 bits.
pub proof fn numbers_are_digits_that_fit(text: Seq<char>)
    ensures
        text.len() == 0 ==> number(text) is None,
        text.len() > 0 && text[0] != '+' ==> {
            &&& number(text) is Some <==> digits_value(text) is Some && digits_value(text)->0
                <= 0xffff_ffff
            &&& number(text) matches Some(n) ==> n == digits_value(text)->0
        },
        text.len() > 1 && text[0] == '+' ==> {
            let rest = text.skip(1);
            &&& number(text) is Some <==> digits_value(rest) is Some && digits_value(rest)->0
                <= 0xffff_ffff
            &&& number(text) matches Some(n) ==> n == digits_value(rest)->0
        },
        text == seq!['+'] ==> number(text) is None,
{
    if text == seq!['+'] {
        assert(text.last() == '+');
        assert(digits_value(text) is None);
    }
}

/// A version is three numbers between two dots.
pub proof fn versions_are_three_numbers(text: Seq<char>)
    ensures
        ({
            let p = pieces(text, '.');
            &&& version(text) is Some <==> p.len() == 3 && number(p[0]) is Some && number(
                p[1],
            ) is Some && number(p[2]) is Some
            &&& version(text) matches Some(v) ==> v.0 == number(p[0])->0 && v.1 == number(p[1])->0
                && v.2 == number(p[2])->0
        }),
{
}

/// Versions are ordered by their major, then their minor, then their patch
/// number.
pub proof fn versions_are_ordered_by_their_numbers(
    one: (u32, u32, u32),
    other: (u32, u32, u32),
)
    ensures
        at_least(one, other) <==> one.0 * 0x1_0000_0000_0000_0000 + one.1 * 0x1_0000_0000 + one.2
            >= other.0 * 0x1_0000_0000_0000_0000 + other.1 * 0x1_0000_0000 + other.2,
{
}

/// A line names a runtime when its first word is the core runtime and its
/// second one is a version.
pub proof fn lines_name_core_runtimes(line: Seq<char>)
    ensures
        runtime_of(line) is Some <==> words(line).len() >= 2 && words(line)[0]
            == "Microsoft.NETCore.App"@ && version(words(line)[1]) is Some,
        runtime_of(line) matches Some(found) ==> found.name == words(line)[1] && version(
            words(line)[1],
        ) == Some(found.version),
{
}

/// Line `k` names the newest runtime, and no later line names one as new.
pub open spec fn is_last_newest(lines: Seq<Seq<char>>, k: int) -> bool {
    &&& 0 <= k < lines.len()
    &&& runtime_of(lines[k]) is Some
    &&& forall|i: int|
        0 <= i < lines.len() && (#[trigger] runtime_of(lines[i])) is Some ==> at_least(
            runtime_of(lines[k])->0.version,
            runtime_of(lines[i])->0.version,
        )
    &&& forall|i: int|
        k < i < lines.len() && (#[trigger] runtime_of(lines[i])) is Some ==> !at_least(
            runtime_of(lines[i])->0.version,
            runtime_of(lines[k])->0.version,
        )
}

/// The newest runtime is the one that the last of the newest lines names.
pub proof fn the_last_newest_runtime_is_taken(lines: Seq<Seq<char>>)
    ensures
        newest(lines) is None ==> forall|i: int|
            0 <= i < lines.len() ==> (#[trigger] runtime_of(lines[i])) is None,
        newest(lines) is Some ==> exists|k: int| #[trigger]
            is_last_newest(lines, k) && newest(lines) == runtime_of(lines[k]),
    decreases lines.len(),
{
    if lines.len() > 0 {
        let before = lines.drop_last();
        let last = lines.len() - 1;
        the_last_newest_runtime_is_taken(before);
        assert forall|i: int| 0 <= i < before.len() implies before[i] == lines[i] by {}
        assert(lines.last() == lines[last]);
        if newest(before) is None {
            assert forall|i: int| 0 <= i < last implies (#[trigger] runtime_of(
                lines[i],
            )) is None by {
                assert(runtime_of(before[i]) is None);
            }
            if newest(lines) is Some {
                assert(is_last_newest(lines, last));
            }
        } else {
            let k = choose|k: int| #[trigger]
                is_last_newest(before, k) && newest(before) == runtime_of(before[k]);
            let best = newest(before)->0;
            assert forall|i: int|
                0 <= i < last && (#[trigger] runtime_of(lines[i])) is Some implies at_least(
                best.version,
                runtime_of(lines[i])->0.version,
            ) by {
                assert(runtime_of(before[i]) is Some);
            }
            if runtime_of(lines[last]) is Some && at_least(
                runtime_of(lines[last])->0.version,
                best.version,
            ) {
                assert(is_last_newest(lines, last));
            } else {
                assert forall|i: int|
                    k < i < lines.len() && (#[trigger] runtime_of(lines[i])) is Some implies
                    !at_least(runtime_of(lines[i])->0.version, best.version) by {
                    if i < last {
                        assert(runtime_of(before[i]) is Some);
                    }
                }
                assert(is_last_newest(lines, k));
            }
        }
    }
}

/// Of a list of runtimes, one on each line, the newest is named as the list
/// writes it. A printed path is the text without the white space around it.
pub proof fn lists_and_paths_are_read(text: &str, found: Option<String>, path: String)
    requires
        call_ensures(latest_runtime, (text,), found),
        call_ensures(probe_path, (text,), path),
    ensures
        found is Some <==> newest(pieces(text@, '\n')) is Some,
        found matches Some(name) ==> name@ == newest(pieces(text@, '\n'))->0.name,
        path@ == trimmed(text@),
{
}

} // verus!
