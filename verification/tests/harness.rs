use stork::harness::child::{
    module_base, module_loaded, probe_path, snapshot_step, LoadedModule, SnapshotStep, Teardown,
    TeardownEvent, TeardownFailure, TeardownPhase,
};
use stork::harness::command_line::wide_command_line;
use stork::harness::events::{
    attach_start, event_name, stack_event_name, AttachStep, EventKind,
};
use stork::harness::fixtures::{
    build_arguments, checkpoint_path, csharp_target, csharp_target_x64, fixtures, join,
    mixed_path, mixed_target, profile, wait_for_file, FileWait, TargetDir,
};
use stork::harness::runtimes::latest_runtime;
use stork::harness::scripts::{csharp_code, node_code, python_code, runtime_config};
use stork::harness::supervisor::{
    capture_name, capture_quota, check_capture, resume_step, CaptureSearch, JobEvent, JobPhase,
    JobStop, Supervisor, ThreadStep, ToolError, ToolEvent, ToolPhase, ToolResult, WaitFailure,
};
use stork::remote::images::identity_path;

fn units(text: &str) -> Vec<u16> {
    text.encode_utf16().collect()
}

fn terminated(text: &str) -> Vec<u16> {
    text.encode_utf16().chain(Some(0)).collect()
}

fn os_error() -> std::io::Error {
    std::io::Error::from_raw_os_error(5)
}

/// Split a command line the way a child process does.
fn split_arguments(line: &[u16]) -> Vec<String> {
    let (quote, slash, space) = (b'"' as u16, b'\\' as u16, b' ' as u16);
    let mut arguments = Vec::new();
    let mut current = Vec::new();
    let mut inside = false;
    let mut i = 0;
    // The program name: quotes only protect spaces.
    while i < line.len() && (inside || line[i] != space) {
        if line[i] == quote {
            inside = !inside;
        } else {
            current.push(line[i]);
        }
        i += 1;
    }
    arguments.push(String::from_utf16(&current).unwrap());
    while i < line.len() {
        while i < line.len() && line[i] == space {
            i += 1;
        }
        let mut argument = Vec::new();
        let mut inside = false;
        while i < line.len() && (inside || line[i] != space) {
            let run = line[i..].iter().take_while(|unit| **unit == slash).count();
            i += run;
            if i < line.len() && line[i] == quote {
                argument.extend(std::iter::repeat(slash).take(run / 2));
                if run % 2 == 1 {
                    argument.push(quote);
                } else {
                    inside = !inside;
                }
                i += 1;
            } else {
                argument.extend(std::iter::repeat(slash).take(run));
                if i < line.len() && (inside || line[i] != space) {
                    argument.push(line[i]);
                    i += 1;
                }
            }
        }
        arguments.push(String::from_utf16(&argument).unwrap());
    }
    arguments
}

#[test]
fn suspended_child_receives_quoted_arguments_exactly() {
    let arguments = [
        "--stork-check-args",
        "",
        "space value",
        "embedded\"quote",
        "trailing\\",
        "\\\\\"mixed",
        "\u{65e5}\u{672c}\u{8a9e}",
        "\u{1f980}",
    ];
    let exe = r"C:\Program Files\test target.exe";
    let command = wide_command_line(&units(exe), &arguments);
    assert_eq!(command.last(), Some(&0));
    let read = split_arguments(&command[..command.len() - 1]);
    assert_eq!(read[0], exe);
    assert_eq!(read[1..], arguments);
}

#[test]
fn command_lines_are_quoted_throughout() {
    let command = |arguments: &[&str]| wide_command_line(&units("a.exe"), arguments);
    assert_eq!(command(&[]), terminated("\"a.exe\""));
    assert_eq!(command(&["", "b c"]), terminated("\"a.exe\" \"\" \"b c\""));
    assert_eq!(command(&[r"d\"]), terminated(r#""a.exe" "d\\""#));
    assert_eq!(command(&[r#"\"e"#]), terminated(r#""a.exe" "\\\"e""#));
    assert_eq!(command(&[r"f\g"]), terminated(r#""a.exe" "f\g""#));
}

#[test]
fn event_names_preserve_non_bmp_characters() {
    let pid = 4321;
    let prefix = "Local\\stork_unicode_\u{1f980}_";
    // Encode independently to verify that the named object matches.
    let expected: Vec<u16> = format!("{prefix}{pid}").encode_utf16().chain(Some(0)).collect();
    assert_eq!(event_name(pid, prefix), expected);
}

#[test]
fn fixtures_and_harness_name_the_same_events() {
    for pid in [0, 7, 10, 4096, u32::MAX] {
        for kind in [
            EventKind::Test,
            EventKind::Ready,
            EventKind::Entry,
            EventKind::Pass,
            EventKind::ReadyAtEntry,
            EventKind::Main,
        ] {
            let (name, length) = stack_event_name(kind.prefix().as_bytes(), pid);
            assert_eq!(name[..=length], event_name(pid, kind.prefix()));
        }
    }
    assert_eq!(EventKind::ReadyAtEntry.prefix(), "Local\\stork_ready_at_entry_");
    // A name may fill the buffer up to its terminator.
    let (name, length) = stack_event_name(&[b'x'; 94], 1);
    assert_eq!((name[94], length, name[95]), (b'1' as u16, 95, 0));
}

#[test]
fn payload_attachment_signals_in_order() {
    let run = |delay: bool, block: bool| {
        let mut steps = vec![attach_start(1)];
        while *steps.last().unwrap() != AttachStep::Finished {
            let step = *steps.last().unwrap();
            let opened = match step {
                AttachStep::OpenDelay => delay,
                AttachStep::OpenBlock => block,
                _ => false,
            };
            steps.push(step.next(opened));
        }
        steps
    };
    assert_eq!(
        run(false, false),
        [
            AttachStep::SignalTest,
            AttachStep::OpenDelay,
            AttachStep::SignalReady,
            AttachStep::OpenBlock,
            AttachStep::SignalDone,
            AttachStep::Finished,
        ]
    );
    assert_eq!(
        run(true, true),
        [
            AttachStep::SignalTest,
            AttachStep::OpenDelay,
            AttachStep::StartWorker,
            AttachStep::OpenBlock,
            AttachStep::SignalWaiting,
            AttachStep::Block,
            AttachStep::SignalUnblocked,
            AttachStep::SignalDone,
            AttachStep::Finished,
        ]
    );
    assert_eq!(attach_start(0), AttachStep::Finished);
}

/// A tool that ends by itself after some time, or never.
struct Tool {
    exits_after: Option<u64>,
    code: i32,
    now: u64,
    job_stops: usize,
    killed: bool,
    stubborn: bool,
}

const MILLISECOND: u64 = 1_000_000;

impl Tool {
    fn new(exits_after: Option<u64>, code: i32) -> Self {
        Tool { exits_after, code, now: 0, job_stops: 0, killed: false, stubborn: false }
    }

    fn poll(&self) -> Option<i32> {
        let ended = self.exits_after.is_some_and(|after| self.now >= after);
        let ended = ended || ((self.killed || self.job_stops > 0) && !self.stubborn);
        ended.then_some(self.code)
    }

    fn run(&mut self, timeout: u64) -> ToolResult {
        let mut supervisor = Supervisor::start(timeout);
        let mut cleanup_start = 0;
        loop {
            let event = match supervisor.phase {
                ToolPhase::Assign => ToolEvent::Assigned(Ok(())),
                ToolPhase::Resume => ToolEvent::Resumed(Ok(())),
                ToolPhase::Poll => {
                    ToolEvent::Waited { status: Ok(self.poll()), elapsed: self.now }
                }
                ToolPhase::Sleep | ToolPhase::ReapSleep => {
                    self.now += 10 * MILLISECOND;
                    ToolEvent::Slept
                }
                ToolPhase::Stop => {
                    self.job_stops += 1;
                    ToolEvent::Stopped(Ok(()))
                }
                ToolPhase::Kill => {
                    self.killed = true;
                    cleanup_start = self.now;
                    ToolEvent::Killed(Ok(()))
                }
                ToolPhase::Reap => ToolEvent::Waited {
                    status: Ok(self.poll()),
                    elapsed: self.now - cleanup_start,
                },
                ToolPhase::Finished => return supervisor.finish(),
            };
            supervisor.step(event);
        }
    }
}

#[test]
fn tool_supervisor_captures_nonzero_exit_and_times_out() {
    let mut tool = Tool::new(Some(50 * MILLISECOND), 17);
    assert_eq!(tool.run(10_000 * MILLISECOND).unwrap(), 17);
    assert!(!tool.killed);
    let mut tool = Tool::new(None, 0);
    let error = tool.run(100 * MILLISECOND).unwrap_err();
    assert!(error.timed_out());
    assert!(matches!(error, ToolError::Exceeded));
    assert!(tool.now < 7_000 * MILLISECOND);
}

#[test]
fn tool_supervisor_terminates_descendants_on_timeout_and_success() {
    for mode in ["wait", "exit"] {
        let mut tool = Tool::new((mode == "exit").then_some(0), 0);
        let result = tool.run(2_000 * MILLISECOND);
        if mode == "exit" {
            assert_eq!(result.unwrap(), 0);
        } else {
            assert!(result.unwrap_err().timed_out());
        }
        // The job, and with it every descendant, is stopped either way.
        assert_eq!(tool.job_stops, 1);
    }
}

#[test]
fn tool_failures_are_combined() {
    // A child that does not go away.
    let mut tool = Tool::new(None, 0);
    tool.stubborn = true;
    let error = tool.run(100 * MILLISECOND).unwrap_err();
    let ToolError::Unreaped { error, killed: None, wait: WaitFailure::StillRuns } = error else {
        panic!("{error:?}")
    };
    assert!(matches!(*error, ToolError::Exceeded));
    assert!(tool.now >= 5_000 * MILLISECOND);
    // Nothing runs when the job or the resume is refused.
    for refused in [ToolEvent::Assigned(Err(os_error())), ToolEvent::Resumed(Err(os_error()))] {
        let mut supervisor = Supervisor::start(1);
        if let ToolEvent::Resumed(_) = refused {
            supervisor.step(ToolEvent::Assigned(Ok(())));
        }
        supervisor.step(refused);
        assert_eq!(supervisor.phase, ToolPhase::Stop);
        supervisor.step(ToolEvent::Stopped(Err(ToolError::JobStillRuns)));
        supervisor.step(ToolEvent::Killed(Err(os_error())));
        supervisor.step(ToolEvent::Waited { status: Err(os_error()), elapsed: 0 });
        assert_eq!(supervisor.phase, ToolPhase::Finished);
        let error = supervisor.finish().unwrap_err();
        assert!(!error.timed_out());
        let ToolError::Unreaped { error, killed: Some(_), wait: WaitFailure::Failed(_) } = error
        else {
            panic!("{error:?}")
        };
        let ToolError::JobCleanup { error, cleanup } = *error else { panic!("{error:?}") };
        assert!(matches!(*error, ToolError::Os(_)));
        assert!(matches!(*cleanup, ToolError::JobStillRuns));
    }
    // An exit does not count when the job cannot be stopped.
    let mut supervisor = Supervisor::start(1);
    supervisor.step(ToolEvent::Assigned(Ok(())));
    supervisor.step(ToolEvent::Resumed(Ok(())));
    supervisor.step(ToolEvent::Waited { status: Ok(Some(3)), elapsed: 9 });
    supervisor.step(ToolEvent::Stopped(Err(ToolError::JobStillRuns)));
    supervisor.step(ToolEvent::Killed(Ok(())));
    supervisor.step(ToolEvent::Waited { status: Ok(Some(3)), elapsed: 0 });
    assert!(matches!(supervisor.finish(), Err(ToolError::JobStillRuns)));
}

#[test]
fn jobs_end_with_their_last_process() {
    let stop = |events: Vec<JobEvent>| {
        let mut stop = JobStop::start();
        for event in events {
            stop.step(event);
        }
        assert_eq!(stop.phase, JobPhase::Finished);
        stop.finish()
    };
    let active = |active, elapsed| JobEvent::Queried { active: Ok(active), elapsed };
    stop(vec![JobEvent::Terminated(Ok(())), active(2, 0), JobEvent::Slept, active(0, 1)]).unwrap();
    assert!(matches!(
        stop(vec![JobEvent::Terminated(Err(os_error()))]),
        Err(ToolError::Os(_))
    ));
    assert!(matches!(
        stop(vec![JobEvent::Terminated(Ok(())), active(1, 5_000_000_000)]),
        Err(ToolError::JobStillRuns)
    ));
    assert!(matches!(
        stop(vec![
            JobEvent::Terminated(Ok(())),
            JobEvent::Queried { active: Err(os_error()), elapsed: 0 },
        ]),
        Err(ToolError::Os(_))
    ));
}

#[test]
fn captures_are_named_and_limited() {
    assert_eq!(capture_name(42, 7, "stdout"), "stork_tool_42_7_stdout.log");
    let mut search = CaptureSearch::start();
    for _ in 0..1023 {
        search.refused(os_error(), true).unwrap();
    }
    assert!(matches!(search.refused(os_error(), true), Err(ToolError::Os(_))));
    assert!(CaptureSearch::start().refused(os_error(), false).is_err());
    assert_eq!(capture_quota(), 1024 * 1024 + 1);
    assert_eq!(check_capture(Ok(vec![1; 1024 * 1024])).unwrap().len(), 1024 * 1024);
    assert!(matches!(
        check_capture(Ok(vec![1; 1024 * 1024 + 1])),
        Err(ToolError::OutputTooLarge)
    ));
    assert!(matches!(check_capture(Err(os_error())), Err(ToolError::Os(_))));
    assert_eq!(resume_step(7, 7, 70), ThreadStep::Resume(70));
    assert_eq!(resume_step(7, 8, 80), ThreadStep::Next);
}

#[test]
fn child_drop_confirms_process_termination() {
    // A running child is terminated, waited for, and closed.
    let mut teardown = Teardown::start();
    teardown.step(TeardownEvent::Waited(0x102, None));
    assert!(matches!(teardown.phase, TeardownPhase::Terminate));
    teardown.step(TeardownEvent::Terminated(Ok(())));
    assert!(matches!(teardown.phase, TeardownPhase::Reap));
    teardown.step(TeardownEvent::Waited(0, None));
    teardown.step(TeardownEvent::Closed(Ok(())));
    assert!(matches!(teardown.phase, TeardownPhase::CloseThread));
    teardown.step(TeardownEvent::Closed(Ok(())));
    assert!(matches!(teardown.phase, TeardownPhase::Finished));
    assert!(teardown.failures.is_empty());
    // One that has ended is only closed.
    let mut teardown = Teardown::start();
    teardown.step(TeardownEvent::Waited(0, None));
    assert!(matches!(teardown.phase, TeardownPhase::CloseProcess));
    // Every failure is kept.
    let mut teardown = Teardown::start();
    teardown.step(TeardownEvent::Waited(0x102, None));
    teardown.step(TeardownEvent::Terminated(Err(os_error())));
    teardown.step(TeardownEvent::Waited(0x102, None));
    teardown.step(TeardownEvent::Waited(0xffff_ffff, Some(os_error())));
    teardown.step(TeardownEvent::Closed(Err(os_error())));
    teardown.step(TeardownEvent::Closed(Err(os_error())));
    assert!(matches!(
        teardown.failures[..],
        [
            TeardownFailure::Terminate(_),
            TeardownFailure::Reap(_),
            TeardownFailure::Close(_),
            TeardownFailure::Close(_),
        ]
    ));
    // A child that ended while it was terminated is no failure.
    let mut teardown = Teardown::start();
    teardown.step(TeardownEvent::Waited(0x102, None));
    teardown.step(TeardownEvent::Terminated(Err(os_error())));
    teardown.step(TeardownEvent::Waited(0, None));
    teardown.step(TeardownEvent::Waited(0x102, None));
    assert!(matches!(teardown.failures[..], [TeardownFailure::UnexpectedWait(0x102)]));
}

#[test]
fn module_snapshots_grow_until_they_fit() {
    assert_eq!(snapshot_step(256, 0), SnapshotStep::Complete(0));
    assert_eq!(snapshot_step(256, 2048), SnapshotStep::Complete(256));
    assert_eq!(snapshot_step(256, 2049), SnapshotStep::Retry(272));
    assert_eq!(snapshot_step(256, 2400), SnapshotStep::Retry(316));
    let modules = [
        LoadedModule { base: 1, canonical: None },
        LoadedModule { base: 2, canonical: Some(units("a")) },
        LoadedModule { base: 3, canonical: Some(units("a")) },
    ];
    assert_eq!(module_base(&modules, &units("a")), Some(2));
    assert_eq!(module_base(&modules, &units("b")), None);
    assert!(module_loaded(&modules, &units("a")));
    assert!(!module_loaded(&modules, &units("b")));
}

#[test]
fn scripts_quote_their_directory() {
    assert_eq!(
        python_code(r"C:\it's\here"),
        "import os,time; d='C:/it\\'s/here'; \
         open(os.path.join(d,'ckpt_%d.txt'%os.getpid()),'w').close(); time.sleep(60)"
    );
    assert_eq!(
        node_code(r"C:\it's\here"),
        "require('fs').writeFileSync(require('path').join('C:/it\\'s/here',\
         'ckpt_'+process.pid+'.txt'),'');setTimeout(function(){},60000)"
    );
    assert_eq!(
        csharp_code("C:\\a\"b"),
        "using System;using System.IO;using System.Threading;\n\
         class StorkCSharpTarget { static void Main() {\n\
         var d=@\"C:\\a\"\"b\";\n\
         File.WriteAllText(Path.Combine(d,\"ckpt_\"+System.Diagnostics.Process.GetCurrentProcess().Id+\".txt\"),\"\");\n\
         Thread.Sleep(60000); }}\n"
    );
    assert_eq!(
        runtime_config("10.0.1"),
        "{\"runtimeOptions\":{\"framework\":{\"name\":\"Microsoft.NETCore.App\",\"version\":\"10.0.1\"}}}"
    );
}

#[test]
fn fixture_paths_lie_in_the_target_directory() {
    assert_eq!(profile(true), "debug");
    assert_eq!(profile(false), "release");
    let found = fixtures(&units(r"C:\t\debug"), units(r"C:\w"));
    assert_eq!(found.payload, units(r"C:\t\debug\test_payload.dll"));
    assert_eq!(found.rust_target, units(r"C:\t\debug\test_target.exe"));
    assert_eq!(found.entry, units(r"C:\t\debug\test_target_entry.exe"));
    assert_eq!(found.noimport, units(r"C:\t\debug\test_target_noimport.exe"));
    assert_eq!(found.workspace, units(r"C:\w"));
    assert_eq!(mixed_path(&found.rust_target), units(r"C:\t\debug\test_target_mixed.exe"));
    assert_eq!(
        mixed_target(&found.rust_target, true),
        Some(units(r"C:\t\debug\test_target_mixed.exe"))
    );
    assert_eq!(mixed_target(&found.rust_target, false), None);
    assert_eq!(checkpoint_path(&units(r"C:\r"), 12), units(r"C:\r\ckpt_12.txt"));
    assert_eq!(join(&units(r"C:\r\"), "a"), units(r"C:\r\a"));
    assert_eq!(join(&units("C:/r/"), "a"), units("C:/r/a"));
    assert_eq!(join(&units("C:"), "a"), units("C:a"));
    assert_eq!(join(&[], "a"), units("a"));
}

#[test]
fn managed_fixtures_need_a_compiler() {
    let build = csharp_target(true, "C:\\d").unwrap();
    assert_eq!(build.source, "stork_csharp_anycpu.cs");
    assert_eq!(build.exe, "stork_csharp_anycpu.exe");
    assert_eq!(build.platform, "/platform:anycpu");
    assert_eq!(build.code, csharp_code("C:\\d"));
    assert_eq!(csharp_target_x64(true, "C:\\d").unwrap().exe, "stork_csharp_x64.exe");
    assert!(csharp_target(false, "C:\\d").is_none());
    assert!(csharp_target_x64(false, "C:\\d").is_none());
}

#[test]
fn fixture_builds_follow_the_target_directory() {
    let arguments = |profile: &str, name: Option<&str>| -> Vec<String> {
        build_arguments(TargetDir {
            profile: units(profile),
            parent: units("parent"),
            parent_name: name.map(units),
            root: Some(units("root")),
        })
        .iter()
        .map(|argument| String::from_utf16(argument).unwrap())
        .collect()
    };
    let start = ["build", "--locked", "-p", "test-payload", "-p", "test-target", "--profile"];
    let plain = arguments("debug", Some("target"));
    assert_eq!(plain[..7], start);
    assert_eq!(plain[7..], ["dev", "--target-dir", "parent"]);
    assert_eq!(arguments("release", None)[7..], ["release", "--target-dir", "parent"]);
    assert_eq!(
        arguments("release", Some("x86_64-pc-windows-msvc"))[7..],
        ["release", "--target", "x86_64-pc-windows-msvc", "--target-dir", "root"]
    );
    assert_eq!(wait_for_file(true, 9, 1), FileWait::Found);
    assert_eq!(wait_for_file(false, 1, 1), FileWait::TimedOut);
    assert_eq!(wait_for_file(false, 0, 1), FileWait::Sleep);
}

#[test]
fn the_newest_core_runtime_is_chosen() {
    let listed = "Microsoft.AspNetCore.App 11.0.0 [C:\\dotnet]\r\n\
                  Microsoft.NETCore.App 8.0.11 [C:\\dotnet]\r\n\
                  Microsoft.NETCore.App 10.0.1 [C:\\dotnet]\r\n\
                  Microsoft.NETCore.App 10.0.0-rc.1 [C:\\dotnet]\r\n\
                  Microsoft.NETCore.App 9.0 [C:\\dotnet]\r\n";
    assert_eq!(latest_runtime(listed).as_deref(), Some("10.0.1"));
    assert_eq!(latest_runtime(""), None);
    assert_eq!(latest_runtime("Microsoft.NETCore.App"), None);
    assert_eq!(latest_runtime("Microsoft.NETCore.App 1.2.4294967296"), None);
    assert_eq!(latest_runtime("Microsoft.NETCore.App 1..3"), None);
    assert_eq!(latest_runtime("Microsoft.NETCore.App 1.2.+"), None);
    // Among equal versions the last line counts.
    assert_eq!(
        latest_runtime("Microsoft.NETCore.App 1.2.3\n Microsoft.NETCore.App\t1.+2.03").as_deref(),
        Some("1.+2.03")
    );
}

#[test]
fn probed_paths_are_trimmed() {
    assert_eq!(probe_path("  C:\\a b\\python.exe\r\n"), "C:\\a b\\python.exe");
    assert_eq!(probe_path("\u{3000}x\u{85}"), "x");
    assert_eq!(probe_path(" \t\n"), "");
    assert_eq!(probe_path(""), "");
}

#[test]
fn device_paths_are_reached_through_the_global_root() {
    assert_eq!(
        identity_path(&units(r"\Device\HarddiskVolume3\app.exe")),
        terminated(r"\\?\GLOBALROOT\Device\HarddiskVolume3\app.exe")
    );
}
