use stork::injector::{gate, InjectedModule};
use stork::strategy::queue_apc::{apc_thread, finish_queueing, releases_argument};
use stork::target::{
    earliest, file_time, retries_selection, revalidate, walk_is_complete, Liveness, PrimaryScan,
    ThreadFacts,
};
use stork::{Error, Injector, LoadTiming, LoaderState, Strategy, Target};

#[test]
fn aliases_and_default() {
    for s in ["loadlibrary", "load-library", "remote-thread", "crt", "CRT"] {
        assert_eq!(s.parse::<Strategy>().unwrap(), Strategy::default());
    }
    for s in ["apc", "queue-user-apc", "early-bird"] {
        assert_eq!(s.parse::<Strategy>().unwrap(), Strategy::QueueUserApc);
    }
    for s in ["iat", "import-table", "detours"] {
        assert_eq!(s.parse::<Strategy>().unwrap(), Strategy::ImportTableHijack);
    }
    assert!("unknown".parse::<Strategy>().is_err());
    for s in [
        Strategy::default(),
        Strategy::QueueUserApc,
        Strategy::ImportTableHijack,
    ] {
        assert_eq!(s.as_str().parse::<Strategy>().unwrap(), s);
    }
}

#[test]
fn parsing_ignores_ascii_case_only() {
    for s in ["IAT", "Import-Table", "dEtOuRs"] {
        assert_eq!(Strategy::from_name(s).unwrap(), Strategy::ImportTableHijack);
    }
    // The Kelvin sign lower-cases to `k` in Unicode, but not in ASCII.
    assert!(matches!(
        Strategy::from_name("\u{212a}"),
        Err(Error::UnknownStrategy(name)) if name == "\u{212a}"
    ));
    assert!(matches!(
        Strategy::from_name("Apc "),
        Err(Error::UnknownStrategy(name)) if name == "Apc "
    ));
}

#[test]
fn injectors_keep_their_strategy() {
    assert_eq!(Injector::new().strategy(), Strategy::LoadLibraryRemoteThread);
    assert_eq!(Injector::default().strategy(), Strategy::default());
    assert_eq!(Injector::queue_apc().strategy(), Strategy::QueueUserApc);
    assert_eq!(Injector::import_table().strategy(), Strategy::ImportTableHijack);
    for strategy in [
        Strategy::LoadLibraryRemoteThread,
        Strategy::QueueUserApc,
        Strategy::ImportTableHijack,
    ] {
        assert_eq!(Injector::with_strategy(strategy).strategy(), strategy);
    }
}

#[test]
fn timing_says_whether_there_is_a_module() {
    let loaded = InjectedModule::immediate(0x7ff0);
    assert_eq!((loaded.module, loaded.timing), (Some(0x7ff0), LoadTiming::Immediate));
    let armed = InjectedModule::on_resume();
    assert_eq!((armed.module, armed.timing), (None, LoadTiming::OnResume));
}

#[test]
fn state_gates() {
    let mut t = Target::new(0, None, 0, LoaderState::Unknown);
    assert!(matches!(
        gate(Strategy::QueueUserApc, &t),
        Err(Error::MissingThreadHandle)
    ));
    assert!(gate(Strategy::ImportTableHijack, &t).is_err());
    assert!(gate(Strategy::default(), &t).is_ok());
    t.main_thread = Some(0);
    assert!(gate(Strategy::QueueUserApc, &t).is_err());
    t.loader_state = LoaderState::LoaderComplete;
    assert!(gate(Strategy::QueueUserApc, &t).is_err());
    t.loader_state = LoaderState::NotStarted;
    assert!(gate(Strategy::QueueUserApc, &t).is_ok());
    t.loader_state = LoaderState::EarlyApc;
    assert!(gate(Strategy::QueueUserApc, &t).is_ok());
    assert!(gate(Strategy::ImportTableHijack, &t).is_err());
    assert!(gate(Strategy::LoadLibraryRemoteThread, &t).is_err());
}

#[test]
fn gates_follow_the_loader_state_table() {
    for (strategy, allowed, reason) in [
        (
            Strategy::LoadLibraryRemoteThread,
            [true, false, true, true],
            "an early-APC handoff permits only APC injection",
        ),
        (
            Strategy::QueueUserApc,
            [true, true, false, false],
            "a never-run thread or verified early-APC handoff is required",
        ),
        (
            Strategy::ImportTableHijack,
            [true, false, false, false],
            "a never-run primary thread and loader are required",
        ),
    ] {
        for (state, ok) in [
            LoaderState::NotStarted,
            LoaderState::EarlyApc,
            LoaderState::LoaderComplete,
            LoaderState::Unknown,
        ]
        .into_iter()
        .zip(allowed)
        {
            let result = gate(strategy, &Target::new(1, Some(2), 3, state));
            match result {
                Ok(()) => assert!(ok),
                Err(Error::StrategyUnavailable { strategy: named, reason: why }) => {
                    assert!(!ok);
                    assert_eq!((named, why), (strategy, reason));
                }
                Err(other) => panic!("{}", other.to_string()),
            }
        }
    }
}

#[test]
fn targets_keep_their_handles() {
    let fresh = Target::not_started(10, Some(20), 30);
    assert_eq!(fresh, Target::new(10, Some(20), 30, LoaderState::NotStarted));
    assert_eq!(Target::early_apc(1, 2, 3), Target::new(1, Some(2), 3, LoaderState::EarlyApc));
    assert_eq!(
        Target::loader_complete(1, None, 3),
        Target::new(1, None, 3, LoaderState::LoaderComplete)
    );
    assert_eq!(
        fresh.with_loader_state(LoaderState::Unknown),
        Target::new(10, Some(20), 30, LoaderState::Unknown)
    );
    assert_eq!(Target::from(&fresh), fresh);
}

#[test]
fn timestamp_selection() {
    assert_eq!(earliest(&[8, 2, 5]).unwrap(), 1);
    assert!(earliest(&[2, 2]).is_err());
    assert!(earliest(&[]).is_err());
}

#[test]
fn ties_matter_only_at_the_minimum() {
    assert_eq!(earliest(&[7]).unwrap(), 0);
    assert_eq!(earliest(&[9, 9, 3]).unwrap(), 2);
    assert_eq!(earliest(&[1, 9, 9]).unwrap(), 0);
    assert!(matches!(earliest(&[9, 3, 4, 3]), Err(Error::AmbiguousPrimaryThread)));
    assert_eq!(earliest(&[u64::MAX, 0]).unwrap(), 1);
}

#[test]
fn primary_scan_selects_the_oldest_live_thread() {
    let mut scan = PrimaryScan::new(7);
    assert!(scan.wants(7));
    assert!(!scan.wants(8));
    let facts = |created| ThreadFacts { owner: 7, created, exited: 0 };
    scan.observe(100, facts(50)).unwrap();
    scan.observe(101, facts(40)).unwrap();
    scan.observe(102, facts(60)).unwrap();
    assert_eq!(scan.select().unwrap(), (1, 101));
    assert!(matches!(
        scan.observe(103, ThreadFacts { owner: 8, created: 1, exited: 0 }),
        Err(Error::AmbiguousPrimaryThread)
    ));
    assert!(matches!(
        scan.observe(104, ThreadFacts { owner: 7, created: 1, exited: 9 }),
        Err(Error::AmbiguousPrimaryThread)
    ));
    assert_eq!(scan.select().unwrap(), (1, 101));
    scan.observe(105, facts(40)).unwrap();
    assert!(matches!(scan.select(), Err(Error::AmbiguousPrimaryThread)));
    assert!(matches!(PrimaryScan::new(7).select(), Err(Error::AmbiguousPrimaryThread)));
}

#[test]
fn selection_retries_only_vanished_threads() {
    for attempt in 0..3 {
        assert_eq!(retries_selection(attempt, Some(87)), attempt < 2);
        assert!(!retries_selection(attempt, Some(5)));
        assert!(!retries_selection(attempt, None));
    }
    assert!(walk_is_complete(Some(18)));
    assert!(!walk_is_complete(Some(87)));
    assert!(!walk_is_complete(None));
    assert!(revalidate(Liveness::Running).is_ok());
    assert!(matches!(revalidate(Liveness::Other), Err(Error::AmbiguousPrimaryThread)));
    assert_eq!(file_time(1, 2), 0x1_0000_0002);
}

#[test]
fn queued_arguments_are_released_only_on_failure() {
    assert_eq!(apc_thread(&Target::early_apc(1, 2, 3)).unwrap(), 2);
    assert!(matches!(
        apc_thread(&Target::not_started(1, None, 3)),
        Err(Error::MissingThreadHandle)
    ));
    assert!(!releases_argument(&Ok(())));
    assert!(releases_argument(&Err(Error::ModuleNotFound)));
    assert_eq!(finish_queueing(Ok(()), Ok(())).unwrap(), InjectedModule::on_resume());
    assert!(matches!(
        finish_queueing(Err(Error::ModuleNotFound), Ok(())),
        Err(Error::ModuleNotFound)
    ));
    assert!(matches!(
        finish_queueing(Err(Error::ModuleNotFound), Err(Error::RemoteTimeout)),
        Err(Error::Cleanup { .. })
    ));
}
