use stork::error::pe;
use stork::strategy::argument::load_argument;
use stork::strategy::load_library::{
    wait_outcome, LoadAction, LoadEvent, RemoteLoad, WaitEnd, LOAD_TIMEOUT,
};
use stork::strategy::queue_apc::{apc_thread, finish_queueing, releases_argument};
use stork::{Error, InjectedModule, LoadTiming, Target};

#[test]
fn arguments_are_terminated_little_endian_units() {
    assert_eq!(load_argument(&[]).unwrap(), [0, 0]);
    assert_eq!(
        load_argument(&[0x61, 0xd83e, 0xdd80]).unwrap(),
        [0x61, 0, 0x3e, 0xd8, 0x80, 0xdd, 0, 0]
    );
    assert!(matches!(load_argument(&[0x61, 0]), Err(Error::UnsupportedPath("embedded NUL"))));
}

#[test]
fn waits_end_in_one_of_three_ways() {
    assert_eq!(LOAD_TIMEOUT, 30_000);
    wait_outcome(WaitEnd::Signaled).unwrap();
    let timeout = wait_outcome(WaitEnd::TimedOut).unwrap_err();
    assert!(matches!(timeout, Error::RemoteTimeout));
    assert!(timeout.is_pending() && !timeout.must_not_resume());
    let failed = std::io::Error::from_raw_os_error(6);
    let pending = wait_outcome(WaitEnd::Failed(failed)).unwrap_err();
    assert!(matches!(&pending, Error::RemotePending(source) if source.raw_os_error() == Some(6)));
    assert!(pending.is_pending() && !pending.must_not_resume());
}

#[test]
fn completed_loads_release_their_argument() {
    let mut load = RemoteLoad::start();
    assert_eq!(load.action(), LoadAction::CreateThread);
    assert!(load.is_armed());
    load.step(LoadEvent::Created(Ok(())));
    assert_eq!(load.action(), LoadAction::Wait);
    assert!(!load.is_armed());
    load.step(LoadEvent::Waited(Ok(())));
    assert_eq!(load.action(), LoadAction::FindModule);
    load.step(LoadEvent::Located(Ok(0x7000_0000)));
    assert_eq!(load.action(), LoadAction::ReleaseArgument);
    load.step(LoadEvent::Released(Ok(())));
    assert_eq!(load.action(), LoadAction::Finish);
    let injected = load.finish().unwrap();
    assert_eq!(
        injected,
        InjectedModule { module: Some(0x7000_0000), timing: LoadTiming::Immediate }
    );
}

#[test]
fn pending_loads_keep_their_argument() {
    for end in [WaitEnd::TimedOut, WaitEnd::Failed(std::io::Error::from_raw_os_error(6))] {
        let mut load = RemoteLoad::start();
        load.step(LoadEvent::Created(Ok(())));
        load.step(LoadEvent::Waited(wait_outcome(end)));
        assert_eq!(load.action(), LoadAction::Finish);
        assert!(!load.is_armed());
        assert!(load.finish().unwrap_err().is_pending());
    }
}

#[test]
fn failed_loads_keep_every_error() {
    let mut load = RemoteLoad::start();
    load.step(LoadEvent::Created(Err(pe("no thread"))));
    assert_eq!(load.action(), LoadAction::ReleaseArgument);
    load.step(LoadEvent::Released(Ok(())));
    assert!(!load.is_armed());
    assert_eq!(load.finish().unwrap_err().to_string(), "PE parse error: no thread");
    // A refused release leaves an armed argument, and both errors.
    let mut load = RemoteLoad::start();
    load.step(LoadEvent::Created(Err(pe("no thread"))));
    load.step(LoadEvent::Released(Err(pe("no release"))));
    assert!(load.is_armed());
    let Error::Cleanup { operation, cleanup } = load.finish().unwrap_err() else {
        panic!("both errors must be retained")
    };
    assert_eq!(operation.to_string(), "PE parse error: no thread");
    assert_eq!(cleanup.to_string(), "PE parse error: no release");
    // A missing module, and a module whose argument stays.
    let mut load = RemoteLoad::start();
    load.step(LoadEvent::Created(Ok(())));
    load.step(LoadEvent::Waited(Ok(())));
    load.step(LoadEvent::Located(Err(Error::ModuleNotFound)));
    load.step(LoadEvent::Released(Ok(())));
    assert!(matches!(load.finish(), Err(Error::ModuleNotFound)));
    let mut load = RemoteLoad::start();
    load.step(LoadEvent::Created(Ok(())));
    load.step(LoadEvent::Waited(Ok(())));
    load.step(LoadEvent::Located(Ok(1)));
    load.step(LoadEvent::Released(Err(pe("no release"))));
    assert_eq!(load.finish().unwrap_err().to_string(), "PE parse error: no release");
}

#[test]
fn queued_arguments_stay_in_the_target() {
    assert_eq!(apc_thread(&Target::not_started(4, Some(8), 1)).unwrap(), 8);
    assert!(matches!(
        apc_thread(&Target::not_started(4, None, 1)),
        Err(Error::MissingThreadHandle)
    ));
    let queued = Ok(());
    assert!(!releases_argument(&queued));
    assert_eq!(
        finish_queueing(queued, Ok(())).unwrap(),
        InjectedModule { module: None, timing: LoadTiming::OnResume }
    );
    let refused = Err(pe("not queued"));
    assert!(releases_argument(&refused));
    let error = finish_queueing(refused, Err(pe("no release"))).unwrap_err();
    assert!(matches!(error, Error::Cleanup { .. }));
    let error = finish_queueing(Err(pe("not queued")), Ok(())).unwrap_err();
    assert_eq!(error.to_string(), "PE parse error: not queued");
}
