use rustic_config::error::ConfigError;
use rustic_config::watch::{watch_start, watch_step, WatchAction, WatchEvent, WatchState};
use rustic_config::{ConfigManager, ConfigManagerBuilder, ConfigMap, ConfigSource, FilePath};

#[test]
fn watch_observes_the_first_file() {
    let mut cmb = ConfigManagerBuilder::new();
    cmb.add_source(ConfigSource::File(FilePath::new("first.json")));
    cmb.add_source(ConfigSource::File(FilePath::new("second.json")));
    let reads = vec![Ok(b"{}".to_vec()), Ok(b"{}".to_vec())];
    let cm = cmb.build(&reads).unwrap();
    assert!(cm.can_watch());
    assert_eq!(cm.watch_target(), Some(&FilePath::new("first.json")));
}

#[test]
fn watch_refuses_a_first_source_that_is_no_file() {
    let cm = ConfigManager::new(
        ConfigMap::new(),
        vec![ConfigSource::Environment, ConfigSource::File(FilePath::new("a.json"))],
    );
    assert!(!cm.can_watch());
}

#[test]
fn a_session_forwards_until_shutdown() {
    let s = watch_start();
    assert_eq!(s, WatchState::Idle);
    let (s, a) = watch_step(s, WatchEvent::Registered);
    assert_eq!((s, a), (WatchState::Watching, WatchAction::Nothing));
    let (s, a) = watch_step(s, WatchEvent::Observed);
    assert_eq!((s, a), (WatchState::Watching, WatchAction::Forward));
    let (s, a) = watch_step(s, WatchEvent::Observed);
    assert_eq!((s, a), (WatchState::Watching, WatchAction::Forward));
    let (s, a) = watch_step(s, WatchEvent::ShutdownSignal);
    assert_eq!((s, a), (WatchState::ShuttingDown, WatchAction::StopWorker));
    let (s, a) = watch_step(s, WatchEvent::Observed);
    assert_eq!((s, a), (WatchState::ShuttingDown, WatchAction::Nothing));
    let (s, a) = watch_step(s, WatchEvent::WorkerExited);
    assert_eq!((s, a), (WatchState::Stopped, WatchAction::CloseChannel));
    let (s, a) = watch_step(s, WatchEvent::Observed);
    assert_eq!((s, a), (WatchState::Stopped, WatchAction::Nothing));
    let (s, a) = watch_step(s, WatchEvent::Registered);
    assert_eq!((s, a), (WatchState::Stopped, WatchAction::Nothing));
}

#[test]
fn a_dropped_sender_ends_the_session() {
    let (s, _) = watch_step(watch_start(), WatchEvent::Registered);
    let (s, a) = watch_step(s, WatchEvent::SignalClosed);
    assert_eq!((s, a), (WatchState::ShuttingDown, WatchAction::StopWorker));
    let (s, a) = watch_step(s, WatchEvent::ShutdownSignal);
    assert_eq!((s, a), (WatchState::ShuttingDown, WatchAction::Nothing));
}

#[test]
fn a_failed_setup_is_returned_as_a_watch_error() {
    let (s, a) = watch_step(watch_start(), WatchEvent::SetupFailed("no such path".to_string()));
    assert_eq!(s, WatchState::Stopped);
    assert_eq!(a, WatchAction::Fail(ConfigError::FileWatchError("no such path".to_string())));
    let (s, a) = watch_step(watch_start(), WatchEvent::Observed);
    assert_eq!((s, a), (WatchState::Idle, WatchAction::Nothing));
}
