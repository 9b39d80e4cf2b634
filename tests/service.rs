use mev_relay::{
    select_first, Action, Bootstrap, BootstrapError, BuilderBidV1, Config, EpochTracker, Event,
    ExecutionPayload, ProposalRequest, Service, ServiceError, SignedBlindedBeaconBlock, SlotClock,
    Stage, TaskPoll, ValidatorRegistrationV1, DEFAULT_PORT,
};

#[test]
fn config_defaults() {
    let c = Config::default();
    assert_eq!(c.host, [127, 0, 0, 1]);
    assert_eq!(c.port, 28545);
    assert_eq!(DEFAULT_PORT, 28545);
    assert_eq!(c.beacon_node_url, "http://127.0.0.1:5052");
    assert!(c.secret_key.is_empty());
}

#[test]
fn service_from_keeps_config() {
    let mut c = Config::default();
    c.host = [10, 0, 0, 7];
    c.port = 9000;
    c.secret_key = vec![1, 2, 3];
    let s = Service::from("sepolia".to_string(), c).unwrap();
    assert_eq!(s.host, [10, 0, 0, 7]);
    assert_eq!(s.port, 9000);
    assert_eq!(s.network, "sepolia");
    assert_eq!(s.secret_key, vec![1, 2, 3]);
    assert_eq!(s.beacon_node.as_str(), "http://127.0.0.1:5052/");
}

#[test]
fn service_from_rejects_bad_url() {
    let mut c = Config::default();
    c.beacon_node_url = "not a url".to_string();
    let r = Service::from("mainnet".to_string(), c);
    assert!(matches!(r, Err(ServiceError::InvalidBeaconNodeUrl(_))));
}

#[test]
fn service_from_rejects_relative_url() {
    let mut c = Config::default();
    c.beacon_node_url = "/eth/v1/beacon/genesis".to_string();
    assert!(Service::from("mainnet".to_string(), c).is_err());
}

#[test]
fn clock_epochs_and_slots() {
    let clock = SlotClock::new(1_000, 12, 32);
    assert_eq!(clock.epoch_for(0), 0);
    assert_eq!(clock.epoch_for(31), 0);
    assert_eq!(clock.epoch_for(32), 1);
    assert_eq!(clock.epoch_for(100), 3);
    assert_eq!(clock.slot_at(999), None);
    assert_eq!(clock.slot_at(1_000), Some(0));
    assert_eq!(clock.slot_at(1_000 + 12 * 33 + 5), Some(33));
    assert_eq!(clock.current_epoch(999), None);
    assert_eq!(clock.current_epoch(1_000 + 12 * 64), Some(2));
}

#[test]
fn clock_resolution_prefers_embedded() {
    let embedded = SlotClock::new(5, 6, 8);
    assert_eq!(SlotClock::resolve(Some(embedded), 100, 12, 32), embedded);
    assert_eq!(SlotClock::resolve(None, 100, 12, 32), SlotClock::new(100, 12, 32));
}

#[test]
fn epoch_flag_once_per_epoch() {
    let clock = SlotClock::new(0, 12, 32);
    let mut tracker = EpochTracker::new(0);
    let mut flagged = Vec::new();
    for slot in 0..64u64 {
        if tracker.on_slot(&clock, slot) {
            flagged.push(slot);
        }
    }
    // Slot 0 lies in the epoch the loop started in, so only the next
    // epoch's first slot is flagged.
    assert_eq!(flagged, vec![32]);
    assert_eq!(tracker.current_epoch, 1);
}

#[test]
fn epoch_flag_resets_after_one_slot() {
    let clock = SlotClock::new(0, 12, 32);
    let mut tracker = EpochTracker::new(0);
    assert!(!tracker.on_slot(&clock, 31));
    assert!(tracker.on_slot(&clock, 32));
    assert!(!tracker.on_slot(&clock, 33));
    assert!(!tracker.on_slot(&clock, 63));
    assert!(tracker.on_slot(&clock, 64));
}

#[test]
fn epoch_flag_on_skipped_epochs() {
    let clock = SlotClock::new(0, 12, 8);
    let mut tracker = EpochTracker::new(2);
    let slots = [17u64, 20, 24, 45, 46, 48];
    let flags: Vec<bool> = slots.iter().map(|s| tracker.on_slot(&clock, *s)).collect();
    assert_eq!(flags, vec![false, false, true, true, false, true]);
    assert_eq!(tracker.current_epoch, 6);
}

#[test]
fn handle_returns_finished_relay_without_polling_server() {
    let r: TaskPoll<Result<(), String>> =
        select_first(TaskPoll::Ready(Ok(())), || panic!("server must not be polled"));
    assert_eq!(r, TaskPoll::Ready(Ok(())));
}

#[test]
fn handle_returns_failed_relay_while_server_pending() {
    let r: TaskPoll<Result<(), String>> =
        select_first(TaskPoll::Ready(Err("cancelled".to_string())), || TaskPoll::Pending);
    assert_eq!(r, TaskPoll::Ready(Err("cancelled".to_string())));
}

#[test]
fn handle_falls_back_to_server() {
    let r: TaskPoll<Result<(), String>> =
        select_first(TaskPoll::Pending, || TaskPoll::Ready(Err("panicked".to_string())));
    assert_eq!(r, TaskPoll::Ready(Err("panicked".to_string())));
    let p: TaskPoll<Result<(), String>> = select_first(TaskPoll::Pending, || TaskPoll::Pending);
    assert_eq!(p, TaskPoll::Pending);
    assert!(!p.is_ready());
}

#[test]
fn bootstrap_full_sequence() {
    let (mut b, first) = Bootstrap::start(false);
    assert!(matches!(first, Action::DeriveContext));
    assert!(matches!(b.step(Event::ContextDerived), Action::FetchGenesis));
    let root = [7u8; 32];
    assert!(matches!(b.step(Event::GenesisFetched(root)), Action::InitializeRelay(r) if r == root));
    assert!(matches!(b.step(Event::RelayInitialized), Action::SpawnServer));
    assert!(matches!(b.step(Event::ServerSpawned), Action::SpawnSlotLoop));
    assert!(matches!(b.step(Event::SlotLoopSpawned), Action::Finish));
    assert_eq!(b.stage, Stage::Running);
    assert!(matches!(b.step(Event::ServerSpawned), Action::Ignore));
}

#[test]
fn bootstrap_supplied_context_skips_derivation() {
    let (b, first) = Bootstrap::start(true);
    assert!(matches!(first, Action::FetchGenesis));
    assert_eq!(b.stage, Stage::FetchingGenesis);
}

#[test]
fn bootstrap_genesis_failure_starts_nothing() {
    let (mut b, _) = Bootstrap::start(true);
    let a = b.step(Event::GenesisFailed);
    assert!(matches!(a, Action::Fail(BootstrapError::BeaconNode)));
    assert_eq!(b.stage, Stage::Failed(BootstrapError::BeaconNode));
    for e in [Event::RelayInitialized, Event::ServerSpawned, Event::SlotLoopSpawned] {
        assert!(matches!(b.step(e), Action::Ignore));
    }
}

#[test]
fn bootstrap_context_failure() {
    let (mut b, _) = Bootstrap::start(false);
    assert!(matches!(b.step(Event::ContextFailed), Action::Fail(BootstrapError::Context)));
    assert!(matches!(b.step(Event::ContextDerived), Action::Ignore));
}

#[test]
fn message_types_hold_their_value() {
    assert_eq!(ValidatorRegistrationV1 { a: 1 }.a, 1);
    assert_eq!(ProposalRequest { a: -2 }.a, -2);
    assert_eq!(BuilderBidV1 { a: 3 }.a, 3);
    assert_eq!(SignedBlindedBeaconBlock { a: 4 }, SignedBlindedBeaconBlock { a: 4 });
    assert_eq!(ExecutionPayload { a: i64::MAX }.a, i64::MAX);
}
