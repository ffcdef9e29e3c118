use lqos_queue_core::tc_handle::TcHandle;
use lqos_queue_core::watched_queues::{expiration_in_the_future, CircuitClasses, WatchError, WatchedQueues};

fn circuit(id: &str, n: u16) -> CircuitClasses {
    CircuitClasses {
        circuit_id: id.to_string(),
        download_class: TcHandle::Class { major: 1, minor: n },
        upload_class: TcHandle::Class { major: 2, minor: n },
    }
}

fn circuits(n: u16) -> Vec<CircuitClasses> {
    (0..n).map(|i| circuit(&format!("c{i}"), i)).collect()
}

#[test]
fn expiry_is_ten_seconds_ahead() {
    assert_eq!(expiration_in_the_future(1000), 1010);
}

#[test]
fn watch_lapses_after_its_ttl() {
    let known = circuits(3);
    let mut reg = WatchedQueues::new(2);
    let t0 = 1_700_000_000;
    assert_eq!(reg.add_watched_queue("c1", &known, t0), Ok(()));
    reg.expire_watched_queues(t0 + 9);
    let snap = reg.snapshot_for_polling();
    assert_eq!(snap.len(), 1);
    assert_eq!(snap[0].0, "c1");
    assert_eq!(snap[0].1, TcHandle::Class { major: 1, minor: 1 });
    assert_eq!(snap[0].2, TcHandle::Class { major: 2, minor: 1 });
    reg.expire_watched_queues(t0 + 10);
    assert_eq!(reg.len(), 0);
    assert!(reg.snapshot_for_polling().is_empty());
}

#[test]
fn sweep_at_eleven_seconds_removes_watch() {
    let known = circuits(3);
    let mut reg = WatchedQueues::new(2);
    assert_eq!(reg.add_watched_queue("c0", &known, 100), Ok(()));
    assert_eq!(reg.add_watched_queue("c2", &known, 105), Ok(()));
    reg.expire_watched_queues(111);
    assert!(!reg.is_watching("c0"));
    assert!(reg.is_watching("c2"));
}

#[test]
fn capacity_is_twice_the_parallel_units() {
    let known = circuits(10);
    let mut reg = WatchedQueues::new(3);
    assert_eq!(reg.capacity(), 6);
    for i in 0..6 {
        assert_eq!(reg.add_watched_queue(&format!("c{i}"), &known, 50), Ok(()));
    }
    assert_eq!(reg.add_watched_queue("c6", &known, 50), Err(WatchError::RegistryFull));
    assert_eq!(reg.len(), 6);
    assert!(!reg.is_watching("c6"));
}

#[test]
fn duplicate_and_unknown_adds_are_refused() {
    let known = circuits(2);
    let mut reg = WatchedQueues::new(4);
    assert_eq!(reg.add_watched_queue("c0", &known, 10), Ok(()));
    assert_eq!(reg.add_watched_queue("c0", &known, 12), Err(WatchError::AlreadyWatched));
    assert_eq!(reg.add_watched_queue("nope", &known, 12), Err(WatchError::CircuitUnknown));
    assert_eq!(reg.len(), 1);
}

#[test]
fn refresh_extends_without_duplicating() {
    let known = circuits(2);
    let mut reg = WatchedQueues::new(1);
    assert_eq!(reg.add_watched_queue("c1", &known, 100), Ok(()));
    assert_eq!(reg.still_watching("c1", &known, 108), Ok(()));
    assert_eq!(reg.len(), 1);
    reg.expire_watched_queues(115);
    let snap = reg.snapshot_for_polling();
    assert_eq!(snap.len(), 1);
    assert_eq!(snap[0].1, TcHandle::Class { major: 1, minor: 1 });
    assert_eq!(snap[0].2, TcHandle::Class { major: 2, minor: 1 });
    reg.expire_watched_queues(118);
    assert_eq!(reg.len(), 0);
}

#[test]
fn refresh_of_unwatched_circuit_adds_it() {
    let known = circuits(2);
    let mut reg = WatchedQueues::new(1);
    assert_eq!(reg.still_watching("c0", &known, 5), Ok(()));
    assert!(reg.is_watching("c0"));
    assert_eq!(reg.still_watching("missing", &known, 5), Err(WatchError::CircuitUnknown));
}
