use multipath_client::{
    PathAction, PathEvent, PathFault, PathPool, PathState, PathTable,
};

fn pool3() -> PathPool {
    PathPool::new(3, 9000, 8000, 8).unwrap()
}

#[test]
fn pool_ports_follow_index() {
    let pool = pool3();
    assert_eq!(pool.local_port(0), 9000);
    assert_eq!(pool.local_port(2), 9002);
    assert_eq!(pool.peer_port(1), 8001);
    assert_eq!(pool.peer_port(10), 8002);
}

#[test]
fn pool_rejects_overflowing_ports() {
    assert!(PathPool::new(3, 9000, 8000, 0).is_none());
    assert!(PathPool::new(2, 65535, 8000, 1).is_none());
    assert!(PathPool::new(1, 65535, 8000, 1).is_some());
    assert!(PathPool::new(1, 9000, 65535, 2).is_none());
}

#[test]
fn pool_finds_paths_by_ports() {
    let pool = pool3();
    assert_eq!(pool.path_index(9001, 8001), Some(1));
    assert_eq!(pool.path_index(9001, 8002), None);
    assert_eq!(pool.path_index(9003, 8003), None);
    assert_eq!(pool.path_index(8999, 8000), None);
    assert_eq!(pool.local_index(9002), Some(2));
    assert_eq!(pool.local_index(9003), None);
}

#[test]
fn validated_path_is_migrated_to() {
    let mut t = PathTable::new(pool3());
    let r = t.handle_event(PathEvent::Validated { local: 9001, peer: 8001 });
    assert_eq!(r, Ok(PathAction::Migrate { local: 9001, peer: 8001 }));
    assert_eq!(t.state(1), PathState::Validated);
    assert_eq!(t.state(0), PathState::Unknown);
}

#[test]
fn validated_pair_outside_pool_is_still_migrated_to() {
    let mut t = PathTable::new(pool3());
    let r = t.handle_event(PathEvent::Validated { local: 9001, peer: 8005 });
    assert_eq!(r, Ok(PathAction::Migrate { local: 9001, peer: 8005 }));
    assert_eq!(t.state(1), PathState::Unknown);
}

#[test]
fn failed_and_closed_paths_are_terminal() {
    let mut t = PathTable::new(pool3());
    assert_eq!(
        t.handle_event(PathEvent::FailedValidation { local: 9000, peer: 8000 }),
        Ok(PathAction::NoAction)
    );
    assert_eq!(t.state(0), PathState::Failed);
    assert_eq!(
        t.handle_event(PathEvent::Validated { local: 9000, peer: 8000 }),
        Ok(PathAction::NoAction)
    );
    assert_eq!(t.state(0), PathState::Failed);
    assert_eq!(
        t.handle_event(PathEvent::Closed { local: 9002, peer: 8002 }),
        Ok(PathAction::NoAction)
    );
    assert_eq!(t.state(2), PathState::Closed);
    assert!(t.state(2).is_terminal());
    t.mark_probing(2);
    assert_eq!(t.state(2), PathState::Closed);
}

#[test]
fn reused_cid_changes_nothing() {
    let mut t = PathTable::new(pool3());
    assert_eq!(
        t.handle_event(PathEvent::ReusedSourceConnectionId { seq: 3 }),
        Ok(PathAction::NoAction)
    );
    assert_eq!(t.states, vec![PathState::Unknown; 3]);
}

#[test]
fn peer_initiated_events_are_faults() {
    let mut t = PathTable::new(pool3());
    assert_eq!(
        t.handle_event(PathEvent::New { local: 9000, peer: 8000 }),
        Err(PathFault::UnexpectedEvent)
    );
    assert_eq!(
        t.handle_event(PathEvent::PeerMigrated { local: 9000, peer: 8000 }),
        Err(PathFault::UnexpectedEvent)
    );
}

#[test]
fn drain_handles_events_in_order() {
    let mut t = PathTable::new(pool3());
    let evs = vec![
        PathEvent::Validated { local: 9000, peer: 8000 },
        PathEvent::Closed { local: 9000, peer: 8000 },
        PathEvent::Validated { local: 9001, peer: 8001 },
    ];
    let acts = t.drain(&evs).unwrap();
    assert_eq!(
        acts,
        vec![
            PathAction::Migrate { local: 9000, peer: 8000 },
            PathAction::NoAction,
            PathAction::Migrate { local: 9001, peer: 8001 },
        ]
    );
    assert_eq!(t.states, vec![PathState::Closed, PathState::Validated, PathState::Unknown]);
}

#[test]
fn drain_stops_at_unexpected_event() {
    let mut t = PathTable::new(pool3());
    let evs = vec![
        PathEvent::FailedValidation { local: 9001, peer: 8001 },
        PathEvent::PeerMigrated { local: 9000, peer: 8000 },
        PathEvent::Validated { local: 9002, peer: 8002 },
    ];
    assert_eq!(t.drain(&evs), Err(PathFault::UnexpectedEvent));
    assert_eq!(t.states, vec![PathState::Unknown, PathState::Failed, PathState::Unknown]);
}

#[test]
fn draining_empty_queue_twice_is_noop() {
    let mut t = PathTable::new(pool3());
    t.handle_event(PathEvent::Validated { local: 9000, peer: 8000 }).unwrap();
    let before = t.states.clone();
    assert_eq!(t.drain(&vec![]), Ok(vec![]));
    assert_eq!(t.drain(&vec![]), Ok(vec![]));
    assert_eq!(t.states, before);
}
