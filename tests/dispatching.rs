use multipath_client::{
    close_reason, DispatchAction, Dispatcher, LoopPhase, PathAction, PathEvent, PathPool,
    PathState, PathStatus, Session, CLOSE_ERROR_CODE,
};

#[test]
fn dispatcher_probes_then_sends() {
    let mut d = Dispatcher::new(2);
    assert_eq!(d.step(PathStatus::Unknown, PathState::Unknown, 0), DispatchAction::Wait);
    assert_eq!(d.step(PathStatus::Unknown, PathState::Unknown, 1), DispatchAction::Probe { index: 0 });
    assert_eq!(d.step(PathStatus::Pending, PathState::Probing, 1), DispatchAction::Wait);
    assert_eq!(
        d.step(PathStatus::Validated, PathState::Validated, 0),
        DispatchAction::Send { index: 0, stream_id: 0 }
    );
    assert_eq!(d.next, 1);
    assert_eq!(
        d.step(PathStatus::Validated, PathState::Unknown, 0),
        DispatchAction::Send { index: 1, stream_id: 4 }
    );
    assert_eq!(d.step(PathStatus::Validated, PathState::Validated, 3), DispatchAction::Finished);
    assert_eq!(d.next, 2);
}

#[test]
fn dispatcher_never_uses_dead_path() {
    let mut d = Dispatcher::new(1);
    assert_eq!(d.step(PathStatus::Validated, PathState::Closed, 1), DispatchAction::Wait);
    assert_eq!(d.step(PathStatus::Unknown, PathState::Failed, 1), DispatchAction::Wait);
    assert_eq!(d.next, 0);
}

#[test]
fn stream_ids_are_four_times_index() {
    let mut d = Dispatcher::new(5);
    let mut ids = vec![];
    for _ in 0..7 {
        if let DispatchAction::Send { index, stream_id } =
            d.step(PathStatus::Validated, PathState::Validated, 0)
        {
            assert_eq!(stream_id, 4 * index as u64);
            ids.push(stream_id);
        }
    }
    assert_eq!(ids, vec![0, 4, 8, 12, 16]);
}

#[test]
fn later_path_validated_first_waits_for_earlier() {
    let pool = PathPool::new(2, 9000, 8000, 8).unwrap();
    let mut s = Session::new(pool);
    s.handle_path_events(&vec![PathEvent::Validated { local: 9001, peer: 8001 }]).unwrap();
    // Message 0's path is still pending: nothing is sent, message 1 waits.
    assert_eq!(s.dispatch(PathStatus::Pending, 2), DispatchAction::Wait);
    assert_eq!(s.dispatcher.next, 0);
}

#[test]
fn three_messages_round_trip() {
    let pool = PathPool::new(3, 9000, 8000, 8).unwrap();
    let mut s = Session::new(pool);
    assert_eq!(s.phase(false, false), LoopPhase::Handshaking);
    assert_eq!(s.phase(true, false), LoopPhase::Established);
    let mut sent = vec![];
    for i in 0..3usize {
        let local = 9000 + i as u16;
        let peer = 8000 + i as u16;
        assert_eq!(s.dispatch(PathStatus::Unknown, 1), DispatchAction::Probe { index: i });
        assert_eq!(s.table.state(i), PathState::Probing);
        assert!(!s.take_close_request());
        let acts = s.handle_path_events(&vec![PathEvent::Validated { local, peer }]).unwrap();
        assert_eq!(acts, vec![PathAction::Migrate { local, peer }]);
        match s.dispatch(PathStatus::Validated, 1) {
            DispatchAction::Send { index, stream_id } => sent.push((index, stream_id)),
            other => panic!("expected a send, got {:?}", other),
        }
    }
    assert_eq!(sent, vec![(0, 0), (1, 4), (2, 8)]);
    assert_eq!(s.dispatch(PathStatus::Validated, 1), DispatchAction::Finished);
    s.on_stream_data(0, true);
    s.on_stream_data(4, false);
    assert!(!s.all_acknowledged());
    assert!(!s.take_close_request());
    s.on_stream_data(4, true);
    s.on_stream_data(8, true);
    assert!(s.all_acknowledged());
    assert!(s.take_close_request());
    assert!(!s.take_close_request());
    assert_eq!(s.phase(true, false), LoopPhase::Closing);
    assert_eq!(s.phase(true, true), LoopPhase::Closed);
    assert_eq!(CLOSE_ERROR_CODE, 0x00);
    assert_eq!(close_reason(), b"closing".to_vec());
}

#[test]
fn no_messages_closes_at_once() {
    let pool = PathPool::new(0, 9000, 8000, 8).unwrap();
    let mut s = Session::new(pool);
    assert_eq!(s.dispatch(PathStatus::Unknown, 5), DispatchAction::Finished);
    assert!(s.all_acknowledged());
    assert!(s.take_close_request());
}

#[test]
fn failed_path_message_is_never_sent() {
    let pool = PathPool::new(2, 9000, 8000, 8).unwrap();
    let mut s = Session::new(pool);
    assert_eq!(s.dispatch(PathStatus::Unknown, 1), DispatchAction::Probe { index: 0 });
    s.handle_path_events(&vec![PathEvent::FailedValidation { local: 9000, peer: 8000 }])
        .unwrap();
    for _ in 0..5 {
        assert_eq!(s.dispatch(PathStatus::Unknown, 1), DispatchAction::Wait);
        assert_eq!(s.dispatch(PathStatus::Validated, 1), DispatchAction::Wait);
    }
    assert_eq!(s.dispatcher.next, 0);
    assert!(!s.take_close_request());
}

#[test]
fn stray_stream_reads_do_not_acknowledge() {
    let pool = PathPool::new(1, 9000, 8000, 8).unwrap();
    let mut s = Session::new(pool);
    s.on_stream_data(1, true);
    s.on_stream_data(4, true);
    assert!(!s.all_acknowledged());
    s.on_stream_data(0, true);
    assert!(s.all_acknowledged());
}
