use stream_core::actor::{Actor, ActorError, ActorState};
use stream_core::dispatch::{
    partition, DispatchError, Dispatcher, DispatcherDesc, DispatcherType,
};
use stream_core::graph::{BuildError, RuntimeError, StreamFragment, StreamManager};
use stream_core::merge::{MergeError, Merger};
use stream_core::message::{Barrier, Chunk, Message, Mutation};
use stream_core::registry::{ActorInfo, HostAddress};

const PORT: i32 = 2333;

fn helper_make_local_actor(fragment_id: u32) -> ActorInfo {
    ActorInfo {
        fragment_id,
        host: Some(HostAddress {
            host: "127.0.0.1".into(),
            port: PORT,
        }),
    }
}

fn fragment(
    fragment_id: u32,
    upstream: Vec<u32>,
    dispatcher_type: DispatcherType,
    downstream: Vec<u32>,
) -> StreamFragment {
    StreamFragment {
        fragment_id,
        upstream_fragment_id: upstream,
        project: None,
        dispatcher: Some(DispatcherDesc {
            dispatcher_type,
            column_idx: 0,
        }),
        downstream_fragment_id: downstream,
    }
}

fn chunk(rows: Vec<Vec<i64>>) -> Message {
    Message::Chunk(Chunk { rows })
}

fn barrier(epoch: u64) -> Message {
    Message::Barrier(Barrier {
        epoch,
        ..Barrier::default()
    })
}

fn stop() -> Message {
    Message::Barrier(Barrier {
        epoch: 0,
        mutation: Mutation::Stop,
    })
}

fn rows_of(m: &Message) -> Vec<Vec<i64>> {
    match m {
        Message::Chunk(c) => c.rows.clone(),
        Message::Barrier(_) => panic!("not a chunk"),
    }
}

/// Diamond topology:
///
/// ```plain
///            /--- 7  ---\
/// 1 --- 3 ---            --- 13 --- 233
///            \--- 11 ---/
/// ```
#[test]
fn test_stream_proto() {
    let mut stream_manager = StreamManager::new();
    let info = [1, 3, 7, 11, 13, 233]
        .iter()
        .cloned()
        .map(helper_make_local_actor)
        .collect::<Vec<_>>();
    stream_manager.update_actor_info(info).unwrap();
    stream_manager
        .update_fragment(vec![
            fragment(1, vec![0], DispatcherType::Hash, vec![3]),
            fragment(3, vec![1], DispatcherType::Hash, vec![7, 11]),
            fragment(7, vec![3], DispatcherType::Hash, vec![13]),
            fragment(11, vec![3], DispatcherType::Simple, vec![13]),
            fragment(13, vec![7, 11], DispatcherType::Simple, vec![233]),
        ])
        .unwrap();
    stream_manager
        .build_fragment(&vec![1, 3, 7, 11, 13])
        .unwrap();

    for epoch in 0..100 {
        stream_manager.send(0, 1, barrier(epoch)).unwrap();
    }
    stream_manager.send(0, 1, stop()).unwrap();
    while stream_manager.step().unwrap() {}

    let sink = stream_manager.take_output(13, 233).unwrap();
    assert_eq!(sink.len(), 101);
    for (epoch, m) in sink.iter().take(100).enumerate() {
        assert!(matches!(
            m,
            Message::Barrier(Barrier {
                epoch: e,
                mutation: Mutation::Nothing
            }) if *e == epoch as u64
        ));
    }
    assert!(matches!(
        sink[100],
        Message::Barrier(Barrier {
            epoch: 0,
            mutation: Mutation::Stop
        })
    ));
    assert!(stream_manager.all_stopped());
}

#[test]
fn diamond_delivers_each_row_once() {
    let mut mgr = StreamManager::new();
    mgr.update_actor_info([1, 3, 7, 11, 13, 233].iter().cloned().map(helper_make_local_actor).collect())
        .unwrap();
    mgr.update_fragment(vec![
        fragment(1, vec![0], DispatcherType::Simple, vec![3]),
        fragment(3, vec![1], DispatcherType::Hash, vec![7, 11]),
        fragment(7, vec![3], DispatcherType::Simple, vec![13]),
        fragment(11, vec![3], DispatcherType::Simple, vec![13]),
        fragment(13, vec![7, 11], DispatcherType::Simple, vec![233]),
    ])
    .unwrap();
    mgr.build_fragment(&vec![1, 3, 7, 11, 13]).unwrap();
    mgr.send(0, 1, chunk((0..10).map(|v| vec![v, v * 10]).collect())).unwrap();
    mgr.send(0, 1, barrier(1)).unwrap();
    while mgr.step().unwrap() {}
    let out = mgr.take_output(13, 233).unwrap();
    let mut rows: Vec<Vec<i64>> = Vec::new();
    for m in &out[..out.len() - 1] {
        rows.extend(rows_of(m));
    }
    rows.sort();
    assert_eq!(rows, (0..10).map(|v| vec![v, v * 10]).collect::<Vec<_>>());
    assert!(matches!(out[out.len() - 1], Message::Barrier(Barrier { epoch: 1, .. })));
    assert!(!mgr.all_stopped());
}

#[test]
fn build_rejects_unresolved_actor_and_builds_nothing() {
    let mut mgr = StreamManager::new();
    mgr.update_actor_info(vec![helper_make_local_actor(1)]).unwrap();
    mgr.update_fragment(vec![
        fragment(1, vec![0], DispatcherType::Simple, vec![2]),
    ])
    .unwrap();
    assert_eq!(mgr.build_fragment(&vec![1]), Err(BuildError::UnresolvedActor(2)));
    assert_eq!(mgr.actors.len(), 0);
    assert_eq!(mgr.channels.len(), 0);
}

#[test]
fn build_errors() {
    let mut mgr = StreamManager::new();
    assert_eq!(
        mgr.update_actor_info(vec![helper_make_local_actor(1), helper_make_local_actor(1)]),
        Err(BuildError::DuplicateActor(1))
    );
    mgr.update_actor_info(vec![helper_make_local_actor(1), helper_make_local_actor(2)]).unwrap();
    assert_eq!(
        mgr.update_fragment(vec![
            fragment(1, vec![0], DispatcherType::Simple, vec![2]),
            fragment(1, vec![0], DispatcherType::Simple, vec![2]),
        ]),
        Err(BuildError::DuplicateFragment(1))
    );
    mgr.update_fragment(vec![
        fragment(1, vec![0], DispatcherType::Simple, vec![2]),
        fragment(2, vec![1], DispatcherType::Hash, vec![]),
    ])
    .unwrap();
    assert_eq!(
        mgr.update_fragment(vec![fragment(2, vec![], DispatcherType::Simple, vec![])]),
        Err(BuildError::DuplicateFragment(2))
    );
    assert_eq!(mgr.build_fragment(&vec![5]), Err(BuildError::UnknownFragment(5)));
    assert_eq!(mgr.build_fragment(&vec![1, 1]), Err(BuildError::DuplicateFragment(1)));
    assert_eq!(mgr.build_fragment(&vec![1, 2]), Err(BuildError::NoDownstream(2)));
    assert_eq!(mgr.actors.len(), 0);
    mgr.build_fragment(&vec![1]).unwrap();
    assert_eq!(mgr.build_fragment(&vec![1]), Err(BuildError::AlreadyBuilt(1)));
    assert_eq!(mgr.actors.len(), 1);
    assert_eq!(
        mgr.send(4, 1, barrier(0)),
        Err(RuntimeError::NoChannel { up: 4, down: 1 })
    );
}

#[test]
fn failing_actor_is_reported() {
    let mut mgr = StreamManager::new();
    mgr.update_actor_info(vec![helper_make_local_actor(1), helper_make_local_actor(2)]).unwrap();
    mgr.update_fragment(vec![StreamFragment {
        fragment_id: 1,
        upstream_fragment_id: vec![0],
        project: Some(vec![3]),
        dispatcher: None,
        downstream_fragment_id: vec![2],
    }])
    .unwrap();
    mgr.build_fragment(&vec![1]).unwrap();
    mgr.send(0, 1, chunk(vec![vec![1, 2]])).unwrap();
    assert_eq!(
        mgr.step(),
        Err(RuntimeError::ActorFailed {
            fragment_id: 1,
            error: ActorError::ProjectOutOfRange { column: 3 }
        })
    );
    mgr.send(0, 1, barrier(1)).unwrap();
    assert_eq!(mgr.step(), Ok(false));
}

#[test]
fn partition_is_euclidean_remainder() {
    assert_eq!(partition(7, 3), 1);
    assert_eq!(partition(-1, 3), 2);
    assert_eq!(partition(-3, 3), 0);
    assert_eq!(partition(i64::MIN, 10), 2);
    assert_eq!(partition(i64::MAX, 1), 0);
}

#[test]
fn hash_dispatch_splits_rows() {
    let mut d = Dispatcher::new(
        DispatcherDesc {
            dispatcher_type: DispatcherType::Hash,
            column_idx: 0,
        },
        2,
    )
    .unwrap();
    let out = d
        .dispatch(chunk(vec![vec![0], vec![1], vec![2], vec![3], vec![-1]]))
        .unwrap();
    assert_eq!(out.len(), 2);
    assert_eq!(rows_of(out[0].as_ref().unwrap()), vec![vec![0], vec![2]]);
    assert_eq!(rows_of(out[1].as_ref().unwrap()), vec![vec![1], vec![3], vec![-1]]);
    let out = d.dispatch(chunk(vec![vec![4]])).unwrap();
    assert!(out[1].is_none());
    assert_eq!(rows_of(out[0].as_ref().unwrap()), vec![vec![4]]);
    let out = d.dispatch(barrier(3)).unwrap();
    assert!(out.iter().all(|o| matches!(o, Some(Message::Barrier(Barrier { epoch: 3, .. })))));
}

#[test]
fn hash_dispatch_needs_the_column() {
    let mut d = Dispatcher::new(
        DispatcherDesc {
            dispatcher_type: DispatcherType::Hash,
            column_idx: 1,
        },
        2,
    )
    .unwrap();
    assert_eq!(
        d.dispatch(chunk(vec![vec![1, 2], vec![3]])).unwrap_err(),
        DispatchError::ColumnOutOfRange { column_idx: 1 }
    );
}

#[test]
fn round_robin_dispatch_rotates() {
    let mut d = Dispatcher::new(
        DispatcherDesc {
            dispatcher_type: DispatcherType::RoundRobin,
            column_idx: 0,
        },
        3,
    )
    .unwrap();
    for k in 0..7usize {
        let out = d.dispatch(chunk(vec![vec![k as i64]])).unwrap();
        for (j, o) in out.iter().enumerate() {
            assert_eq!(o.is_some(), j == k % 3);
        }
    }
    assert_eq!(d.next, 1);
    let out = d.dispatch(barrier(1)).unwrap();
    assert!(out.iter().all(|o| o.is_some()));
    assert_eq!(d.next, 1);
}

#[test]
fn dispatcher_needs_downstream() {
    let desc = |t| DispatcherDesc {
        dispatcher_type: t,
        column_idx: 0,
    };
    assert_eq!(
        Dispatcher::new(desc(DispatcherType::Hash), 0).unwrap_err(),
        DispatchError::NoDownstream
    );
    assert_eq!(
        Dispatcher::new(desc(DispatcherType::RoundRobin), 0).unwrap_err(),
        DispatchError::NoDownstream
    );
    assert!(Dispatcher::new(desc(DispatcherType::Simple), 0).is_ok());
}

#[test]
fn simple_dispatch_round_trip() {
    let mut d = Dispatcher::new(
        DispatcherDesc {
            dispatcher_type: DispatcherType::Simple,
            column_idx: 0,
        },
        1,
    )
    .unwrap();
    let rows = vec![vec![1, -2, 3], vec![i64::MAX, i64::MIN, 0]];
    let out = d.dispatch(chunk(rows.clone())).unwrap();
    assert_eq!(out.len(), 1);
    assert_eq!(rows_of(out[0].as_ref().unwrap()), rows);
}

#[test]
fn merger_aligns_barriers() {
    let mut m = Merger::new(2);
    assert!(m.on_message(0, barrier(5)).unwrap().is_none());
    assert!(!m.can_pull(0));
    assert_eq!(
        m.on_message(0, chunk(vec![vec![1]])).unwrap_err(),
        MergeError::Blocked { channel: 0 }
    );
    let c = m.on_message(1, chunk(vec![vec![2]])).unwrap().unwrap();
    assert_eq!(rows_of(&c), vec![vec![2]]);
    let merged = m.on_message(1, barrier(5)).unwrap().unwrap();
    assert!(matches!(merged, Message::Barrier(Barrier { epoch: 5, .. })));
    assert!(m.can_pull(0) && m.can_pull(1));
}

#[test]
fn merger_flags_epoch_regression_and_misalignment() {
    let mut m = Merger::new(2);
    m.on_message(0, barrier(5)).unwrap();
    assert_eq!(
        m.on_message(1, barrier(6)).unwrap_err(),
        MergeError::Misaligned { expected: 5, epoch: 6 }
    );
    m.on_message(1, barrier(5)).unwrap();
    assert_eq!(
        m.on_message(0, barrier(4)).unwrap_err(),
        MergeError::EpochRegression { channel: 0, last: 5, epoch: 4 }
    );
    assert!(m.on_message(0, barrier(5)).unwrap().is_none());
}

#[test]
fn merger_emits_one_stop_then_terminates() {
    let mut m = Merger::new(2);
    assert!(m.on_message(1, stop()).unwrap().is_none());
    let s = m.on_message(0, stop()).unwrap().unwrap();
    assert!(s.is_stop());
    assert_eq!(m.on_message(0, barrier(1)).unwrap_err(), MergeError::Terminated);
}

#[test]
fn actor_projects_and_stops() {
    let d = Dispatcher::new(
        DispatcherDesc {
            dispatcher_type: DispatcherType::Simple,
            column_idx: 0,
        },
        1,
    )
    .unwrap();
    let mut a = Actor::new(7, 1, Some(vec![2, 0]), d);
    assert_eq!(a.state, ActorState::Initializing);
    let out = a.on_input(0, chunk(vec![vec![1, 2, 3]])).unwrap();
    assert_eq!(rows_of(out[0].as_ref().unwrap()), vec![vec![3, 1]]);
    assert_eq!(a.state, ActorState::Running);
    let out = a.on_input(0, stop()).unwrap();
    assert!(out[0].as_ref().unwrap().is_stop());
    assert_eq!(a.state, ActorState::Stopped);
    assert_eq!(a.on_input(0, barrier(1)).unwrap_err(), ActorError::Stopped);
}

#[test]
fn actor_reports_merge_and_dispatch_errors() {
    let d = Dispatcher::new(
        DispatcherDesc {
            dispatcher_type: DispatcherType::Hash,
            column_idx: 4,
        },
        2,
    )
    .unwrap();
    let mut a = Actor::new(9, 1, None, d);
    assert_eq!(
        a.on_input(0, chunk(vec![vec![1]])).unwrap_err(),
        ActorError::Dispatch(DispatchError::ColumnOutOfRange { column_idx: 4 })
    );
    assert_eq!(a.state, ActorState::Initializing);
    assert!(a.on_input(0, barrier(8)).unwrap().len() == 2);
    assert_eq!(
        a.on_input(0, barrier(7)).unwrap_err(),
        ActorError::Merge(MergeError::EpochRegression { channel: 0, last: 8, epoch: 7 })
    );
    assert_eq!(a.state, ActorState::Running);
}

#[test]
fn source_actor_runs_at_once() {
    let d = Dispatcher::new(
        DispatcherDesc {
            dispatcher_type: DispatcherType::Simple,
            column_idx: 0,
        },
        0,
    )
    .unwrap();
    let a = Actor::new(1, 0, None, d);
    assert_eq!(a.state, ActorState::Running);
}

#[test]
fn registry_lookup() {
    let mut mgr = StreamManager::new();
    mgr.update_actor_info(vec![helper_make_local_actor(3), helper_make_local_actor(5)]).unwrap();
    let info = mgr.actor_info(5).unwrap();
    assert_eq!(info.fragment_id, 5);
    assert_eq!(info.host.as_ref().unwrap().port, PORT);
    assert!(mgr.actor_info(4).is_none());
    mgr.update_actor_info(vec![helper_make_local_actor(4)]).unwrap();
    assert!(mgr.actor_info(5).is_none());
    assert!(mgr.actor_info(4).is_some());
}

#[test]
fn build_wires_actors_to_their_channels() {
    let mut mgr = StreamManager::new();
    mgr.update_actor_info([1, 3, 7, 11, 13, 233].iter().cloned().map(helper_make_local_actor).collect())
        .unwrap();
    mgr.update_fragment(vec![
        fragment(1, vec![0], DispatcherType::Hash, vec![3]),
        fragment(3, vec![1], DispatcherType::Hash, vec![7, 11]),
        fragment(7, vec![3], DispatcherType::Hash, vec![13]),
        fragment(11, vec![3], DispatcherType::Simple, vec![13]),
        StreamFragment {
            fragment_id: 13,
            upstream_fragment_id: vec![7, 11],
            project: Some(vec![0]),
            dispatcher: None,
            downstream_fragment_id: vec![233],
        },
    ])
    .unwrap();
    mgr.build_fragment(&[1, 3, 7, 11, 13]).unwrap();
    for (a, actor) in mgr.actors.iter().enumerate() {
        for &ch in &mgr.inputs[a] {
            assert_eq!(mgr.channels[ch].down, actor.fragment_id);
        }
        for &ch in &mgr.outputs[a] {
            assert_eq!(mgr.channels[ch].up, actor.fragment_id);
        }
    }
    let sink = &mgr.actors[4];
    assert_eq!(sink.merger.arrived.len(), 2);
    assert_eq!(sink.dispatcher.kind, DispatcherType::Simple);
    assert_eq!(sink.dispatcher.outputs, 1);
    assert_eq!(sink.project, Some(vec![0]));
    let ups: Vec<u32> = mgr.inputs[4].iter().map(|&ch| mgr.channels[ch].up).collect();
    assert_eq!(ups, vec![7, 11]);
    let downs: Vec<u32> = mgr.outputs[1].iter().map(|&ch| mgr.channels[ch].down).collect();
    assert_eq!(downs, vec![7, 11]);
    assert_eq!(mgr.actors[1].dispatcher.kind, DispatcherType::Hash);
}

#[test]
fn step_moves_one_message() {
    let mut mgr = StreamManager::new();
    mgr.update_actor_info(vec![helper_make_local_actor(1), helper_make_local_actor(2)]).unwrap();
    mgr.update_fragment(vec![fragment(1, vec![0], DispatcherType::Simple, vec![2])]).unwrap();
    mgr.build_fragment(&[1]).unwrap();
    mgr.send(0, 1, chunk(vec![vec![5]])).unwrap();
    mgr.send(0, 1, barrier(2)).unwrap();
    assert_eq!(mgr.step(), Ok(true));
    let out = mgr.take_output(1, 2).unwrap();
    assert_eq!(out.len(), 1);
    assert_eq!(rows_of(&out[0]), vec![vec![5]]);
    assert_eq!(mgr.step(), Ok(true));
    assert_eq!(mgr.step(), Ok(false));
    let out = mgr.take_output(1, 2).unwrap();
    assert!(matches!(out[..], [Message::Barrier(Barrier { epoch: 2, .. })]));
}
