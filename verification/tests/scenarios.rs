use dataflow::addr::{ChannelId, Link, LocalNodeIndex, NodeAddress, Tag};
use dataflow::backlog::Backlog;
use dataflow::checktable::{PrevTimestamp, TransactionState};
use dataflow::data::{DataType, Record, Records, Row};
use dataflow::domain::{Action, Domain, NodeEntry};
use dataflow::keyed::LookupResult;
use dataflow::packet::Packet;
use dataflow::replay::{ReplayPieceContext, TriggerEndpoint};
use dataflow::state::{InitialState, NodeDescriptor, NodeKind, NodeState};

fn irow(vals: Vec<i64>) -> Row {
    Row { cells: vals.into_iter().map(DataType::Int).collect() }
}

fn srow(i: i64, s: &str) -> Row {
    Row { cells: vec![DataType::Int(i), DataType::Text(s.to_string())] }
}

fn recs(rows: Vec<(Row, bool)>) -> Records {
    Records { recs: rows.into_iter().map(|(row, positive)| Record { row, positive }).collect() }
}

fn local(i: usize) -> NodeAddress {
    NodeAddress::Local(LocalNodeIndex::new(i))
}

fn desc(id: usize, kind: NodeKind, children: Vec<usize>) -> NodeDescriptor {
    NodeDescriptor {
        addr: NodeAddress::Global(id),
        kind,
        children: children.into_iter().map(LocalNodeIndex::new).collect(),
        streamers: vec![],
    }
}

fn add_node(d: &mut Domain, nd: NodeDescriptor) {
    let acts = d.handle(Packet::AddNode { node: nd, parents: vec![] });
    assert_eq!(acts.len(), 0);
}

/// Run a packet to quiescence: local hand-offs are re-injected in order, and
/// everything else is collected.
fn run(d: &mut Domain, p: Packet) -> Vec<Action> {
    let mut queue = vec![p];
    let mut emitted = Vec::new();
    while !queue.is_empty() {
        let pk = queue.remove(0);
        for a in d.handle(pk) {
            match a {
                Action::SendLocal { packet } => queue.push(packet),
                other => emitted.push(other),
            }
        }
    }
    emitted
}

fn reader_rows(d: &Domain, node: usize, key: Row) -> Option<Vec<Row>> {
    match &d.nodes[node].state {
        NodeState::Glob(b) => match b.lookup(&key) {
            LookupResult::Hit(rows) => Some(rows),
            LookupResult::Miss => None,
        },
        _ => panic!("node {} is not a reader", node),
    }
}

/// A base feeding a filter (keep odd first column) feeding a reader indexed
/// by the first column.
fn filter_chain() -> Domain {
    let mut d = Domain::new(0, ChannelId::new(0), 0);
    add_node(&mut d, desc(0, NodeKind::Base { fields: vec![], defaults: vec![] }, vec![1]));
    add_node(&mut d, desc(1, NodeKind::Filter { col: 0 }, vec![2]));
    add_node(&mut d, desc(2, NodeKind::Reader, vec![]));
    let acts = d.handle(Packet::PrepareState {
        node: LocalNodeIndex::new(2),
        state: InitialState::PartialGlobal(Backlog::new(vec![0], false)),
    });
    assert_eq!(acts.len(), 0);
    d
}

#[test]
fn base_filter_reader_chain() {
    let mut d = filter_chain();
    let emitted = run(
        &mut d,
        Packet::Message {
            link: Link::new(NodeAddress::Global(0), local(1)),
            data: recs(vec![(srow(1, "a"), true), (srow(2, "b"), true)]),
            tracer: None,
        },
    );
    assert_eq!(emitted.len(), 0);
    let hit = reader_rows(&d, 2, irow(vec![1])).expect("full reader never misses");
    assert_eq!(hit.len(), 1);
    assert!(hit[0].same(&srow(1, "a")));
    // the even row was filtered out: an empty result, not a miss
    let empty = reader_rows(&d, 2, irow(vec![2])).expect("full reader never misses");
    assert_eq!(empty.len(), 0);
}

#[test]
fn empty_updates_are_not_forwarded() {
    let mut d = filter_chain();
    // the filter drops the only row; nothing reaches the reader, and the
    // reader sees no write at all
    let emitted = run(
        &mut d,
        Packet::Message {
            link: Link::new(NodeAddress::Global(0), local(1)),
            data: recs(vec![(srow(2, "b"), true)]),
            tracer: None,
        },
    );
    assert_eq!(emitted.len(), 0);
    // only the packet itself was handled: no local hand-off happened
    let empty = reader_rows(&d, 2, irow(vec![2])).expect("full reader never misses");
    assert_eq!(empty.len(), 0);
}

#[test]
fn processing_is_deterministic() {
    let mut d1 = filter_chain();
    let mut d2 = filter_chain();
    let data = || vec![(srow(1, "a"), true), (srow(3, "c"), true), (srow(1, "a"), false)];
    let p1 = Packet::Message {
        link: Link::new(NodeAddress::Global(0), local(1)),
        data: recs(data()),
        tracer: None,
    };
    let p2 = Packet::Message {
        link: Link::new(NodeAddress::Global(0), local(1)),
        data: recs(data()),
        tracer: None,
    };
    let e1 = run(&mut d1, p1);
    let e2 = run(&mut d2, p2);
    assert_eq!(e1.len(), e2.len());
    for key in [vec![1], vec![3]] {
        let r1 = reader_rows(&d1, 2, irow(key.clone())).unwrap();
        let r2 = reader_rows(&d2, 2, irow(key)).unwrap();
        assert_eq!(r1.len(), r2.len());
        for (a, b) in r1.iter().zip(r2.iter()) {
            assert!(a.same(b));
        }
    }
}

#[test]
fn clone_data_feeds_independent_sinks_identically() {
    let d_mk = || filter_chain();
    let p = Packet::Message {
        link: Link::new(NodeAddress::Global(0), local(1)),
        data: recs(vec![(srow(1, "a"), true), (srow(5, "e"), true)]),
        tracer: None,
    };
    let c = p.clone_data();
    let mut d1 = d_mk();
    let mut d2 = d_mk();
    run(&mut d1, p);
    run(&mut d2, c);
    for key in [vec![1], vec![5]] {
        let r1 = reader_rows(&d1, 2, irow(key.clone())).unwrap();
        let r2 = reader_rows(&d2, 2, irow(key)).unwrap();
        assert_eq!(r1.len(), r2.len());
        for (a, b) in r1.iter().zip(r2.iter()) {
            assert!(a.same(b));
        }
    }
}

/// A stateful source and a partial reader joined by a replay path.
fn partial_pair() -> Domain {
    let mut d = Domain::new(0, ChannelId::new(0), 0);
    add_node(&mut d, desc(0, NodeKind::Base { fields: vec![], defaults: vec![] }, vec![]));
    add_node(&mut d, desc(1, NodeKind::Reader, vec![]));
    let acts = d.handle(Packet::PrepareState {
        node: LocalNodeIndex::new(0),
        state: InitialState::IndexedLocal(vec![vec![0]]),
    });
    assert_eq!(acts.len(), 0);
    let acts = d.handle(Packet::PrepareState {
        node: LocalNodeIndex::new(1),
        state: InitialState::PartialGlobal(Backlog::new(vec![0], true)),
    });
    assert_eq!(acts.len(), 0);
    let acts = d.handle(Packet::SetupReplayPath {
        tag: Tag::new(1),
        source: Some(local(0)),
        path: vec![(local(1), Some(0))],
        done_tx: None,
        trigger: TriggerEndpoint::Local(vec![0]),
        ack: ChannelId::new(7),
    });
    assert!(matches!(acts[0], Action::Ack { channel: ChannelId { id: 7 } }));
    // seed the source with the row the reader will ask for
    run(
        &mut d,
        Packet::Message {
            link: Link::new(NodeAddress::Global(0), local(0)),
            data: recs(vec![(srow(5, "x"), true)]),
            tracer: None,
        },
    );
    d
}

#[test]
fn partial_replay_fills_a_missing_key() {
    let mut d = partial_pair();
    // the reader misses: the key is a hole until a replay fills it
    assert!(reader_rows(&d, 1, irow(vec![5])).is_none());
    let emitted = run(
        &mut d,
        Packet::RequestPartialReplay { tag: Tag::new(1), key: irow(vec![5]) },
    );
    assert_eq!(emitted.len(), 0);
    let hit = reader_rows(&d, 1, irow(vec![5])).expect("replay fills the key");
    assert_eq!(hit.len(), 1);
    assert!(hit[0].same(&srow(5, "x")));
}

#[test]
fn duplicate_misses_produce_one_replay() {
    let mut d = partial_pair();
    // two near-simultaneous misses for the same key: the first request goes
    // out, the second coalesces into it
    let first = d.handle(Packet::RequestPartialReplay { tag: Tag::new(1), key: irow(vec![7]) });
    assert_eq!(first.len(), 1);
    assert!(matches!(first[0], Action::SendLocal { .. }));
    let second = d.handle(Packet::RequestPartialReplay { tag: Tag::new(1), key: irow(vec![7]) });
    assert_eq!(second.len(), 0);
}

#[test]
fn captured_piece_resumes_once() {
    let mut d = Domain::new(0, ChannelId::new(0), 0);
    add_node(&mut d, desc(0, NodeKind::PairJoin { held: None }, vec![1]));
    add_node(&mut d, desc(1, NodeKind::Reader, vec![]));
    let acts = d.handle(Packet::PrepareState {
        node: LocalNodeIndex::new(1),
        state: InitialState::PartialGlobal(Backlog::new(vec![0], false)),
    });
    assert_eq!(acts.len(), 0);
    let piece = |row: Row| Packet::ReplayPiece {
        link: Link::new(NodeAddress::Global(9), local(0)),
        tag: Tag::new(1),
        data: recs(vec![(row, true)]),
        context: ReplayPieceContext::Partial { for_key: irow(vec![5]), ignore: false },
        transaction_state: None,
    };
    // one side only: the join captures the piece, nothing is forwarded
    let acts = d.handle(piece(srow(5, "left")));
    assert_eq!(acts.len(), 0);
    assert!(reader_rows(&d, 1, irow(vec![5])).unwrap().is_empty());
    // the other side arrives: the combined replay goes downstream exactly once
    let acts = d.handle(piece(srow(5, "right")));
    assert_eq!(acts.len(), 1);
    let forwarded = match acts.into_iter().next().unwrap() {
        Action::SendLocal { packet } => packet,
        _ => panic!("the released piece is a local hand-off"),
    };
    assert_eq!(forwarded.data().len(), 2);
    let emitted = run(&mut d, forwarded);
    assert_eq!(emitted.len(), 0);
    let rows = reader_rows(&d, 1, irow(vec![5])).unwrap();
    assert_eq!(rows.len(), 2);
    assert!(rows[0].same(&srow(5, "left")));
    assert!(rows[1].same(&srow(5, "right")));
}

#[test]
fn ignored_piece_touches_nothing() {
    let mut d = partial_pair();
    let acts = d.handle(Packet::ReplayPiece {
        link: Link::new(NodeAddress::Global(0), local(1)),
        tag: Tag::new(1),
        data: recs(vec![(srow(5, "x"), true)]),
        context: ReplayPieceContext::Partial { for_key: irow(vec![5]), ignore: true },
        transaction_state: None,
    });
    assert_eq!(acts.len(), 0);
    assert!(reader_rows(&d, 1, irow(vec![5])).is_none());
}

fn committed(ts: i64, prev: i64, row: Row) -> Packet {
    Packet::Transaction {
        link: Link::new(NodeAddress::Global(0), local(0)),
        data: recs(vec![(row, true)]),
        state: TransactionState::Committed(ts, 0, Some(vec![PrevTimestamp { domain: 0, ts: prev }])),
        tracer: None,
    }
}

#[test]
fn transactions_apply_in_timestamp_order_across_jitter() {
    let mut d = Domain::new(0, ChannelId::new(0), 9);
    add_node(&mut d, desc(0, NodeKind::Base { fields: vec![], defaults: vec![] }, vec![1]));
    add_node(&mut d, desc(1, NodeKind::Reader, vec![]));
    let _ = d.handle(Packet::PrepareState {
        node: LocalNodeIndex::new(1),
        state: InitialState::PartialGlobal(Backlog::new(vec![0], false)),
    });
    // ts=11 arrives before ts=10: nothing flows yet
    let acts = d.handle(committed(11, 10, srow(11, "second")));
    assert_eq!(acts.len(), 0);
    // ts=10 arrives: both flow, in timestamp order
    let acts = d.handle(committed(10, 9, srow(10, "first")));
    assert_eq!(acts.len(), 2);
    let mut order = Vec::new();
    for a in acts {
        match a {
            Action::SendLocal { packet } => {
                match &packet.data().recs[0].row.cells[0] {
                    DataType::Int(v) => order.push(*v),
                    _ => panic!("integer key expected"),
                }
                run(&mut d, packet);
            },
            _ => panic!("admitted transactions re-enter locally"),
        }
    }
    assert_eq!(order, vec![10, 11]);
}

#[test]
fn migration_is_atomic_for_every_transaction() {
    let mut d = Domain::new(0, ChannelId::new(0), 99);
    add_node(&mut d, desc(0, NodeKind::Base { fields: vec![], defaults: vec![] }, vec![]));
    let acts = d.handle(committed(100, 99, irow(vec![1])));
    assert_eq!(acts.len(), 1);
    let acts = d.handle(Packet::StartMigration { at: 150, prev_ts: 100, ack: ChannelId::new(3) });
    assert!(matches!(acts[0], Action::Ack { channel: ChannelId { id: 3 } }));
    // a transaction after the boundary is held while the window is open
    let acts = d.handle(committed(200, 149, irow(vec![2])));
    assert_eq!(acts.len(), 0);
    // adding a node during the window; it sees no transaction below the boundary
    add_node(&mut d, desc(1, NodeKind::Base { fields: vec![], defaults: vec![] }, vec![]));
    // completion releases the held transaction exactly once
    let acts = d.handle(Packet::CompleteMigration { at: 150, ingress_from_base: vec![(0, 1)] });
    assert_eq!(acts.len(), 1);
    match &acts[0] {
        Action::SendLocal { packet } => match &packet.data().recs[0].row.cells[0] {
            DataType::Int(v) => assert_eq!(*v, 2),
            _ => panic!("integer key expected"),
        },
        _ => panic!("released transaction re-enters locally"),
    }
    let acts = d.handle(Packet::CompleteMigration { at: 150, ingress_from_base: vec![] });
    assert!(matches!(acts[0], Action::Fatal));
}

#[test]
fn statistics_and_probes() {
    let mut d = filter_chain();
    run(
        &mut d,
        Packet::Message {
            link: Link::new(NodeAddress::Global(0), local(1)),
            data: recs(vec![(srow(1, "a"), true)]),
            tracer: None,
        },
    );
    let acts = d.handle(Packet::StateSizeProbe {
        node: LocalNodeIndex::new(2),
        ack: ChannelId::new(4),
    });
    match &acts[0] {
        Action::ReplySize { channel, size } => {
            assert_eq!(channel.id, 4);
            assert_eq!(*size, 1);
        },
        _ => panic!("a probe is answered with a size"),
    }
    let acts = d.handle(Packet::GetStatistics(ChannelId::new(5)));
    match &acts[0] {
        Action::ReplyStats { channel, domain, nodes } => {
            assert_eq!(channel.id, 5);
            // three node additions, one prepare, one message, one hand-off,
            // one probe, and this request
            assert_eq!(domain.total_packets_processed, 8);
            assert_eq!(nodes.len(), 3);
            assert_eq!(nodes[2].1.rows_materialized, 1);
        },
        _ => panic!("statistics are answered in one reply"),
    }
    let acts = d.handle(Packet::Quit);
    assert_eq!(acts.len(), 0);
    assert!(!d.running);
}

#[test]
fn traced_packets_report_their_steps() {
    let mut d = filter_chain();
    let emitted = run(
        &mut d,
        Packet::Message {
            link: Link::new(NodeAddress::Global(0), local(1)),
            data: recs(vec![(srow(1, "a"), true)]),
            tracer: Some(ChannelId::new(6)),
        },
    );
    // the filter hop reports Handle and Process; the reader hop adds
    // ReachedReader
    let traces: Vec<_> = emitted
        .iter()
        .filter(|a| matches!(a, Action::Trace { .. }))
        .collect();
    assert_eq!(traces.len(), 5);
}

#[test]
fn full_replay_ships_state_downstream() {
    let mut d = partial_pair();
    // a second, full reader fed by the same source
    add_node(&mut d, desc(2, NodeKind::Reader, vec![]));
    let _ = d.handle(Packet::PrepareState {
        node: LocalNodeIndex::new(2),
        state: InitialState::PartialGlobal(Backlog::new(vec![0], false)),
    });
    let _ = d.handle(Packet::SetupReplayPath {
        tag: Tag::new(2),
        source: Some(local(0)),
        path: vec![(local(2), Some(0))],
        done_tx: Some(ChannelId::new(9)),
        trigger: TriggerEndpoint::NoTrigger,
        ack: ChannelId::new(8),
    });
    let emitted = run(
        &mut d,
        Packet::StartReplay { tag: Tag::new(2), from: local(0), ack: ChannelId::new(10) },
    );
    // the start is acked, and the drained path fires its completion
    assert_eq!(emitted.len(), 2);
    assert!(matches!(emitted[0], Action::Ack { channel: ChannelId { id: 10 } }));
    assert!(matches!(emitted[1], Action::Ack { channel: ChannelId { id: 9 } }));
    let rows = reader_rows(&d, 2, irow(vec![5])).expect("full replay fills the reader");
    assert_eq!(rows.len(), 1);
    assert!(rows[0].same(&srow(5, "x")));
}

#[test]
fn misaddressed_packets_are_fatal() {
    let mut d = filter_chain();
    let acts = d.handle(Packet::Message {
        link: Link::new(NodeAddress::Global(0), local(9)),
        data: recs(vec![]),
        tracer: None,
    });
    assert!(matches!(acts[0], Action::Fatal));
    let acts = d.handle(Packet::RequestPartialReplay { tag: Tag::new(77), key: irow(vec![1]) });
    assert!(matches!(acts[0], Action::Fatal));
}

#[test]
fn nodes_are_wired_under_their_parents() {
    let mut d = Domain::new(0, ChannelId::new(0), 0);
    add_node(&mut d, desc(0, NodeKind::Base { fields: vec![], defaults: vec![] }, vec![]));
    let acts = d.handle(Packet::AddNode {
        node: desc(1, NodeKind::Reader, vec![]),
        parents: vec![LocalNodeIndex::new(0)],
    });
    assert_eq!(acts.len(), 0);
    assert_eq!(d.nodes[0].desc.children.len(), 1);
    assert_eq!(d.nodes[0].desc.children[0].id, 1);
    let _: &NodeEntry = &d.nodes[1];
}
