use dataflow::addr::{ChannelId, Link, LocalNodeIndex, NodeAddress, Tag};
use dataflow::data::{DataType, Record, Records, Row};
use dataflow::packet::Packet;
use dataflow::state::{InitialState, InitialStateDef};
use dataflow::trace::PacketEvent;
use dataflow::endpoint::{vote_next, VoteDir, VoteEvent, VoteStep};

fn row(vals: Vec<i64>) -> Row {
    Row { cells: vals.into_iter().map(DataType::Int).collect() }
}

fn recs(rows: Vec<(Vec<i64>, bool)>) -> Records {
    Records {
        recs: rows.into_iter().map(|(r, positive)| Record { row: row(r), positive }).collect(),
    }
}

fn msg(data: Records) -> Packet {
    Packet::Message {
        link: Link::new(NodeAddress::Global(0), NodeAddress::Local(LocalNodeIndex::new(1))),
        data,
        tracer: None,
    }
}

#[test]
fn link_new_keeps_endpoints() {
    let l = Link::new(NodeAddress::Global(3), NodeAddress::Local(LocalNodeIndex::new(7)));
    assert!(matches!(l.src, NodeAddress::Global(3)));
    match l.dst {
        NodeAddress::Local(i) => assert_eq!(i.id, 7),
        _ => panic!("dst should be local"),
    }
}

#[test]
fn packet_link_and_is_empty() {
    let p = msg(recs(vec![(vec![1], true)]));
    assert!(matches!(p.link().src, NodeAddress::Global(0)));
    assert!(!p.is_empty());
    let empty = msg(recs(vec![]));
    assert!(empty.is_empty());
}

#[test]
fn packet_link_mut_rewrites() {
    let mut p = msg(recs(vec![(vec![1], true)]));
    *p.link_mut() = Link::new(NodeAddress::Global(9), NodeAddress::Global(10));
    assert!(matches!(p.link().src, NodeAddress::Global(9)));
    assert!(matches!(p.link().dst, NodeAddress::Global(10)));
}

#[test]
fn packet_is_regular_and_tag() {
    let p = msg(recs(vec![]));
    assert!(p.is_regular());
    assert!(p.tag().is_none());
    let rp = Packet::ReplayPiece {
        link: Link::new(NodeAddress::Global(0), NodeAddress::Global(1)),
        tag: Tag::new(4),
        data: recs(vec![]),
        context: dataflow::replay::ReplayPieceContext::Regular { last: false },
        transaction_state: None,
    };
    assert!(!rp.is_regular());
    assert_eq!(rp.tag().unwrap().id(), 4);
}

#[test]
fn packet_data_take_and_clone() {
    let p = msg(recs(vec![(vec![1, 2], true), (vec![3], false)]));
    assert_eq!(p.data().len(), 2);
    let c = p.clone_data();
    assert_eq!(c.data().len(), 2);
    let mut p2 = p;
    let taken = p2.take_data();
    assert_eq!(taken.len(), 2);
    assert!(matches!(p2, Packet::Empty));
}

#[test]
fn packet_map_data_rewrites_records() {
    let mut p = msg(recs(vec![(vec![1], true), (vec![2], true)]));
    p.map_data(|mut d: Records| {
        d.push(Record { row: row(vec![3]), positive: false });
        d
    });
    assert_eq!(p.data().len(), 3);
    assert!(!p.data().recs[2].positive);
}

#[test]
fn packet_trace_emission() {
    let traced = Packet::Message {
        link: Link::new(NodeAddress::Global(0), NodeAddress::Global(1)),
        data: recs(vec![]),
        tracer: Some(ChannelId::new(5)),
    };
    let e = traced.trace(PacketEvent::Handle).unwrap();
    assert_eq!(e.0.id, 5);
    assert_eq!(e.1, 0);
    assert!(matches!(e.2, PacketEvent::Handle));
    let silent = msg(recs(vec![]));
    assert!(silent.trace(PacketEvent::Handle).is_none());
    let control = Packet::Quit;
    assert!(control.trace(PacketEvent::Handle).is_none());
}

#[test]
fn packet_tracer_access() {
    let mut p = Packet::Message {
        link: Link::new(NodeAddress::Global(0), NodeAddress::Global(1)),
        data: recs(vec![]),
        tracer: None,
    };
    match p.tracer() {
        Some(t) => *t = Some(ChannelId::new(8)),
        None => panic!("regular packet has a tracer slot"),
    }
    assert!(p.trace(PacketEvent::Process).is_some());
    let mut q = Packet::Quit;
    assert!(q.tracer().is_none());
}

#[test]
fn initial_state_serializable_def() {
    let s = InitialState::PartialLocal(2);
    match s.serializable_def() {
        Some(InitialStateDef::PartialLocal(2)) => {},
        _ => panic!("partial local state has a description"),
    }
    let g = InitialState::IndexedLocal(vec![vec![0, 1]]);
    match g.serializable_def() {
        Some(InitialStateDef::IndexedLocal(v)) => assert_eq!(v, vec![vec![0, 1]]),
        _ => panic!("indexed local state has a description"),
    }
    let pg = InitialState::PartialGlobal(dataflow::backlog::Backlog::new(vec![0], true));
    assert!(pg.serializable_def().is_none());
    match InitialStateDef::Global.into_state() {
        InitialState::Global => {},
        _ => panic!("global description rebuilds the global state"),
    }
}

#[test]
fn vote_endpoint_builds_the_insert_row() {
    let step = VoteStep::LookupComment;
    let step = vote_next(
        step,
        VoteEvent::CommentRow { story: DataType::Int(42), comment: DataType::Int(7) },
        DataType::Int(3),
        VoteDir::Up,
    )
    .unwrap();
    let step = vote_next(step, VoteEvent::ExistingChecked, DataType::Int(3), VoteDir::Up).unwrap();
    match &step {
        VoteStep::Insert { row } => {
            assert_eq!(row.cells.len(), 4);
            assert!(row.cells[0].same(&DataType::Int(3)));
            assert!(row.cells[1].same(&DataType::Int(42)));
            assert!(row.cells[2].same(&DataType::Int(7)));
            assert!(row.cells[3].same(&DataType::Int(1)));
        },
        _ => panic!("after the existence check comes the insert"),
    }
    let step = vote_next(step, VoteEvent::Inserted, DataType::Int(3), VoteDir::Up).unwrap();
    assert!(matches!(step, VoteStep::Done));
    // a down-vote stores zero
    let s2 = vote_next(
        VoteStep::LookupExisting { story: DataType::Int(1), comment: DataType::Int(2) },
        VoteEvent::ExistingChecked,
        DataType::Int(9),
        VoteDir::Down,
    )
    .unwrap();
    match s2 {
        VoteStep::Insert { row } => assert!(row.cells[3].same(&DataType::Int(0))),
        _ => panic!("insert expected"),
    }
    // an event that does not answer the step fails the request
    assert!(vote_next(
        VoteStep::LookupComment,
        VoteEvent::Inserted,
        DataType::Int(1),
        VoteDir::Up
    )
    .is_none());
}
