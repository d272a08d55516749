use dataflow::addr::{Link, NodeAddress, Tag};
use dataflow::backlog::Backlog;
use dataflow::data::{DataType, Record, Records, Row};
use dataflow::keyed::{KeyedState, LookupResult};
use dataflow::replay::ReplayRegistry;
use dataflow::transactions::{Gatekeeper, TxEntry};

fn irow(vals: Vec<i64>) -> Row {
    Row { cells: vals.into_iter().map(DataType::Int).collect() }
}

fn srow(i: i64, s: &str) -> Row {
    Row { cells: vec![DataType::Int(i), DataType::Text(s.to_string())] }
}

fn recs(rows: Vec<(Row, bool)>) -> Records {
    Records { recs: rows.into_iter().map(|(row, positive)| Record { row, positive }).collect() }
}

fn some_link() -> Link {
    Link::new(NodeAddress::Global(0), NodeAddress::Global(1))
}

#[test]
fn keyed_state_apply_and_lookup() {
    let mut st = KeyedState::new(vec![0], false);
    st.apply_records(&recs(vec![
        (srow(1, "a"), true),
        (srow(2, "b"), true),
        (srow(1, "c"), true),
    ]));
    match st.lookup(&irow(vec![1])) {
        LookupResult::Hit(rows) => {
            assert_eq!(rows.len(), 2);
            assert!(rows[0].same(&srow(1, "a")));
            assert!(rows[1].same(&srow(1, "c")));
        },
        LookupResult::Miss => panic!("full state never misses"),
    }
    // a negative record retracts the first matching row only
    st.apply_records(&recs(vec![(srow(1, "a"), false)]));
    match st.lookup(&irow(vec![1])) {
        LookupResult::Hit(rows) => {
            assert_eq!(rows.len(), 1);
            assert!(rows[0].same(&srow(1, "c")));
        },
        LookupResult::Miss => panic!("full state never misses"),
    }
    assert_eq!(st.row_count(), 2);
}

#[test]
fn partial_state_skips_holes() {
    let mut st = KeyedState::new(vec![0], true);
    // key 1 is a hole: the record is skipped
    st.apply_records(&recs(vec![(srow(1, "a"), true)]));
    assert!(matches!(st.lookup(&irow(vec![1])), LookupResult::Miss));
    st.mark_filled(irow(vec![1]));
    st.apply_records(&recs(vec![(srow(1, "b"), true)]));
    match st.lookup(&irow(vec![1])) {
        LookupResult::Hit(rows) => {
            assert_eq!(rows.len(), 1);
            assert!(rows[0].same(&srow(1, "b")));
        },
        LookupResult::Miss => panic!("filled key must hit"),
    }
}

#[test]
fn backlog_converges_and_serves_readers() {
    let mut b = Backlog::new(vec![0], false);
    b.write(&recs(vec![(srow(1, "a"), true), (srow(2, "b"), true)]));
    b.write(&recs(vec![(srow(2, "b"), false)]));
    assert_eq!(b.len(), 1);
    match b.lookup(&irow(vec![1])) {
        LookupResult::Hit(rows) => {
            assert_eq!(rows.len(), 1);
            assert!(rows[0].same(&srow(1, "a")));
        },
        LookupResult::Miss => panic!("full materialization never misses"),
    }
    match b.lookup(&irow(vec![2])) {
        LookupResult::Hit(rows) => assert_eq!(rows.len(), 0),
        LookupResult::Miss => panic!("full materialization never misses"),
    }
}

#[test]
fn duplicate_partial_replay_requests_coalesce() {
    let mut r = ReplayRegistry::new();
    let tag = Tag::new(1);
    // two near-simultaneous misses for key 7 issue one request
    assert!(r.request_partial(tag, irow(vec![7])));
    assert!(!r.request_partial(tag, irow(vec![7])));
    // a different key still goes out
    assert!(r.request_partial(tag, irow(vec![8])));
    // completion clears the flight and a later miss may ask again
    r.complete(tag, &irow(vec![7]));
    assert!(!r.is_in_flight(tag, &irow(vec![7])));
    assert!(r.request_partial(tag, irow(vec![7])));
}

#[test]
fn transactions_admit_in_timestamp_order() {
    let mut g = Gatekeeper::new(9);
    // ts=11 arrives first (channel jitter): it must wait for ts=10
    let ready = g.offer(TxEntry { ts: 11, prev: 10, link: some_link(), data: recs(vec![]) });
    assert_eq!(ready.len(), 0);
    let ready = g.offer(TxEntry { ts: 10, prev: 9, link: some_link(), data: recs(vec![]) });
    assert_eq!(ready.len(), 2);
    assert_eq!(ready[0].ts, 10);
    assert_eq!(ready[1].ts, 11);
}

#[test]
fn migration_window_holds_transactions() {
    let mut g = Gatekeeper::new(99);
    let ready = g.offer(TxEntry { ts: 100, prev: 99, link: some_link(), data: recs(vec![]) });
    assert_eq!(ready.len(), 1);
    assert_eq!(ready[0].ts, 100);
    g.start_migration(150, 100);
    // a transaction past the window's prev_ts is held
    let ready = g.offer(TxEntry { ts: 200, prev: 149, link: some_link(), data: recs(vec![]) });
    assert_eq!(ready.len(), 0);
    // completion resumes from the migration timestamp: ts=200 flows exactly once
    let ready = g.complete_migration(150);
    assert_eq!(ready.len(), 1);
    assert_eq!(ready[0].ts, 200);
    let ready = g.offer(TxEntry { ts: 201, prev: 200, link: some_link(), data: recs(vec![]) });
    assert_eq!(ready.len(), 1);
    assert_eq!(ready[0].ts, 201);
}
