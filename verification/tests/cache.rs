use scorecache::lookup::Error;
use scorecache::lookup::SubmitQuery;
use scorecache::lookup::fetch_user;
use scorecache::lookup::parse_id;
use scorecache::refresh::FetchError;
use scorecache::scores::IncomingUser;
use scorecache::snapshot::Snapshot;
use scorecache::store::SnapshotStore;

fn store_with(records: Vec<IncomingUser>) -> SnapshotStore {
    let mut store = SnapshotStore::new();
    let installed = store.apply_fetch_result(Ok(records));
    assert!(installed);
    store
}

#[test]
fn absence_on_empty_snapshot() {
    let store = SnapshotStore::new();
    assert_eq!(store.get(1), None);
}

#[test]
fn duplicate_ids_last_write_wins() {
    let store = store_with(vec![
        IncomingUser { xp: 1, id: 5 },
        IncomingUser { xp: 2, id: 5 },
    ]);
    assert_eq!(store.get(5), Some(2));
}

#[test]
fn failed_cycle_keeps_previous_snapshot() {
    let mut store = store_with(vec![IncomingUser { xp: 42, id: 7 }]);
    assert_eq!(store.get(7), Some(42));
    let installed = store.apply_fetch_result(Err(FetchError::Unreachable));
    assert!(!installed);
    assert_eq!(store.get(7), Some(42));
    let installed = store.apply_fetch_result(Err(FetchError::MalformedPayload));
    assert!(!installed);
    assert_eq!(store.get(7), Some(42));
}

#[test]
fn refresh_cycles_end_to_end() {
    let mut store = store_with(vec![IncomingUser { xp: 500, id: 1 }]);
    assert_eq!(store.get(1), Some(500));
    let installed = store.apply_fetch_result(Ok(vec![
        IncomingUser { xp: 700, id: 1 },
        IncomingUser { xp: 10, id: 2 },
    ]));
    assert!(installed);
    assert_eq!(store.get(1), Some(700));
    assert_eq!(store.get(2), Some(10));
    assert_eq!(store.get(3), None);
}

#[test]
fn replace_twice_is_replace_once() {
    let records = vec![
        IncomingUser { xp: 11, id: 1 },
        IncomingUser { xp: 22, id: 2 },
    ];
    let mut store = SnapshotStore::new();
    store.replace(Snapshot::from_records(&records));
    let first = (store.get(1), store.get(2), store.get(3));
    store.replace(Snapshot::from_records(&records));
    let second = (store.get(1), store.get(2), store.get(3));
    assert_eq!(first, second);
    assert_eq!(second, (Some(11), Some(22), None));
}

#[test]
fn lookup_answers_from_one_whole_snapshot() {
    let mut store = SnapshotStore::new();
    store.replace(Snapshot::from_records(&vec![IncomingUser { xp: 10, id: 1 }]));
    assert_eq!(store.get(1), Some(10));
    store.replace(Snapshot::from_records(&vec![IncomingUser { xp: 99, id: 1 }]));
    assert_eq!(store.get(1), Some(99));
}

#[test]
fn empty_batch_clears_the_snapshot() {
    let mut store = store_with(vec![IncomingUser { xp: 500, id: 1 }]);
    let installed = store.apply_fetch_result(Ok(Vec::new()));
    assert!(installed);
    assert_eq!(store.get(1), None);
}

#[test]
fn parse_id_accepts_decimal_u64() {
    assert_eq!(parse_id("0"), Ok(0));
    assert_eq!(parse_id("123"), Ok(123));
    assert_eq!(parse_id("+7"), Ok(7));
    assert_eq!(parse_id("007"), Ok(7));
    assert_eq!(parse_id("18446744073709551615"), Ok(u64::MAX));
}

#[test]
fn parse_id_rejects_what_is_not_a_u64() {
    assert_eq!(parse_id(""), Err(Error::UnparseableId));
    assert_eq!(parse_id("+"), Err(Error::UnparseableId));
    assert_eq!(parse_id("++1"), Err(Error::UnparseableId));
    assert_eq!(parse_id("-1"), Err(Error::UnparseableId));
    assert_eq!(parse_id("12a"), Err(Error::UnparseableId));
    assert_eq!(parse_id(" 12"), Err(Error::UnparseableId));
    assert_eq!(parse_id("18446744073709551616"), Err(Error::UnparseableId));
    assert_eq!(parse_id("99999999999999999999999"), Err(Error::UnparseableId));
}

#[test]
fn parse_id_matches_std_parse() {
    for text in [
        "", "+", "0", "+0", "42", "007", "12a", "a12", "-3", " 5", "5 ",
        "18446744073709551615", "18446744073709551616", "1844674407370955161",
        "18446744073709551610", "18446744073709551619",
    ] {
        let expected: Result<u64, _> = text.parse::<u64>();
        match (parse_id(text), expected) {
            (Ok(got), Ok(want)) => assert_eq!(got, want, "text {text:?}"),
            (Err(Error::UnparseableId), Err(_)) => {}
            (got, want) => panic!("text {text:?}: got {got:?}, std gives {want:?}"),
        }
    }
}

#[test]
fn query_without_id_is_the_landing_page() {
    let store = SnapshotStore::new();
    let query = SubmitQuery { id: None };
    assert_eq!(fetch_user(&store, &query), Ok(None));
}

#[test]
fn query_with_malformed_id_is_unparseable() {
    let store = store_with(vec![IncomingUser { xp: 500, id: 1 }]);
    let query = SubmitQuery {
        id: Some("not-a-number".to_string()),
    };
    assert_eq!(fetch_user(&store, &query), Err(Error::UnparseableId));
}

#[test]
fn query_for_absent_id_is_unknown() {
    let store = store_with(vec![IncomingUser { xp: 500, id: 1 }]);
    let query = SubmitQuery {
        id: Some("2".to_string()),
    };
    assert_eq!(fetch_user(&store, &query), Err(Error::UnknownId));
}

#[test]
fn query_hit_reports_score_and_level() {
    let store = store_with(vec![IncomingUser { xp: 3255, id: 9 }]);
    let query = SubmitQuery {
        id: Some("9".to_string()),
    };
    let answer = fetch_user(&store, &query)
        .expect("lookup should succeed")
        .expect("an id was submitted");
    assert_eq!(answer.id, 9);
    assert_eq!(answer.xp, 3255);
    assert_eq!(answer.level, mee6::LevelInfo::new(3255).level());
    assert_eq!(answer.level, 8);
}

#[test]
fn query_hit_at_the_maximal_score() {
    let store = store_with(vec![IncomingUser { xp: u64::MAX, id: 3 }]);
    let query = SubmitQuery {
        id: Some("3".to_string()),
    };
    let answer = fetch_user(&store, &query)
        .expect("lookup should succeed")
        .expect("an id was submitted");
    assert_eq!(answer.xp, u64::MAX);
    assert_eq!(answer.level, mee6::LevelInfo::new(u64::MAX - 1).level());
}

#[test]
fn query_hit_at_level_zero() {
    let store = store_with(vec![IncomingUser { xp: 0, id: 4 }]);
    let query = SubmitQuery {
        id: Some("4".to_string()),
    };
    let answer = fetch_user(&store, &query)
        .expect("lookup should succeed")
        .expect("an id was submitted");
    assert_eq!(answer.xp, 0);
    assert_eq!(answer.level, 0);
}
