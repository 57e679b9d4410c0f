use fact_cli::errors::FactError;
use fact_cli::json::Json;
use fact_cli::sync_steps::{
    check_remote_pull_options, check_sync_file, is_sync_file, ledger_endpoint, ledgers_endpoint,
    absorb_fetched_objects, local_pull_message, merge_pulled_page, next_pull_cursor,
    remote_push_ledger,
};

#[test]
fn endpoints() {
    assert_eq!(ledgers_endpoint("https://x.test//"), "https://x.test/facts/ledgers");
    assert_eq!(
        ledger_endpoint("https://x.test/", 0x0190_0000_0000_7000_8000_0000_0000_0001, "object-pulls"),
        "https://x.test/facts/ledgers/01900000-0000-7000-8000-000000000001/object-pulls"
    );
}

#[test]
fn sync_files() {
    assert!(is_sync_file(b"FACTBNDL\x00\x01"));
    assert!(is_sync_file(b"FACTSNAP"));
    assert!(!is_sync_file(b"FACTBND"));
    assert!(!is_sync_file(b"factbndl...."));
    assert!(check_sync_file(b"FACTSNAPxyz").is_ok());
    match check_sync_file(b"{}") {
        Err(FactError::User(m)) => assert_eq!(m, "sync push requires a FACTBNDL or FACTSNAP file"),
        other => panic!("{other:?}"),
    }
    match remote_push_ledger(None) {
        Err(FactError::User(m)) => assert_eq!(m, "--ledger is required with --remote"),
        other => panic!("{other:?}"),
    }
    assert_eq!(remote_push_ledger(Some("l".to_owned())).unwrap(), "l");
    assert!(check_remote_pull_options(None, None).is_ok());
    match check_remote_pull_options(Some(3), None) {
        Err(FactError::User(m)) => assert_eq!(m, "--limit and --max-object-bytes are only supported for local pull"),
        other => panic!("{other:?}"),
    }
}

#[test]
fn pulled_pages_merge_by_hash() {
    let mut objects = vec![(vec![1u8], vec![10u8])];
    merge_pulled_page(
        &mut objects,
        vec![(vec![2], vec![20]), (vec![1], vec![99]), (vec![2], vec![21]), (vec![3], vec![30])],
    );
    assert_eq!(objects, vec![(vec![1], vec![10]), (vec![2], vec![20]), (vec![3], vec![30])]);
    merge_pulled_page(&mut objects, vec![]);
    assert_eq!(objects.len(), 3);
}

#[test]
fn cursors_and_messages() {
    let with = Json::Object(vec![(
        "body".to_owned(),
        Json::Object(vec![("next_cursor".to_owned(), Json::Str("c-2".to_owned()))]),
    )]);
    assert_eq!(next_pull_cursor(&with).as_deref(), Some("c-2"));
    assert_eq!(next_pull_cursor(&Json::Object(vec![])), None);
    assert_eq!(local_pull_message(4, &None), "pulled 4 object(s)");
    assert_eq!(local_pull_message(4, &Some("c".to_owned())), "pulled 4 object(s); next cursor c");
}

#[test]
fn fetched_dependencies_join_once_and_are_queued() {
    let mut objects = vec![(vec![1u8], vec![10u8])];
    let mut pending: Vec<Vec<u8>> = vec![vec![99u8]];
    let fetched = vec![
        (vec![2u8], vec![20u8]),
        (vec![1u8], vec![11u8]),
        (vec![3u8], vec![30u8]),
        (vec![2u8], vec![21u8]),
    ];
    absorb_fetched_objects(&mut objects, &mut pending, fetched);
    assert_eq!(
        objects,
        vec![(vec![1u8], vec![10u8]), (vec![2u8], vec![20u8]), (vec![3u8], vec![30u8])]
    );
    assert_eq!(pending, vec![vec![99u8], vec![20u8], vec![30u8]]);
}
