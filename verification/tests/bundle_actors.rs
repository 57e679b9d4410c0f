use fact_cli::bundle_actors::identity_bundle_actor_ids;
use fact_cli::errors::FactError;

fn object(text: &str) -> Option<Vec<u8>> {
    Some(text.as_bytes().to_vec())
}

#[test]
fn bundle_actors_are_listed_in_id_order() {
    let payloads = vec![
        object(r#"{"object_type":"actor","id":"01900000-0000-7000-8000-000000000002"}"#),
        None,
        object(r#"{"object_type":"actor_key_binding","id":"x"}"#),
        object("not json"),
        object(r#"{"object_type":"actor","id":"01900000-0000-7000-8000-000000000001"}"#),
    ];
    assert_eq!(
        identity_bundle_actor_ids(&payloads).unwrap(),
        vec![0x0190_0000_0000_7000_8000_0000_0000_0001, 0x0190_0000_0000_7000_8000_0000_0000_0002]
    );
}

#[test]
fn bundle_actor_without_a_uuid_is_refused() {
    let payloads = vec![object(r#"{"object_type":"actor","id":"alice"}"#)];
    match identity_bundle_actor_ids(&payloads) {
        Err(FactError::User(m)) => assert_eq!(m, "identity bundle contains an invalid actor object"),
        other => panic!("unexpected: {other:?}"),
    }
    let empty: Vec<Option<Vec<u8>>> = Vec::new();
    assert_eq!(identity_bundle_actor_ids(&empty).unwrap(), Vec::<u128>::new());
}
