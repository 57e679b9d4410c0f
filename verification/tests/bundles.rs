use fact_cli::bundles::{clone_dependency_diagnostic, clone_object_info, identity_from_actor_bundle};
use fact_cli::errors::FactError;

const ACTOR: &str = "01890a5d-ac96-774b-bcce-b302099a8057";
const KEY: &str = "01890a5d-ac96-774b-bcce-b302099a8099";

fn payload(text: String) -> Result<Vec<u8>, String> {
    Ok(text.into_bytes())
}

fn actor_payloads() -> Vec<Result<Vec<u8>, String>> {
    vec![
        payload(format!("{{\"object_type\":\"actor\",\"id\":\"{ACTOR}\"}}")),
        payload(format!(
            "{{\"object_type\":\"actor_key_binding\",\"body\":{{\"actor_id\":\"{ACTOR}\",\"key_id\":\"{KEY}\"}}}}"
        )),
        payload(format!(
            "{{\"object_type\":\"key\",\"id\":\"{KEY}\",\"body\":{{\"public_key\":{{\"fingerprint\":\"abc\"}}}}}}"
        )),
    ]
}

fn message(error: FactError) -> String {
    match error {
        FactError::User(message) => message,
        _ => panic!("expected a user error"),
    }
}

#[test]
fn bundle_identity_names_actor_key_and_fingerprint() {
    let actor = uuid::Uuid::parse_str(ACTOR).unwrap().as_u128();
    let identity = identity_from_actor_bundle(&actor_payloads(), actor).unwrap();
    assert_eq!(identity.actor_id, actor);
    assert_eq!(identity.key_id, uuid::Uuid::parse_str(KEY).unwrap().as_u128());
    assert_eq!(identity.fingerprint, "SHA256:abc");
}

#[test]
fn bundle_identity_errors_name_what_is_missing() {
    let actor = uuid::Uuid::parse_str(ACTOR).unwrap().as_u128();
    let mut payloads = actor_payloads();
    payloads.remove(0);
    assert_eq!(
        message(identity_from_actor_bundle(&payloads, actor).unwrap_err()),
        format!("request bundle does not contain signed actor {ACTOR}")
    );
    let mut payloads = actor_payloads();
    payloads.remove(1);
    assert_eq!(
        message(identity_from_actor_bundle(&payloads, actor).unwrap_err()),
        format!("request bundle does not contain a signing key binding for {ACTOR}")
    );
    let mut payloads = actor_payloads();
    payloads.remove(2);
    assert_eq!(
        message(identity_from_actor_bundle(&payloads, actor).unwrap_err()),
        format!("request bundle does not contain signing key {KEY}")
    );
    let mut payloads = actor_payloads();
    payloads.insert(1, Err("signature envelope is malformed".into()));
    assert_eq!(
        message(identity_from_actor_bundle(&payloads, actor).unwrap_err()),
        "signature envelope is malformed"
    );
    let mut payloads = actor_payloads();
    payloads.push(Ok(b"{".to_vec()));
    assert!(matches!(identity_from_actor_bundle(&payloads, actor), Err(FactError::Json(_))));
}

#[test]
fn clone_objects_report_what_they_reference() {
    let info = clone_object_info(
        br#"{"id":"g1","object_type":"authorization_grant","ledger_id":"L","dependencies":[{"object_id":"d1"},{"x":1}],"body":{"receiving_actor_id":"a1"}}"#,
    )
    .unwrap();
    assert_eq!(info.id, "g1");
    assert_eq!(info.dependencies, vec!["d1".to_string()]);
    assert_eq!(info.receiving_actor_id.as_deref(), Some("a1"));
    assert_eq!(info.ledger_id.as_deref(), Some("L"));
    match clone_object_info(br#"{"object_type":"x"}"#) {
        Err(FactError::User(message)) => assert_eq!(message, "remote descriptor is missing id"),
        _ => panic!("expected a missing id"),
    }
}

#[test]
fn clone_diagnostics_report_the_first_gap() {
    let closed = vec![
        payload(r#"{"id":"g","object_type":"genesis","ledger_id":"L"}"#.into()),
        payload(r#"{"id":"a","object_type":"actor","ledger_id":"L","dependencies":[{"object_id":"g"}]}"#.into()),
    ];
    assert_eq!(clone_dependency_diagnostic(&closed), None);
    let grant = vec![payload(
        r#"{"id":"g1","object_type":"authorization_grant","body":{"receiving_actor_id":"a9"}}"#.into(),
    )];
    assert_eq!(
        clone_dependency_diagnostic(&grant).unwrap(),
        "authorization grant g1 references missing receiving actor identity a9; import or include the relevant identity bundle"
    );
    let dependency = vec![payload(
        r#"{"id":"p","object_type":"proposition","dependencies":[{"object_id":"q"}],"actor_id":"z"}"#.into(),
    )];
    assert_eq!(
        clone_dependency_diagnostic(&dependency).unwrap(),
        "missing dependency object q referenced by proposition p"
    );
    let no_genesis = vec![payload(r#"{"id":"a","object_type":"actor","ledger_id":"L"}"#.into())];
    assert_eq!(
        clone_dependency_diagnostic(&no_genesis).unwrap(),
        "missing ledger-scoped genesis object for ledger L"
    );
    let unreadable = vec![Err("bad".into()), Ok(b"not json".to_vec())];
    assert_eq!(clone_dependency_diagnostic(&unreadable), None);
}
