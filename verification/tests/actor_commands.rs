use fact_cli::actor_commands::{
    admit_claims, admit_human_output, admit_request_path, admit_token_label, revoke_reason,
    send_human_output, send_identity,
};
use fact_cli::actor_exchange::{ActorClaims, ActorRequest};
use fact_cli::errors::FactError;
use fact_cli::fact_as::ActorProfile;
use fact_cli::identity_display::ActorRequestReview;

fn s(x: &str) -> Option<String> {
    Some(x.to_owned())
}

#[test]
fn send_identity_prefers_flags_then_profile() {
    let profile = ActorProfile {
        display_name: "Ada P".to_owned(),
        alias: s("ada"),
        actor_type: "bot".to_owned(),
        role: None,
    };
    let id = send_identity(s("Ada"), None, None, Some(&profile)).unwrap();
    assert_eq!((id.name.as_str(), id.alias.as_deref(), id.actor_type.as_str()), ("Ada", Some("ada"), "bot"));
    let id = send_identity(None, s("x"), s("human"), Some(&profile)).unwrap();
    assert_eq!((id.name.as_str(), id.alias.as_deref(), id.actor_type.as_str()), ("Ada P", Some("x"), "human"));
    let id = send_identity(s("Bo"), None, None, None).unwrap();
    assert_eq!((id.name.as_str(), id.alias.as_deref(), id.actor_type.as_str()), ("Bo", None, "human"));
    match send_identity(None, s("x"), None, None) {
        Err(FactError::User(m)) => assert_eq!(m, "fact actor send requires a name or --profile"),
        other => panic!("{:?}", other.err()),
    }
}

#[test]
fn admit_choices() {
    assert_eq!(admit_request_path(s("in.json"), s("file.json")).unwrap(), "in.json");
    assert_eq!(admit_request_path(None, s("file.json")).unwrap(), "file.json");
    match admit_request_path(None, None) {
        Err(FactError::User(m)) => assert_eq!(m, "fact actor admit requires FILE or --input FILE; use --input - for stdin"),
        other => panic!("{other:?}"),
    }
    let claims = ActorClaims { display_name: None, alias: s("ada"), actor_type: None };
    let c = admit_claims(None, None, None, &claims, 0x0190_0000_0000_7000_8000_0000_0000_0001);
    assert_eq!(
        c,
        ActorClaims {
            display_name: s("01900000-0000-7000-8000-000000000001"),
            alias: s("ada"),
            actor_type: s("human"),
        }
    );
    let c = admit_claims(s("Ada"), s("lovelace"), s("bot"), &claims, 1);
    assert_eq!(c, ActorClaims { display_name: s("Ada"), alias: s("lovelace"), actor_type: s("bot") });
    assert_eq!(admit_token_label(s("ci"), &s("ada"), &"Ada".to_owned()), "ci");
    assert_eq!(admit_token_label(None, &s("ada"), &"Ada".to_owned()), "ada");
    assert_eq!(admit_token_label(None, &None, &"Ada".to_owned()), "Ada");
    assert_eq!(revoke_reason(None), "authority revoked by ledger administrator");
    assert_eq!(revoke_reason(s("left")), "left");
}

#[test]
fn send_and_admit_reports() {
    let claims = ActorClaims { display_name: s("Ada"), alias: None, actor_type: s("human") };
    assert_eq!(
        send_human_output("ada.request.json", "a-1", &claims, &vec!["propose".to_owned()], "ff00"),
        "wrote ada.request.json\nactor      a-1\nclaims     \"Ada\"  (human)\nrequests   propose\nkey        ff00"
    );
    let review = ActorRequestReview {
        actor_ref: "a-1".to_owned(),
        fingerprint: "ff00".to_owned(),
        request: ActorRequest {
            schema: "s".to_owned(),
            actor: 1,
            claims: claims.clone(),
            requests: vec![],
            bundle: "AA".to_owned(),
        },
        filename_mismatch: None,
    };
    assert_eq!(
        admit_human_output(&review, &claims, &vec!["admin".to_owned(), "propose".to_owned()], "out.json"),
        "actor      a-1\nclaims     \"Ada\"  (human)\nrequests   -\nkey        ff00\nrecognized a-1 as \"Ada\"  (human)\ngranted admin, propose\nwrote out.json"
    );
}
