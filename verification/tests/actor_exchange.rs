use fact_cli::actor_exchange::{
    encode_actor_request, encode_actor_response, grants_match_payloads, parse_request,
    parse_response, request_bundle, request_json, response_bundle, response_json, ActorClaims,
    ResponseEndpoint, ResponseLedger, REQUEST_BEGIN, REQUEST_END, REQUEST_SCHEMA, RESPONSE_SCHEMA,
};
use fact_cli::base64url::{decode_base64url, decode_base64url_strict, encode_base64url};

fn claims() -> ActorClaims {
    ActorClaims {
        display_name: Some("Al Newkirk".into()),
        alias: Some("alnewkirk".into()),
        actor_type: Some("human".into()),
    }
}

fn empty_claims() -> ActorClaims {
    ActorClaims {
        display_name: None,
        alias: None,
        actor_type: None,
    }
}

fn sample_response(actor: u128, granted: Vec<String>, bundle: &[u8]) -> fact_cli::actor_exchange::ActorResponse {
    encode_actor_response(
        actor,
        Some(claims()),
        ResponseLedger {
            id: uuid::Uuid::now_v7().as_u128(),
            genesis_hash: "ab".repeat(32),
            namespace: "example.team".into(),
        },
        granted,
        ResponseEndpoint {
            schema: "fact-remote-v0".into(),
            url: "https://ledger.example".into(),
            ledger_id: uuid::Uuid::now_v7().to_string(),
            genesis_hash: "ab".repeat(32),
            token: None,
        },
        "request-ref".into(),
        bundle,
    )
}

#[test]
fn actor_request_round_trips_wrapped_and_reindented_bundle() {
    let actor = uuid::Uuid::now_v7();
    let request = encode_actor_request(
        actor.as_u128(),
        claims(),
        vec!["propose".into(), "comment".into()],
        b"FACTBNDL bytes",
    );
    let wrapped = request_json(&request, true).unwrap();
    let parsed = parse_request(&wrapped).unwrap();
    assert_eq!(parsed.schema, REQUEST_SCHEMA);
    assert_eq!(parsed.actor, actor.as_u128());
    assert_eq!(request_bundle(&parsed).unwrap(), b"FACTBNDL bytes");
    let spaced_bundle = format!("{}\n{}", &request.bundle[..8], &request.bundle[8..]);
    assert_eq!(decode_base64url(&spaced_bundle).unwrap(), b"FACTBNDL bytes");
}

#[test]
fn actor_response_rejects_wrong_artifact_type() {
    let request = encode_actor_request(
        uuid::Uuid::now_v7().as_u128(),
        empty_claims(),
        Vec::new(),
        b"bundle",
    );
    let error = parse_response(&request_json(&request, false).unwrap()).unwrap_err();
    assert!(error.contains("expected a remote actor response artifact"));
    assert!(!error.contains("fact-remote-actor"));
}

#[test]
fn request_round_trip_gives_back_every_field() {
    let actor = uuid::Uuid::now_v7().as_u128();
    let request = encode_actor_request(actor, claims(), vec!["propose".into()], &[0, 1, 2, 250, 255]);
    for wrapped in [true, false] {
        let bytes = request_json(&request, wrapped).unwrap();
        let parsed = parse_request(&bytes).unwrap();
        assert_eq!(parsed, request);
        assert_eq!(request_bundle(&parsed).unwrap(), vec![0, 1, 2, 250, 255]);
    }
}

#[test]
fn wrapped_request_is_framed_by_its_delimiters() {
    let request = encode_actor_request(1, empty_claims(), Vec::new(), b"x");
    let text = String::from_utf8(request_json(&request, true).unwrap()).unwrap();
    assert!(text.starts_with(&format!("{REQUEST_BEGIN}\n{{")));
    assert!(text.ends_with(&format!("}}\n{REQUEST_END}\n")));
    let bare = String::from_utf8(request_json(&request, false).unwrap()).unwrap();
    assert!(bare.starts_with('{'));
    assert!(bare.contains("\"actor\": \"00000000-0000-0000-0000-000000000001\""));
}

#[test]
fn response_round_trip_and_outcome() {
    let actor = uuid::Uuid::now_v7().as_u128();
    let response = sample_response(actor, vec!["propose".into()], b"grant bundle");
    assert_eq!(response.schema, RESPONSE_SCHEMA);
    assert_eq!(response.outcome, "granted");
    for wrapped in [true, false] {
        let bytes = response_json(&response, wrapped).unwrap();
        let parsed = parse_response(&bytes).unwrap();
        assert_eq!(parsed, response);
        assert_eq!(response_bundle(&parsed).unwrap(), b"grant bundle");
    }
}

#[test]
fn response_without_claims_leaves_them_out() {
    let mut response = sample_response(7, Vec::new(), b"b");
    response.claims = None;
    let text = String::from_utf8(response_json(&response, false).unwrap()).unwrap();
    assert!(!text.contains("\"claims\""));
    assert_eq!(parse_response(text.as_bytes()).unwrap(), response);
}

#[test]
fn response_with_other_outcome_is_refused() {
    let mut response = sample_response(7, Vec::new(), b"b");
    response.outcome = "denied".into();
    let bytes = response_json(&response, false).unwrap();
    assert_eq!(
        parse_response(&bytes).unwrap_err(),
        "unsupported actor response outcome denied"
    );
}

#[test]
fn artifacts_with_bad_bundles_or_markers_are_refused() {
    let mut request = encode_actor_request(1, empty_claims(), Vec::new(), b"x");
    request.bundle = "not base64!".into();
    let bytes = request_json(&request, false).unwrap();
    assert_eq!(parse_request(&bytes).unwrap_err(), "request bundle contains invalid base64url");
    assert_eq!(request_bundle(&request).unwrap_err(), "request bundle contains invalid base64url");
    assert_eq!(
        parse_request(b"{\"bundle\": \"\"}").unwrap_err(),
        "artifact is missing its format marker"
    );
    let unterminated = format!("{REQUEST_BEGIN}\n{{}}\n");
    assert_eq!(
        parse_request(unterminated.as_bytes()).unwrap_err(),
        format!("missing {REQUEST_END}")
    );
    assert!(parse_request(&[0xff, 0xfe]).is_err());
    let missing_actor = format!("{{\"schema\": \"{REQUEST_SCHEMA}\"}}");
    assert_eq!(
        parse_request(missing_actor.as_bytes()).unwrap_err(),
        "missing field `actor`"
    );
    let mut response = sample_response(1, Vec::new(), b"x");
    response.bundle = "%%".into();
    assert_eq!(response_bundle(&response).unwrap_err(), "response bundle contains invalid base64url");
}

#[test]
fn base64url_matches_known_values() {
    assert_eq!(encode_base64url(b""), "");
    assert_eq!(encode_base64url(b"f"), "Zg");
    assert_eq!(encode_base64url(b"fo"), "Zm8");
    assert_eq!(encode_base64url(b"foo"), "Zm9v");
    assert_eq!(encode_base64url(&[0xfb, 0xff]), "-_8");
    assert_eq!(decode_base64url("Zm9v").unwrap(), b"foo");
    assert_eq!(decode_base64url(" Zm\t9v\n").unwrap(), b"foo");
    assert!(decode_base64url_strict(" Zm9v").is_none());
    assert_eq!(decode_base64url_strict("-_8").unwrap(), vec![0xfb, 0xff]);
    assert!(decode_base64url("Zm9v=").is_none());
}

fn grant_payload(object_type: &str, actor: &str, capabilities: &str) -> Vec<u8> {
    format!(
        "{{\"object_type\":\"{object_type}\",\"body\":{{\"receiving_actor_id\":\"{actor}\",\"capabilities\":{capabilities}}}}}"
    )
    .into_bytes()
}

#[test]
fn grants_match_compares_capability_sets() {
    let actor = uuid::Uuid::now_v7();
    let other = uuid::Uuid::now_v7();
    let response = sample_response(
        actor.as_u128(),
        vec!["propose".into(), "comment".into()],
        b"bundle",
    );
    let payloads = vec![
        Ok(grant_payload("authorization_grant", &actor.to_string(), "[\"comment\",\"propose\",\"comment\"]")),
        Ok(grant_payload("authorization_grant", &other.to_string(), "[\"admin\"]")),
        Ok(grant_payload("actor", &actor.to_string(), "[\"admin\"]")),
    ];
    assert_eq!(grants_match_payloads(&response, &payloads), Ok(true));
    let short = vec![Ok(grant_payload(
        "authorization_grant",
        &actor.to_string(),
        "[\"propose\"]",
    ))];
    assert_eq!(grants_match_payloads(&response, &short), Ok(false));
    let no_body = vec![Ok(b"{\"object_type\":\"authorization_grant\"}".to_vec())];
    assert_eq!(
        grants_match_payloads(&response, &no_body),
        Err("authorization grant has no body".to_string())
    );
    let unopened = vec![Err("bad envelope".to_string()), Ok(b"not json".to_vec())];
    assert_eq!(
        grants_match_payloads(&response, &unopened),
        Err("bad envelope".to_string())
    );
    assert!(grants_match_payloads(&response, &vec![Ok(b"not json".to_vec())]).is_err());
}
