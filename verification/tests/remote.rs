use fact_cli::errors::FactError;
use fact_cli::json::Json;
use fact_cli::remote::{
    derive_remote_descriptor_name, descriptor_check_json, descriptor_namespace_name, discover_remote_ledgers,
    discover_single_remote_ledger, ledger_short_reference, parse_json_document, parse_sha256_hex,
    parse_uuid7, read_remote_descriptor, remote_ledger_choices, remote_ledgers_from_value,
    required_string, resolve_remote_advertised_ledger, signed_grant_bytes,
    validate_remote_descriptor, validate_remote_serves_ledger, verify_remote_descriptor,
    RemoteDescriptor, RemoteLedgerMetadata,
};

const LEDGER: &str = "01890a5d-ac96-774b-bcce-b302099a8057";

fn hash() -> String {
    "0123456789abcdef".repeat(4)
}

fn message(error: FactError) -> String {
    match error {
        FactError::User(message) => message,
        FactError::Uuid(text) => format!("uuid: {text}"),
        FactError::Json(text) => format!("json: {text}"),
        _ => panic!("unexpected error kind"),
    }
}

fn descriptor(url: &str, ledger_id: &str, namespace: Option<&str>) -> RemoteDescriptor {
    RemoteDescriptor {
        url: url.into(),
        ledger_id: ledger_id.into(),
        genesis_hash: hash(),
        token: None,
        namespace: namespace.map(str::to_owned),
        actor: None,
        claims: None,
    }
}

fn ledger(id: &str, genesis: Option<&str>, namespace: Option<&str>) -> RemoteLedgerMetadata {
    RemoteLedgerMetadata {
        ledger_id: id.into(),
        genesis_hash: genesis.map(str::to_owned),
        namespace: namespace.map(str::to_owned),
    }
}

#[test]
fn uuid7_must_be_canonical() {
    let id = parse_uuid7(LEDGER, "ledger").unwrap();
    assert_eq!(uuid::Uuid::from_u128(id).to_string(), LEDGER);
    assert_eq!(
        message(parse_uuid7(&LEDGER.to_uppercase(), "ledger").unwrap_err()),
        "ledger must be lowercase canonical UUIDv7"
    );
    assert_eq!(
        message(parse_uuid7("67e55044-10b1-426f-9247-bb680e5fe0c8", "actor").unwrap_err()),
        "actor must be lowercase canonical UUIDv7"
    );
    assert!(matches!(parse_uuid7("nope", "ledger"), Err(FactError::Uuid(_))));
}

#[test]
fn sha256_hashes_are_64_lowercase_hex_digits() {
    assert!(parse_sha256_hex(&hash(), "genesis_hash").is_ok());
    assert_eq!(
        message(parse_sha256_hex(&hash().to_uppercase(), "genesis_hash").unwrap_err()),
        "genesis_hash must be a lowercase SHA-256 hex hash"
    );
    assert!(parse_sha256_hex("abc", "x").is_err());
}

#[test]
fn descriptors_are_validated_in_order() {
    assert!(validate_remote_descriptor(&descriptor("https://a.example", LEDGER, None)).is_ok());
    assert_eq!(
        message(validate_remote_descriptor(&descriptor("ftp://a", LEDGER, None)).unwrap_err()),
        "remote descriptor URL must use http:// or https://"
    );
    let mut bad_hash = descriptor("http://a", LEDGER, None);
    bad_hash.genesis_hash = "xyz".into();
    assert_eq!(
        message(validate_remote_descriptor(&bad_hash).unwrap_err()),
        "genesis_hash must be a lowercase SHA-256 hex hash"
    );
}

#[test]
fn descriptors_are_checked_against_served_ledgers() {
    let d = descriptor("https://a.example", LEDGER, None);
    assert!(verify_remote_descriptor(&d, Some(vec![ledger(LEDGER, Some(&hash()), None)])).is_ok());
    assert_eq!(
        message(verify_remote_descriptor(&d, None).unwrap_err()),
        "remote descriptor could not be verified: remote ledger discovery failed"
    );
    assert_eq!(
        message(verify_remote_descriptor(&d, Some(vec![ledger("other", None, None), ledger("x", None, None)])).unwrap_err()),
        format!("remote descriptor mismatch: remote does not serve ledger {LEDGER}; served ledger(s): other, x")
    );
    assert_eq!(
        message(verify_remote_descriptor(&d, Some(vec![ledger(LEDGER, Some("ff"), None)])).unwrap_err()),
        format!("remote descriptor genesis mismatch for ledger {LEDGER}: descriptor has {}, remote serves ff", hash())
    );
    assert_eq!(
        message(verify_remote_descriptor(&d, Some(vec![ledger(LEDGER, None, None)])).unwrap_err()),
        format!("remote descriptor could not be verified: remote did not report genesis_hash for ledger {LEDGER}")
    );
}

#[test]
fn short_references_take_five_digits_from_each_end() {
    assert_eq!(ledger_short_reference(LEDGER), "01890-a8057");
    assert_eq!(ledger_short_reference("abcdefghij"), "abcde-fghij");
}

#[test]
fn remote_names_come_from_namespace_host_or_ledger() {
    assert_eq!(
        descriptor_namespace_name(&descriptor("https://x", LEDGER, Some("org.example.team"))),
        Some("team".to_string())
    );
    assert_eq!(descriptor_namespace_name(&descriptor("https://x", LEDGER, None)), None);
    assert_eq!(
        derive_remote_descriptor_name(&descriptor("https://x", LEDGER, Some("org.Research Lab"))),
        "Research-Lab"
    );
    assert_eq!(
        derive_remote_descriptor_name(&descriptor("https://user@Ledger.Example.com:8443/facts", LEDGER, None)),
        "ledger-example-com"
    );
    assert_eq!(
        derive_remote_descriptor_name(&descriptor("https://@/x", LEDGER, None)),
        "remote-01890-a8057"
    );
}

#[test]
fn advertised_ledgers_are_resolved_by_id_namespace_or_short_reference() {
    let ledgers = vec![
        ledger(LEDGER, None, Some("team")),
        ledger("01890a5d-ac96-774b-bcce-b302099a8058", None, None),
    ];
    assert_eq!(resolve_remote_advertised_ledger("team", Some(ledgers.clone_list())).unwrap(), LEDGER);
    assert_eq!(resolve_remote_advertised_ledger("01890-a8057", Some(ledgers.clone_list())).unwrap(), LEDGER);
    assert_eq!(
        message(resolve_remote_advertised_ledger("nope", Some(ledgers.clone_list())).unwrap_err()),
        format!("remote does not advertise ledger nope; available ledgers: {LEDGER} (team), 01890a5d-ac96-774b-bcce-b302099a8058")
    );
    assert_eq!(
        message(resolve_remote_advertised_ledger("x", None).unwrap_err()),
        "remote ledger discovery failed"
    );
    let twins = vec![ledger(LEDGER, None, Some("t")), ledger("other-ledger-01890", None, Some("t"))];
    assert!(message(resolve_remote_advertised_ledger("t", Some(twins)).unwrap_err()).contains("is ambiguous"));
    assert_eq!(remote_ledger_choices(&Vec::new()), "");
}

trait CloneList {
    fn clone_list(&self) -> Vec<RemoteLedgerMetadata>;
}

impl CloneList for Vec<RemoteLedgerMetadata> {
    fn clone_list(&self) -> Vec<RemoteLedgerMetadata> {
        self.iter()
            .map(|l| RemoteLedgerMetadata {
                ledger_id: l.ledger_id.clone(),
                genesis_hash: l.genesis_hash.clone(),
                namespace: l.namespace.clone(),
            })
            .collect()
    }
}

#[test]
fn single_ledger_discovery() {
    assert_eq!(discover_single_remote_ledger(None).unwrap(), None);
    assert_eq!(discover_single_remote_ledger(Some(Vec::new())).unwrap(), None);
    assert_eq!(discover_single_remote_ledger(Some(vec!["a".into()])).unwrap(), Some("a".into()));
    assert_eq!(
        message(discover_single_remote_ledger(Some(vec!["a".into(), "b".into()])).unwrap_err()),
        "remote serves multiple ledgers; pass --ledger with one of: a, b"
    );
    assert_eq!(
        discover_remote_ledgers(Some(vec![ledger("a", None, None), ledger("b", None, None)])),
        Some(vec!["a".to_string(), "b".to_string()])
    );
    assert_eq!(discover_remote_ledgers(None), None);
}

#[test]
fn remote_must_serve_the_local_ledger() {
    let local = uuid::Uuid::parse_str(LEDGER).unwrap().as_u128();
    assert!(validate_remote_serves_ledger(None, local).is_ok());
    assert!(validate_remote_serves_ledger(Some(Vec::new()), local).is_ok());
    assert!(validate_remote_serves_ledger(Some(vec![LEDGER.into()]), local).is_ok());
    assert_eq!(
        message(validate_remote_serves_ledger(Some(vec!["a".into()]), local).unwrap_err()),
        format!("remote serves ledger(s) a, not local ledger {LEDGER}; use `fact clone` to mirror a remote ledger; an empty local ledger cannot be turned into a mirror")
    );
}

#[test]
fn descriptor_documents_are_read() {
    let plain = format!(
        "{{\"schema\":\"fact-remote-v0\",\"url\":\"https://a\",\"ledger_id\":\"{LEDGER}\",\"genesis_hash\":\"{}\",\"token\":\"t\"}}",
        hash()
    );
    let value = parse_json_document(plain.as_bytes()).unwrap();
    let d = read_remote_descriptor(&value, Err(FactError::User("ignored".into()))).unwrap();
    assert_eq!(d.url, "https://a");
    assert_eq!(d.token.as_deref(), Some("t"));
    assert!(d.namespace.is_none());
    let response = format!(
        "{{\"schema\":\"fact-remote-actor-response-v0\",\"actor\":\"a1\",\"ledger\":{{\"namespace\":\"org.team\"}},\"endpoint\":{plain}}}"
    );
    let value = parse_json_document(response.as_bytes()).unwrap();
    let d = read_remote_descriptor(&value, Ok(())).unwrap();
    assert_eq!(d.namespace.as_deref(), Some("org.team"));
    assert_eq!(d.actor.as_deref(), Some("a1"));
    assert_eq!(
        message(read_remote_descriptor(&value, Err(FactError::User("grants differ".into()))).unwrap_err()),
        "grants differ"
    );
    let unsupported = parse_json_document(b"{\"schema\":\"other\"}").unwrap();
    assert_eq!(message(read_remote_descriptor(&unsupported, Ok(())).unwrap_err()), "unsupported remote descriptor format");
    let no_url = parse_json_document(b"{\"schema\":\"fact-remote-v0\"}").unwrap();
    assert_eq!(message(read_remote_descriptor(&no_url, Ok(())).unwrap_err()), "remote descriptor is missing url");
    assert_eq!(message(required_string(&no_url, "ledger_id").unwrap_err()), "remote descriptor is missing ledger_id");
    assert!(matches!(parse_json_document(b"{"), Err(FactError::Json(_))));
}

#[test]
fn ledger_lists_are_read_from_the_body() {
    let answer = format!(
        "{{\"body\":{{\"ledgers\":[{{\"ledger_id\":\"{LEDGER}\",\"genesis_hash\":\"{}\",\"namespace\":\"team\"}}]}}}}",
        hash()
    );
    let value = parse_json_document(answer.as_bytes()).unwrap();
    let ledgers = remote_ledgers_from_value(&value).unwrap();
    assert_eq!(ledgers.len(), 1);
    assert_eq!(ledgers[0].ledger_id, LEDGER);
    assert_eq!(ledgers[0].namespace.as_deref(), Some("team"));
    let missing = parse_json_document(b"{\"ledgers\":[{}]}").unwrap();
    assert_eq!(message(remote_ledgers_from_value(&missing).unwrap_err()), "remote ledger list entry is missing ledger_id");
    let none = Json::Object(Vec::new());
    assert_eq!(message(remote_ledgers_from_value(&none).unwrap_err()), "remote ledger list response did not include ledgers");
}

#[test]
fn signed_grants_are_base64url() {
    let item = Json::Str("Zm9v".into());
    assert_eq!(signed_grant_bytes("grants", &item).unwrap(), b"foo");
    let wrapped = Json::Object(vec![("cose_sign1".into(), Json::Str("Zg".into()))]);
    assert_eq!(signed_grant_bytes("signed_grants", &wrapped).unwrap(), b"f");
    assert_eq!(
        message(signed_grant_bytes("grants", &Json::Null).unwrap_err()),
        "grants contains an invalid grant payload"
    );
    assert_eq!(
        message(signed_grant_bytes("grants", &Json::Str("Zm 9v".into())).unwrap_err()),
        "grants contains invalid base64url"
    );
}

#[test]
fn descriptor_check_json_document() {
    let d = descriptor("https://x", LEDGER, None);
    match descriptor_check_json("x", &d) {
        Json::Object(members) => {
            let keys: Vec<&str> = members.iter().map(|(k, _)| k.as_str()).collect();
            assert_eq!(keys, vec!["name", "url", "ledger", "genesis_hash"]);
            assert!(matches!(&members[2].1, Json::Str(s) if s == LEDGER));
        }
        _ => panic!("object"),
    }
}
