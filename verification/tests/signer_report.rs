use fact_cli::json::Json;
use fact_cli::signer_report::{current_signer_report, DirectoryFacts, LedgerFacts, SignerFacts};

fn to_value(j: &Json) -> serde_json::Value {
    match j {
        Json::Null => serde_json::Value::Null,
        Json::Bool(b) => serde_json::Value::Bool(*b),
        Json::Number(n) => serde_json::from_str(n).unwrap(),
        Json::Str(s) => serde_json::Value::String(s.clone()),
        Json::Array(items) => serde_json::Value::Array(items.iter().map(to_value).collect()),
        Json::Object(members) => {
            let mut map = serde_json::Map::new();
            for (k, v) in members {
                map.insert(k.clone(), to_value(v));
            }
            serde_json::Value::Object(map)
        }
    }
}

fn ledger() -> LedgerFacts {
    LedgerFacts {
        name: "main".into(),
        ledger_id: "01900000-0000-7000-8000-0000000000ff".into(),
        database: "/home/a/.fact/main.sqlite".into(),
        read_only: false,
    }
}

#[test]
fn signer_report_without_a_signer() {
    let report = to_value(&current_signer_report(&ledger(), &None));
    let expected: serde_json::Value = serde_json::from_str(
        r#"{"report":true,"switched":false,"self":false,"created_identity":false,
            "created_directory_entry":false,"updated_directory_entry":false,"created_home":false,
            "created_permission_grants":[],
            "ledger":{"name":"main","ledger_id":"01900000-0000-7000-8000-0000000000ff",
                      "database":"/home/a/.fact/main.sqlite","read_only":false},
            "actor":null,"no_current_signer":true,"home":null}"#,
    )
    .unwrap();
    assert_eq!(report, expected);
    assert_eq!(
        report.as_object().unwrap().keys().cloned().collect::<Vec<_>>(),
        expected.as_object().unwrap().keys().cloned().collect::<Vec<_>>()
    );
}

#[test]
fn signer_report_with_a_signer() {
    let signer = SignerFacts {
        actor_id: 0x0190_0000_0000_7000_8000_0000_0000_0001,
        actor_ref: "0190000000".into(),
        key_id: 0x0190_0000_0000_7000_8000_0000_0000_0002,
        key_ref: "0190000001".into(),
        directory: None,
        local_private_key_material: true,
    };
    let report = to_value(&current_signer_report(&ledger(), &Some(signer)));
    assert_eq!(report["actor"]["display_name"], "actor 0190000000");
    assert_eq!(report["actor"]["actor_id"], "01900000-0000-7000-8000-000000000001");
    assert_eq!(report["actor"]["alias"], serde_json::Value::Null);
    assert_eq!(report["actor"]["local_private_key_material"], true);
    assert!(report.get("no_current_signer").is_none());
    assert_eq!(report["home"], serde_json::Value::Null);
    let named = SignerFacts {
        actor_id: 1,
        actor_ref: "r".into(),
        key_id: 2,
        key_ref: "k".into(),
        directory: Some(DirectoryFacts {
            display_name: "Ada".into(),
            alias: Some("ada".into()),
            actor_type: Some("human".into()),
        }),
        local_private_key_material: false,
    };
    let report = to_value(&current_signer_report(&ledger(), &Some(named)));
    assert_eq!(report["actor"]["display_name"], "Ada");
    assert_eq!(report["actor"]["alias"], "ada");
    assert_eq!(report["actor"]["type"], "human");
    assert_eq!(report["actor"]["key_id"], "00000000-0000-0000-0000-000000000002");
}
