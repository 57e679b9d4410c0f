use fact_cli::actor_identity::{actor_identity_list_item, actor_identity_show_value, ActorIdentityFacts};
use fact_cli::json::Json;

fn keys(j: &Json) -> Vec<String> {
    match j {
        Json::Object(ms) => ms.iter().map(|(k, _)| k.clone()).collect(),
        _ => panic!("object"),
    }
}

fn field<'a>(j: &'a Json, key: &str) -> &'a Json {
    match j {
        Json::Object(ms) => &ms.iter().find(|(k, _)| k == key).unwrap().1,
        _ => panic!("object"),
    }
}

fn facts() -> ActorIdentityFacts {
    ActorIdentityFacts {
        actor_id: 0x0190_0000_0000_7000_8000_0000_0000_0001,
        actor_ref: "01900000".into(),
        key_id: None,
        key_ref: None,
        persona: Some("work".into()),
        display_name: Some("Ada".into()),
        alias: None,
        capabilities: vec!["propose".into(), "admin".into()],
        local_private_key_material: true,
    }
}

#[test]
fn actor_identity_list_item_fields() {
    let item = actor_identity_list_item(&facts(), "01900000-0000-7000-8000-000000000001");
    assert_eq!(
        keys(&item),
        vec![
            "actor_id", "actor_ref", "key_id", "key_ref", "persona", "display_name", "alias",
            "capabilities", "admin", "local_private_key_material", "active"
        ]
    );
    assert!(matches!(field(&item, "admin"), Json::Bool(true)));
    assert!(matches!(field(&item, "active"), Json::Bool(true)));
    assert!(matches!(field(&item, "key_id"), Json::Null));
    assert!(matches!(field(&item, "actor_id"), Json::Str(s) if s == "01900000-0000-7000-8000-000000000001"));
    match field(&item, "capabilities") {
        Json::Array(items) => assert_eq!(items.len(), 2),
        _ => panic!("array"),
    }
    let other = actor_identity_list_item(&facts(), "");
    assert!(matches!(field(&other, "active"), Json::Bool(false)));
}

#[test]
fn actor_identity_show_value_fields() {
    let mut f = facts();
    f.capabilities = vec!["comment".into()];
    f.key_id = Some(2);
    f.key_ref = Some("k".into());
    let shown = actor_identity_show_value(&f, "x", false);
    assert_eq!(
        keys(&shown),
        vec![
            "actor_id", "actor_ref", "key_id", "key_ref", "persona", "display_name", "alias",
            "capabilities", "local_private_key_material", "active", "imported"
        ]
    );
    assert!(matches!(field(&shown, "imported"), Json::Bool(false)));
    assert!(matches!(field(&shown, "key_id"), Json::Str(s) if s == "00000000-0000-0000-0000-000000000002"));
}
