use fact_cli::key_bindings::{signing_key_from_bindings, BindingObject};

const ACTOR: u128 = 0x0190_0000_0000_7000_8000_0000_0000_00aa;

fn binding(id: u128, actor: &str, purpose: &str, key: &str) -> BindingObject {
    let text = format!(
        r#"{{"object_type":"actor_key_binding","body":{{"actor_id":"{actor}","permitted_purpose":"{purpose}","key_id":"{key}"}}}}"#
    );
    BindingObject { binding_id: id, payload: Some(text.into_bytes()) }
}

#[test]
fn latest_signing_binding_gives_the_key() {
    let actor = "01900000-0000-7000-8000-0000000000aa";
    let bindings = vec![
        binding(5, actor, "signing", "01900000-0000-7000-8000-000000000005"),
        binding(9, actor, "encryption", "01900000-0000-7000-8000-000000000009"),
        binding(7, actor, "signing", "01900000-0000-7000-8000-000000000007"),
        binding(8, "01900000-0000-7000-8000-0000000000bb", "signing", "01900000-0000-7000-8000-000000000008"),
        binding(6, actor, "signing", "not a uuid"),
        BindingObject { binding_id: 99, payload: None },
    ];
    assert_eq!(
        signing_key_from_bindings(ACTOR, &bindings),
        Some(0x0190_0000_0000_7000_8000_0000_0000_0007)
    );
    let unrelated = vec![binding(9, actor, "encryption", "01900000-0000-7000-8000-000000000009")];
    assert_eq!(signing_key_from_bindings(ACTOR, &unrelated), None);
}
