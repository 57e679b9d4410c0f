use fact_cli::directory_input::{
    initial_admin_metadata, named_actor_metadata, CurrentEntry, DirectoryMetadata,
};
use fact_cli::fact_as::ActorProfile;
use fact_cli::personas::PersonaEntry;

fn fields(m: &DirectoryMetadata) -> (String, Option<String>, Option<String>, Option<String>, String) {
    (
        m.display_name.clone(),
        m.alias.clone(),
        m.actor_type.clone(),
        m.role.clone(),
        m.source.clone(),
    )
}

fn persona() -> PersonaEntry {
    PersonaEntry {
        display_name: "Ada".into(),
        alias: Some("ada".into()),
        actor_type: "human".into(),
        ledger_id: "L".into(),
        actor_id: "A".into(),
        key_id: "K".into(),
        identity_bundle: None,
    }
}

#[test]
fn initial_admin_from_profile_persona_or_defaults() {
    let profile = ActorProfile {
        display_name: "Build Bot".into(),
        alias: None,
        actor_type: "service".into(),
        role: None,
    };
    let m = initial_admin_metadata(Some(("ci", profile)), Some(("ada", persona())));
    assert_eq!(
        fields(&m),
        ("Build Bot".into(), None, Some("service".into()), Some("admin".into()), "profile:ci".into())
    );
    let m = initial_admin_metadata(None, Some(("ada", persona())));
    assert_eq!(
        fields(&m),
        ("Ada".into(), Some("ada".into()), Some("human".into()), Some("admin".into()), "persona:ada".into())
    );
    let m = initial_admin_metadata(None, None);
    assert_eq!(
        fields(&m),
        ("Ledger Admin".into(), None, Some("human".into()), Some("admin".into()), "fact init".into())
    );
}

#[test]
fn naming_an_actor_keeps_what_is_not_given() {
    let current = Some(CurrentEntry {
        alias: Some("old".into()),
        actor_type: Some("agent".into()),
        role: None,
        key_id: None,
    });
    let (m, key) = named_actor_metadata("New".into(), None, None, Some("editor".into()), &current, Some(7));
    assert_eq!(
        fields(&m),
        ("New".into(), Some("old".into()), Some("agent".into()), Some("editor".into()), "actor-name".into())
    );
    assert_eq!(key, Some(7));
    let current = Some(CurrentEntry { alias: None, actor_type: None, role: None, key_id: Some(3) });
    let (_, key) = named_actor_metadata("New".into(), None, None, None, &current, Some(7));
    assert_eq!(key, Some(3));
    let (m, key) = named_actor_metadata("Solo".into(), Some("s".into()), None, None, &None, None);
    assert_eq!(fields(&m), ("Solo".into(), Some("s".into()), None, None, "actor-name".into()));
    assert_eq!(key, None);
}
