use fact_cli::actor_exchange::{ActorClaims, ActorRequest};
use fact_cli::environment::{
    check_environment_layout, DirEntry, EnvironmentScan, KnownPath, PathKind,
};
use fact_cli::bundles::ActorBundleIdentity;
use fact_cli::json::Json;
use fact_cli::identity_display::{
    actor_request_review_json, format_actor_request_review, format_directory_entry_show, format_identity_import_result,
    ActorRequestReview, DirectoryEntry, ImportDirectoryResult, ImportIdentityResult,
    ImportedActor,
};

fn request(requests: Vec<&str>) -> ActorRequest {
    ActorRequest {
        schema: "fact.actor-request.v1".to_owned(),
        actor: 7,
        claims: ActorClaims {
            display_name: Some("Ada".to_owned()),
            alias: Some("ada".to_owned()),
            actor_type: Some("person".to_owned()),
        },
        requests: requests.into_iter().map(str::to_owned).collect(),
        bundle: "AA".to_owned(),
    }
}

#[test]
fn actor_request_review_lines() {
    let mut review = ActorRequestReview {
        actor_ref: "a-12ab".to_owned(),
        fingerprint: "f00d".to_owned(),
        request: request(vec!["propose", "comment"]),
        filename_mismatch: None,
    };
    assert_eq!(
        format_actor_request_review(&review),
        "actor      a-12ab\nclaims     \"Ada\"  @ada  (person)\nrequests   propose, comment\nkey        f00d"
    );
    review.request = request(vec![]);
    review.filename_mismatch = Some("filename actor x does not match".to_owned());
    assert_eq!(
        format_actor_request_review(&review),
        "actor      a-12ab\nclaims     \"Ada\"  @ada  (person)\nrequests   -\nkey        f00d\nwarning    filename actor x does not match"
    );
}

#[test]
fn identity_import_report() {
    let result = ImportIdentityResult {
        imported: 3,
        actors: vec![
            ImportedActor {
                actor_ref: "a-1".to_owned(),
                display_name: Some("Ada".to_owned()),
                already_present: false,
            },
            ImportedActor { actor_ref: "a-2".to_owned(), display_name: None, already_present: true },
        ],
    };
    let directory = ImportDirectoryResult { imported: 4, skipped: 2, skipped_unresolved: 1 };
    assert_eq!(
        format_identity_import_result(&result, Some(&directory)),
        "imported 3 identity object(s); recognition and authority remain separate\nimported 4 directory event(s), skipped 2 (1 unresolved)\nactors:\n  a-1 (Ada)  newly imported\n  a-2  already present"
    );
    let empty = ImportIdentityResult { imported: 0, actors: vec![] };
    assert_eq!(
        format_identity_import_result(&empty, None),
        "imported 0 identity object(s); recognition and authority remain separate"
    );
}

#[test]
fn directory_entry_show() {
    let entry = DirectoryEntry {
        actor_ref: "a-0001".to_owned(),
        actor_id: 0x0190_0000_0000_7000_8000_0000_0000_00ff,
        display_name: "Ada".to_owned(),
        alias: Some("ada".to_owned()),
        actor_type: None,
        role: Some("member".to_owned()),
        source: None,
        verified_by: None,
        key_ref: Some("k-9".to_owned()),
        key_id: None,
    };
    let expected = [
        "Directory entry: ada\n\n",
        "Display name:  Ada\n",
        "Alias:         ada\n",
        "Type:          (none)\n",
        "Role:          member\n",
        "Source:        (none)\n",
        "Verified by:   (none)\n\n",
        "Actor:         a-0001\n",
        "Actor ID:      01900000-0000-7000-8000-0000000000ff\n",
        "Key:           k-9\n",
        "Key ID:        (none)\n",
    ]
    .concat();
    assert_eq!(format_directory_entry_show(&entry), expected);
    let unnamed = DirectoryEntry { alias: None, key_id: Some(1), ..entry };
    let shown = format_directory_entry_show(&unnamed);
    assert!(shown.starts_with("Directory entry: a-0001\n"));
    assert!(shown.ends_with("Key ID:        00000000-0000-0000-0000-000000000001\n"));
}

fn known(display: &str, kind: PathKind) -> KnownPath {
    KnownPath { display: display.to_owned(), kind }
}

fn scan(entries: Vec<&str>) -> EnvironmentScan {
    EnvironmentScan {
        entries: entries
            .into_iter()
            .map(|n| DirEntry { name: n.to_owned(), display: format!("/env/{n}") })
            .collect(),
        catalog: known("/env/catalog.toml", PathKind::File),
        remotes: known("/env/remotes.toml", PathKind::Missing),
        profiles: known("/env/profiles.toml", PathKind::Missing),
        personas: known("/env/personas.toml", PathKind::Missing),
        active: known("/env/active", PathKind::File),
        identities: known("/env/identities", PathKind::Directory),
        ledgers: known("/env/ledgers", PathKind::Missing),
    }
}

#[test]
fn environment_layout_checks() {
    let ok = scan(vec!["catalog.toml", "active", "identities"]);
    assert_eq!(check_environment_layout(&ok, false), Ok(()));
    let foreign = scan(vec!["catalog.toml", "notes.txt", "junk"]);
    assert_eq!(
        check_environment_layout(&foreign, false),
        Err("/env/notes.txt is not a Fact environment file; rerun with --force to accept it".to_owned())
    );
    assert_eq!(check_environment_layout(&foreign, true), Ok(()));
    let mut wrong = scan(vec![]);
    wrong.profiles.kind = PathKind::Directory;
    wrong.ledgers.kind = PathKind::File;
    assert_eq!(
        check_environment_layout(&wrong, false),
        Err("/env/profiles.toml exists but is not a file".to_owned())
    );
    wrong.profiles.kind = PathKind::File;
    assert_eq!(
        check_environment_layout(&wrong, false),
        Err("/env/ledgers exists but is not a directory".to_owned())
    );
    wrong.ledgers.kind = PathKind::Other;
    assert_eq!(
        check_environment_layout(&wrong, false),
        Err("/env/ledgers exists but is not a directory".to_owned())
    );
}

#[test]
fn actor_request_review_json_document() {
    let review = ActorRequestReview {
        actor_ref: "a-12ab".to_owned(),
        fingerprint: "SHA256:f00d".to_owned(),
        request: request(vec!["propose"]),
        filename_mismatch: None,
    };
    let identity = ActorBundleIdentity { actor_id: 1, key_id: 2, fingerprint: "SHA256:f00d".to_owned() };
    match actor_request_review_json(&review, &identity, "k-0002") {
        Json::Object(members) => {
            let keys: Vec<&str> = members.iter().map(|(k, _)| k.as_str()).collect();
            assert_eq!(
                keys,
                vec!["actor_id", "actor_ref", "key_id", "key_ref", "fingerprint", "claims", "requests", "filename_mismatch"]
            );
            assert!(matches!(&members[0].1, Json::Str(s) if s == "00000000-0000-0000-0000-000000000001"));
            assert!(matches!(&members[2].1, Json::Str(s) if s == "00000000-0000-0000-0000-000000000002"));
            assert!(matches!(&members[3].1, Json::Str(s) if s == "k-0002"));
            assert!(matches!(&members[7].1, Json::Null));
            assert!(matches!(&members[6].1, Json::Array(items) if items.len() == 1));
        }
        _ => panic!("object"),
    }
}
