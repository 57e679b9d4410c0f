use fact_cli::errors::FactError;
use fact_cli::participation::{participation_grants_to_revoke, GrantRow};

fn grant(id: u128, capabilities: &[&str]) -> GrantRow {
    let list: Vec<String> = capabilities.iter().map(|c| format!("\"{c}\"")).collect();
    let payload = format!("{{\"body\":{{\"capabilities\":[{}]}}}}", list.join(","));
    GrantRow { object_id: id, payload: payload.into_bytes() }
}

#[test]
fn participation_grants_are_listed_once_in_id_order() {
    let rows = vec![
        grant(0x30, &["propose", "comment"]),
        grant(0x10, &["propose"]),
        grant(0x30, &["propose", "comment"]),
        grant(0x20, &["accept", "reject"]),
    ];
    let ids = participation_grants_to_revoke(&rows).unwrap();
    assert_eq!(ids, vec![0x10, 0x20, 0x30]);
}

#[test]
fn participation_revocation_refuses_the_lowest_mixed_grant() {
    let rows = vec![
        grant(0x0190_0000_0000_7000_8000_0000_0000_0002, &["propose", "admin"]),
        grant(0x0190_0000_0000_7000_8000_0000_0000_0001, &["comment", "invite"]),
        grant(0x0190_0000_0000_7000_8000_0000_0000_0003, &["comment"]),
    ];
    match participation_grants_to_revoke(&rows) {
        Err(FactError::User(message)) => assert_eq!(
            message,
            "grant 01900000-0000-7000-8000-000000000001 mixes participation and non-participation capabilities; revoke it explicitly"
        ),
        other => panic!("unexpected: {other:?}"),
    }
}

#[test]
fn participation_revocation_reports_an_unreadable_grant() {
    let rows = vec![
        grant(0x1, &["propose"]),
        GrantRow { object_id: 0x2, payload: b"{\"body\":{}}".to_vec() },
    ];
    match participation_grants_to_revoke(&rows) {
        Err(FactError::User(message)) => {
            assert_eq!(message, "authorization grant has no capabilities")
        }
        other => panic!("unexpected: {other:?}"),
    }
    let none: Vec<GrantRow> = Vec::new();
    assert_eq!(participation_grants_to_revoke(&none).unwrap(), Vec::<u128>::new());
}
