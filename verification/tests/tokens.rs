use fact_cli::tokens::{prune_message, revoke_message, token_list_human, TokenRecord};

#[test]
fn token_list_lines() {
    let records = vec![
        TokenRecord {
            token_id: "t1".to_owned(),
            actor_id: 1,
            ledger_id: Some(0xff),
            expires_at: Some("2025-01-01T00:00:00Z".to_owned()),
            revoked: true,
        },
        TokenRecord {
            token_id: "t2".to_owned(),
            actor_id: 2,
            ledger_id: None,
            expires_at: None,
            revoked: false,
        },
    ];
    assert_eq!(
        token_list_human(&records),
        "t1  actor 00000000-0000-0000-0000-000000000001  ledger 00000000-0000-0000-0000-0000000000ff  expires 2025-01-01T00:00:00Z  revoked\nt2  actor 00000000-0000-0000-0000-000000000002  ledger -\n"
    );
    assert_eq!(token_list_human(&vec![]), "no tokens\n");
}

#[test]
fn revoke_and_prune_messages() {
    assert_eq!(revoke_message(true, "t9"), "revoked token t9");
    assert_eq!(revoke_message(false, "t9"), "token not found or already revoked: t9");
    assert_eq!(prune_message(0), "pruned 0 token(s)");
    assert_eq!(prune_message(42), "pruned 42 token(s)");
}
