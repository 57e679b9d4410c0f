use fact_cli::json::Json;
use fact_cli::ledger_show::{
    actor_identity_items_text, actor_identity_show_human, ledger_proposition_counts, ledger_show_human,
    proposition_counts_json, PropositionCounts,
};

fn s(t: &str) -> Json {
    Json::Str(t.to_owned())
}

fn obj(members: Vec<(&str, Json)>) -> Json {
    Json::Object(members.into_iter().map(|(k, v)| (k.to_owned(), v)).collect())
}

#[test]
fn counts_by_display_status() {
    let statuses: Vec<String> = [
        "accepted",
        "pending",
        "conflict",
        "contested",
        "accepted, update pending",
        "rejected, update pending, update pending",
        "withdrawn",
        "withdrawn, update pending",
        "archived",
        "draft",
        "update pending",
    ]
    .iter()
    .map(|x| x.to_string())
    .collect();
    let c = ledger_proposition_counts(&statuses);
    assert_eq!(
        c,
        PropositionCounts {
            total: 11,
            accepted: 2,
            pending: 1,
            rejected: 1,
            contested: 2,
            withdrawn: 1,
            archived: 1,
            update_pending: 3,
        }
    );
    let empty = ledger_proposition_counts(&vec![]);
    assert_eq!(empty.total, 0);
    assert_eq!(empty.update_pending, 0);
}

#[test]
fn counts_as_json_object() {
    let c = ledger_proposition_counts(&vec!["accepted".to_owned(), "pending".to_owned()]);
    match proposition_counts_json(&c) {
        Json::Object(ms) => {
            let keys: Vec<&str> = ms.iter().map(|(k, _)| k.as_str()).collect();
            assert_eq!(
                keys,
                vec![
                    "accepted",
                    "archived",
                    "contested",
                    "pending",
                    "rejected",
                    "total",
                    "update_pending",
                    "withdrawn"
                ]
            );
            match &ms[5].1 {
                Json::Number(n) => assert_eq!(n, "2"),
                _ => panic!("total"),
            }
        },
        _ => panic!("object"),
    }
}

#[test]
fn actor_items_lines() {
    let items = vec![
        obj(vec![
            ("actor_ref", s("a-1")),
            ("key_ref", s("k-1")),
            ("display_name", s("Ada")),
            ("alias", s("ada")),
            ("capabilities", Json::Array(vec![s("admin"), Json::Null, s("propose")])),
            ("active", Json::Bool(true)),
        ]),
        obj(vec![("actor_ref", s("a-2")), ("capabilities", Json::Array(vec![]))]),
    ];
    assert_eq!(
        actor_identity_items_text(&items),
        "a-1  k-1  Ada  ada  admin, propose  active\na-2  -  No name  No alias\n"
    );
    assert_eq!(actor_identity_items_text(&vec![]), "no actors\n");
}

#[test]
fn ledger_show_text() {
    let counts = obj(vec![("total", Json::Number("3".to_owned())), ("accepted", Json::Number("2".to_owned()))]);
    let value = obj(vec![
        ("name", s("main")),
        ("ledger_ref", s("l-1")),
        ("database", s("/db")),
        ("read_only", Json::Bool(false)),
        ("active", Json::Bool(true)),
        ("remote_count", Json::Number("2".to_owned())),
        ("propositions", counts),
        ("actors", Json::Array(vec![obj(vec![("actor_ref", s("a-1"))])])),
    ]);
    let expected = [
        "ledger        main  l-1\n",
        "database      /db\n",
        "read only     false\n",
        "active        true\n",
        "remotes       2\n",
        "propositions  3 total, 2 accepted, 0 pending, 0 rejected, 0 contested, 0 withdrawn, 0 archived, 0 update pending\n",
        "actors\n",
        "a-1  -  No name  No alias\n",
    ]
    .concat();
    assert_eq!(ledger_show_human(&value), expected);
    let bare = ledger_show_human(&obj(vec![]));
    assert!(bare.starts_with("ledger        -  -\ndatabase      -\nread only     false\n"));
    assert!(bare.ends_with("actors\nno actors\n"));
}

#[test]
fn actor_show_text() {
    let v = obj(vec![
        ("actor_ref", s("a-1")),
        ("display_name", s("Ada")),
        ("key_ref", s("k-2")),
        ("capabilities", Json::Array(vec![s("admin"), s("propose")])),
    ]);
    assert_eq!(
        actor_identity_show_human(&v),
        "a-1  Ada\nkey: k-2\npersona: -\ncapabilities: admin, propose"
    );
    let bare = obj(vec![("capabilities", Json::Array(vec![Json::Null]))]);
    assert_eq!(
        actor_identity_show_human(&bare),
        "-  unnamed\nkey: -\npersona: -\ncapabilities: none"
    );
}
