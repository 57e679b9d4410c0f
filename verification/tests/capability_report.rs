use fact_cli::capability_report::{
    capabilities_json, capabilities_text, held_capabilities, ActiveCapabilities, HeldCapability,
};
use fact_cli::json::Json;

const TABLE: [(&str, &str); 9] = [
    ("propose", "create propositions"),
    ("deliberate", "join or participate in deliberations"),
    ("invite", "invite actors to deliberations"),
    ("comment", "comment on deliberations"),
    ("accept", "accept revisions as a participant"),
    ("reject", "reject revisions as a participant"),
    ("withdraw", "withdraw propositions while preserving history"),
    ("archive", "archive propositions while preserving history"),
    ("admin", "grant or revoke permissions"),
];

fn listing(held: &[&str]) -> String {
    let mut out = String::new();
    for (name, description) in TABLE {
        let marker = if held.contains(&name) { "*" } else { " " };
        out.push_str(&format!("  {} {:<12}{}\n", marker, name, description));
    }
    out
}

#[test]
fn held_capabilities_keep_only_granted_ones_in_order() {
    let mut refs: Vec<Vec<String>> = vec![Vec::new(); 9];
    refs[3] = vec!["0190abcd".to_owned()];
    refs[0] = vec!["0190aaaa".to_owned(), "0190bbbb".to_owned()];
    let held = held_capabilities(refs);
    let summary: Vec<(String, Vec<String>)> =
        held.into_iter().map(|h| (h.name, h.grant_refs)).collect();
    assert_eq!(
        summary,
        vec![
            ("propose".to_owned(), vec!["0190aaaa".to_owned(), "0190bbbb".to_owned()]),
            ("comment".to_owned(), vec!["0190abcd".to_owned()]),
        ]
    );
}

#[test]
fn capabilities_text_without_an_active_actor() {
    let expected = format!("Available capabilities\n\n{}\n", listing(&[]));
    assert_eq!(capabilities_text(&None), expected);
}

#[test]
fn capabilities_text_marks_what_the_active_actor_holds() {
    let active = ActiveCapabilities {
        actor_id: "01900000-0000-7000-8000-0000000000aa".to_owned(),
        actor_ref: "0190aa".to_owned(),
        ledger_name: "main".to_owned(),
        ledger_id: "01900000-0000-7000-8000-0000000000ff".to_owned(),
        held: vec![
            HeldCapability { name: "propose".to_owned(), grant_refs: vec!["g1".to_owned()] },
            HeldCapability { name: "admin".to_owned(), grant_refs: vec!["g2".to_owned()] },
        ],
    };
    let expected = format!(
        "Active actor capabilities for 0190aa (main)\n\n  propose\n  admin\n\nAvailable capabilities\n\n{}\n* held by the active actor\n\n",
        listing(&["propose", "admin"])
    );
    assert_eq!(capabilities_text(&Some(active)), expected);
    let idle = ActiveCapabilities {
        actor_id: "01900000-0000-7000-8000-0000000000bb".to_owned(),
        actor_ref: "0190bb".to_owned(),
        ledger_name: "side".to_owned(),
        ledger_id: "01900000-0000-7000-8000-0000000000ee".to_owned(),
        held: Vec::new(),
    };
    let expected = format!(
        "Active actor capabilities for 0190bb (side)\n\n  none\n\nAvailable capabilities\n\n{}\n* held by the active actor\n\n",
        listing(&[])
    );
    assert_eq!(capabilities_text(&Some(idle)), expected);
}

fn to_value(j: &Json) -> serde_json::Value {
    match j {
        Json::Null => serde_json::Value::Null,
        Json::Bool(b) => serde_json::Value::Bool(*b),
        Json::Number(n) => serde_json::from_str(n).unwrap(),
        Json::Str(s) => serde_json::Value::String(s.clone()),
        Json::Array(items) => serde_json::Value::Array(items.iter().map(to_value).collect()),
        Json::Object(members) => {
            let mut map = serde_json::Map::new();
            for (k, v) in members {
                map.insert(k.clone(), to_value(v));
            }
            serde_json::Value::Object(map)
        }
    }
}

#[test]
fn capabilities_json_document() {
    let none = to_value(&capabilities_json(&None));
    let keys: Vec<&String> = none.as_object().unwrap().keys().collect();
    assert_eq!(keys, vec!["capabilities", "active_actor", "allowed", "notes"]);
    assert_eq!(none["active_actor"], serde_json::Value::Null);
    assert_eq!(none["capabilities"].as_array().unwrap().len(), 9);
    assert_eq!(none["capabilities"][8]["name"], "admin");
    assert_eq!(none["capabilities"][8]["privileged"], true);
    assert_eq!(none["capabilities"][0]["privileged"], false);
    assert_eq!(none["capabilities"][0]["held"], false);
    assert_eq!(none["capabilities"][1]["description"], "join or participate in deliberations");
    assert_eq!(none["allowed"][3], "comment");
    assert_eq!(
        none["notes"][0],
        "`admin` is highly privileged because it can authorize permission changes."
    );
    assert_eq!(none["notes"][1], "There is no separate `revise` capability at this time.");
    let active = ActiveCapabilities {
        actor_id: "A".to_owned(),
        actor_ref: "a".to_owned(),
        ledger_name: "main".to_owned(),
        ledger_id: "L".to_owned(),
        held: vec![HeldCapability { name: "comment".to_owned(), grant_refs: vec!["g1".to_owned(), "g2".to_owned()] }],
    };
    let doc = to_value(&capabilities_json(&Some(active)));
    assert_eq!(doc["capabilities"][3]["held"], true);
    assert_eq!(doc["capabilities"][4]["held"], false);
    let actor = &doc["active_actor"];
    let keys: Vec<&String> = actor.as_object().unwrap().keys().collect();
    assert_eq!(keys, vec!["ledger", "ledger_id", "actor_id", "actor_ref", "capabilities", "grants"]);
    assert_eq!(actor["ledger_id"], "L");
    assert_eq!(actor["capabilities"][0], "comment");
    assert_eq!(actor["grants"][0]["capability"], "comment");
    assert_eq!(actor["grants"][0]["grant_refs"][1], "g2");
}
