use fact_cli::capabilities::{
    authorization_grant_capabilities, capability_listing, expanded_actor_requests,
    expanded_capabilities, expanded_optional_capabilities, format_capability_list,
    grantable_capabilities, is_grantable_capability, participation_capabilities,
    validate_capabilities,
};
use fact_cli::errors::FactError;

fn strings(items: &[&str]) -> Vec<String> {
    items.iter().map(|item| item.to_string()).collect()
}

fn user_message(error: FactError) -> String {
    match error {
        FactError::User(message) => message,
        _ => panic!("expected a user error"),
    }
}

#[test]
fn participation_comes_first_and_repeats_are_dropped() {
    let expanded =
        expanded_optional_capabilities(strings(&["admin", "comment", "admin", "invite"]), true);
    assert_eq!(
        expanded,
        strings(&["propose", "deliberate", "comment", "accept", "reject", "admin", "invite"])
    );
    let plain = expanded_optional_capabilities(strings(&["invite", "invite", "propose"]), false);
    assert_eq!(plain, strings(&["invite", "propose"]));
    assert_eq!(expanded_optional_capabilities(plain.clone(), false), plain);
    assert!(expanded_optional_capabilities(Vec::new(), false).is_empty());
}

#[test]
fn grantable_capabilities_are_the_nine_listed() {
    for name in ["propose", "deliberate", "invite", "comment", "accept", "reject", "withdraw", "archive", "admin"] {
        assert!(is_grantable_capability(name));
    }
    assert!(!is_grantable_capability("revise"));
    assert!(!is_grantable_capability("Propose"));
    assert!(!is_grantable_capability(""));
    let table = grantable_capabilities();
    assert_eq!(table.len(), 9);
    assert!(table[8].privileged && table[8].name == "admin");
    assert!(table.iter().take(8).all(|capability| !capability.privileged));
    assert_eq!(participation_capabilities(), strings(&["propose", "deliberate", "comment", "accept", "reject"]));
}

#[test]
fn unknown_capabilities_are_named_in_the_error() {
    assert!(validate_capabilities(&strings(&["propose", "admin"])).is_ok());
    let message = user_message(validate_capabilities(&strings(&["propose", "fly", "swim"])).unwrap_err());
    assert_eq!(
        message,
        "unknown capability \"fly\"\n\nAllowed capabilities:\n  propose, deliberate, invite, comment, accept, reject, withdraw, archive, admin"
    );
    let revise = user_message(validate_capabilities(&strings(&["revise"])).unwrap_err());
    assert!(revise.ends_with("\n\nNote: there is no separate \"revise\" capability."));
}

#[test]
fn a_grant_needs_at_least_one_capability() {
    let message = user_message(expanded_capabilities(Vec::new(), false).unwrap_err());
    assert_eq!(message, "at least one capability is required; pass --participate or --capability");
    assert_eq!(expanded_capabilities(strings(&["admin"]), false).unwrap(), strings(&["admin"]));
    assert!(expanded_capabilities(strings(&["bogus"]), true).is_err());
}

#[test]
fn actor_requests_expand_the_participate_word() {
    let expanded = expanded_actor_requests(strings(&["invite", "participate", "comment"]), false).unwrap();
    assert_eq!(
        expanded,
        strings(&["propose", "deliberate", "comment", "accept", "reject", "invite"])
    );
    assert!(expanded_actor_requests(Vec::new(), false).unwrap().is_empty());
    assert!(expanded_actor_requests(strings(&["write"]), false).is_err());
}

#[test]
fn capability_lists_are_shown_comma_separated() {
    assert_eq!(format_capability_list(&Vec::new()), "-");
    assert_eq!(format_capability_list(&strings(&["propose"])), "propose");
    assert_eq!(format_capability_list(&strings(&["propose", "comment"])), "propose, comment");
}

#[test]
fn capability_listing_marks_held_capabilities() {
    let lines = capability_listing(&strings(&["comment"]));
    assert_eq!(lines.len(), 9);
    assert_eq!(lines[0], "    propose     create propositions");
    assert_eq!(lines[3], "  * comment     comment on deliberations");
    assert_eq!(lines[8], "    admin       grant or revoke permissions");
}

#[test]
fn grant_payload_capabilities_are_read() {
    let payload = br#"{"body":{"capabilities":["propose","comment"]}}"#;
    assert_eq!(authorization_grant_capabilities(payload).unwrap(), strings(&["propose", "comment"]));
    let missing = authorization_grant_capabilities(br#"{"body":{}}"#).unwrap_err();
    assert_eq!(user_message(missing), "authorization grant has no capabilities");
    let not_string = authorization_grant_capabilities(br#"{"body":{"capabilities":["a",1]}}"#).unwrap_err();
    assert_eq!(user_message(not_string), "authorization grant capability is not a string");
    assert!(matches!(authorization_grant_capabilities(b"nope"), Err(FactError::Json(_))));
}
