use fact_cli::arguments::TagOperation;
use fact_cli::errors::FactError;
use fact_cli::tags::{
    plan_tags_command, tag_list_human, tag_search_human, tag_show_line, tagged_line, TagCount,
    TagSearchHit, TagsCliInput, TagsPlan,
};

fn input() -> TagsCliInput {
    TagsCliInput {
        reference: None,
        action: None,
        tags: vec![],
        search: vec![],
        list: false,
        counts: false,
        text: None,
        has_status: false,
        all: false,
        limit: 100,
        offset: 0,
        after: None,
    }
}

fn s(x: &str) -> Option<String> {
    Some(x.to_owned())
}

fn refused(i: &TagsCliInput) -> String {
    match plan_tags_command(i) {
        Err(FactError::User(m)) => m,
        _ => panic!("expected a refusal"),
    }
}

#[test]
fn tag_sync_modes() {
    let mut i = input();
    i.reference = s("export");
    i.action = s("tags.bundle");
    assert!(matches!(plan_tags_command(&i), Ok(TagsPlan::Export(f)) if f == "tags.bundle"));
    i.reference = s("import");
    assert!(matches!(plan_tags_command(&i), Ok(TagsPlan::Import(f)) if f == "tags.bundle"));
    i.limit = 5;
    assert_eq!(refused(&i), "tag extension sync omits listing and search options");
    let mut i = input();
    i.reference = s("export");
    assert_eq!(refused(&i), "fact tags export requires FILE");
}

#[test]
fn tag_listing_and_search_modes() {
    let mut i = input();
    assert!(matches!(plan_tags_command(&i), Ok(TagsPlan::List(false))));
    i.counts = true;
    assert!(matches!(plan_tags_command(&i), Ok(TagsPlan::List(true))));
    i.list = true;
    i.tags = vec!["x".to_owned()];
    assert_eq!(refused(&i), "tag listing omits REF, ACTION, and --search");
    let mut i = input();
    i.search = vec!["a".to_owned()];
    i.tags = vec!["b".to_owned()];
    match plan_tags_command(&i) {
        Ok(TagsPlan::Search(t)) => assert_eq!(t, vec!["a", "b"]),
        _ => panic!("search"),
    }
    i.counts = true;
    assert_eq!(refused(&i), "--counts is only valid with tag listing");
    i.reference = s("p-1");
    assert_eq!(refused(&i), "tag search omits REF and ACTION");
}

#[test]
fn tag_modes_for_one_proposition() {
    let mut i = input();
    i.action = s("add");
    assert_eq!(refused(&i), "fact tags requires REF unless --search is used");
    i.reference = s("p-1");
    assert_eq!(refused(&i), "add requires at least one tag");
    i.action = s("rm");
    assert_eq!(refused(&i), "remove requires at least one tag");
    i.tags = vec!["x".to_owned()];
    assert!(matches!(plan_tags_command(&i), Ok(TagsPlan::Change(r, TagOperation::Remove)) if r == "p-1"));
    i.action = s("clear");
    i.tags = vec![];
    assert!(matches!(plan_tags_command(&i), Ok(TagsPlan::Change(_, TagOperation::Clear))));
    i.action = None;
    assert!(matches!(plan_tags_command(&i), Ok(TagsPlan::Show(r)) if r == "p-1"));
    i.tags = vec!["x".to_owned()];
    assert_eq!(refused(&i), "show does not accept tag arguments");
    i.action = s("bogus");
    assert_eq!(refused(&i), "unknown tag action: bogus. Use show, add, remove, set, or clear");
    i.text = s("t");
    assert_eq!(refused(&i), "--text is only valid with tag search");
}

#[test]
fn tag_outputs() {
    assert_eq!(tag_show_line("p-1", &vec![]), "p-1  no tags");
    assert_eq!(tag_show_line("p-1", &vec!["a".to_owned(), "b".to_owned()]), "p-1  a b");
    assert_eq!(tagged_line("p-1", &vec!["a".to_owned()]), "tagged p-1: a");
    let items = vec![TagCount { tag: "a".to_owned(), count: 3 }, TagCount { tag: "b".to_owned(), count: 10 }];
    assert_eq!(tag_list_human(&items, false), "a\nb\n");
    assert_eq!(tag_list_human(&items, true), "a  3\nb  10\n");
    assert_eq!(tag_list_human(&vec![], true), "no tags\n");
    let hits = vec![TagSearchHit {
        reference: "p-1".to_owned(),
        status: "accepted".to_owned(),
        summary: "Plan".to_owned(),
        tags: vec!["a".to_owned(), "b".to_owned()],
    }];
    assert_eq!(tag_search_human(&hits), "p-1  accepted  Plan  [a b]\n");
    assert_eq!(tag_search_human(&vec![]), "no propositions matched those tags\n");
}
