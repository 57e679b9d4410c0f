use fact_cli::comment_review::{
    comment_author_choice, comment_review_start, comment_text_query, comments_review_text,
    mentioned_actor, review_comments, AuthorChoice, CommentFilter,
};
use fact_cli::errors::FactError;
use fact_cli::json::Json;

fn comment(tag: &str, created_at: Option<&str>, object_id: Option<&str>, summary: &str) -> Json {
    let mut members = vec![("tag".to_owned(), Json::Str(tag.to_owned()))];
    if let Some(c) = created_at {
        members.push(("created_at".to_owned(), Json::Str(c.to_owned())));
    }
    if let Some(o) = object_id {
        members.push(("object_id".to_owned(), Json::Str(o.to_owned())));
    }
    members.push(("summary".to_owned(), Json::Str(summary.to_owned())));
    Json::Object(members)
}

fn tags(v: &[Json]) -> Vec<String> {
    v.iter()
        .map(|c| match c {
            Json::Object(ms) => match &ms[0].1 {
                Json::Str(s) => s.clone(),
                _ => panic!("tag"),
            },
            _ => panic!("object"),
        })
        .collect()
}

fn no_filter() -> CommentFilter {
    CommentFilter { author: None, since: None, text: None, mention: None }
}

fn sample() -> Vec<Json> {
    vec![
        comment("a", Some("2024-01-02"), Some("o2"), "Hello"),
        comment("b", Some("2024-01-01"), Some("o9"), "world"),
        comment("c", Some("2024-01-02"), Some("o1"), "hello again"),
        comment("d", None, Some("o5"), "no time"),
        comment("e", Some("2024-01-02"), Some("o2"), "same key as a"),
        comment("f", Some("2024-01-03"), None, "latest"),
    ]
}

#[test]
fn scoped_review_is_oldest_first_and_stable() {
    let out = review_comments(sample(), &no_filter(), true, 10);
    assert_eq!(tags(&out), vec!["d", "b", "c", "a", "e", "f"]);
}

#[test]
fn ledger_review_is_newest_first_and_stable() {
    let out = review_comments(sample(), &no_filter(), false, 10);
    assert_eq!(tags(&out), vec!["f", "a", "e", "c", "b", "d"]);
}

#[test]
fn review_order_matches_std_stable_sort() {
    let keys: Vec<(Option<&str>, Option<&str>)> = vec![
        (Some("b"), Some("2")),
        (Some("a"), None),
        (None, Some("1")),
        (Some("b"), Some("2")),
        (Some("é"), Some("1")),
        (Some("b"), Some("10")),
        (Some("a"), None),
    ];
    let build = || {
        keys.iter()
            .enumerate()
            .map(|(i, (c, o))| comment(&i.to_string(), *c, *o, "s"))
            .collect::<Vec<_>>()
    };
    let mut asc: Vec<usize> = (0..keys.len()).collect();
    asc.sort_by(|l, r| keys[*l].cmp(&keys[*r]));
    let mut desc: Vec<usize> = (0..keys.len()).collect();
    desc.sort_by(|l, r| keys[*r].cmp(&keys[*l]));
    let as_tags = |v: Vec<usize>| v.iter().map(|i| i.to_string()).collect::<Vec<_>>();
    assert_eq!(tags(&review_comments(build(), &no_filter(), true, 100)), as_tags(asc));
    assert_eq!(tags(&review_comments(build(), &no_filter(), false, 100)), as_tags(desc));
}

#[test]
fn review_filters_then_limits() {
    let filter = CommentFilter {
        author: None,
        since: Some("2024-01-02".to_owned()),
        text: Some("hello".to_owned()),
        mention: None,
    };
    let out = review_comments(sample(), &filter, false, 10);
    assert_eq!(tags(&out), vec!["a", "c"]);
    let out = review_comments(sample(), &no_filter(), false, 2);
    assert_eq!(tags(&out), vec!["f", "a"]);
    let out = review_comments(sample(), &no_filter(), true, 0);
    assert!(out.is_empty());
    let mention = CommentFilter { mention: Some("again".to_owned()), ..no_filter() };
    assert_eq!(tags(&review_comments(sample(), &mention, true, 5)), vec!["c"]);
}

#[test]
fn review_start_and_queries() {
    assert_eq!(
        comment_review_start(true, 5),
        Err("unresolved comment filtering is not available yet; comment lifecycle state is not first-class protocol data".to_owned())
    );
    assert_eq!(comment_review_start(false, 0), Ok(false));
    assert_eq!(comment_review_start(false, 3), Ok(true));
    assert_eq!(comment_text_query(Some("  HeLLo World \n")), Some("hello world".to_owned()));
    assert_eq!(comment_text_query(Some(" \t ")), None);
    assert_eq!(comment_text_query(None), None);
    assert_eq!(mentioned_actor(false, ""), Ok(None));
    assert_eq!(mentioned_actor(true, "abc"), Ok(Some("abc".to_owned())));
    assert_eq!(
        mentioned_actor(true, ""),
        Err("--mentions-me requires an active signing identity for this ledger".to_owned())
    );
}

fn reviewed(reference: &str, proposition: Option<&str>, created: &str, summary: &str, content: Option<&str>) -> Json {
    let mut members = vec![
        ("reference".to_owned(), Json::Str(reference.to_owned())),
        ("actor_id".to_owned(), Json::Str("a-1".to_owned())),
        ("created_at".to_owned(), Json::Str(created.to_owned())),
        ("summary".to_owned(), Json::Str(summary.to_owned())),
    ];
    if let Some(p) = proposition {
        members.push(("proposition_ref".to_owned(), Json::Str(p.to_owned())));
    }
    if let Some(c) = content {
        members.push(("content".to_owned(), Json::Str(c.to_owned())));
    }
    Json::Object(members)
}

#[test]
fn review_text_groups_by_proposition_in_first_seen_order() {
    let comments = vec![
        reviewed("c-1", Some("p-2"), "t1", "one", None),
        reviewed("c-2", Some("p-1"), "t2", "two", None),
        reviewed("c-3", None, "t3", "three", None),
        reviewed("c-4", Some("p-2"), "t4", "four", None),
    ];
    let expected = [
        "p-2\n",
        "  c-1  a-1  t1  one\n",
        "  c-4  a-1  t4  four\n",
        "p-1\n",
        "  c-2  a-1  t2  two\n",
        "unknown proposition\n",
        "  c-3  a-1  t3  three\n",
    ]
    .concat();
    assert_eq!(comments_review_text(&comments, false, false), expected);
    assert_eq!(
        comments_review_text(&comments[..2].iter().map(|_| Json::Null).collect::<Vec<Json>>(), true, false),
        "null  null  null\nnull  null  null\n"
    );
    assert_eq!(comments_review_text(&vec![], false, true), "no comments\n");
}

#[test]
fn review_text_scoped_and_with_content() {
    let comments = vec![
        reviewed("c-1", None, "t1", "one", Some("Body one\n")),
        reviewed("c-2", None, "t2", "two", None),
    ];
    assert_eq!(
        comments_review_text(&comments, true, false),
        "c-1  a-1  one\nc-2  a-1  two\n"
    );
    assert_eq!(
        comments_review_text(&comments, true, true),
        "c-1  a-1  t1\n\nBody one\n\nc-2  a-1  t2\n\n"
    );
    let odd = vec![Json::Object(vec![
        ("reference".to_owned(), Json::Number("7".to_owned())),
        ("actor_id".to_owned(), Json::Bool(true)),
        ("summary".to_owned(), Json::Array(vec![Json::Str("x".to_owned())])),
    ])];
    assert_eq!(comments_review_text(&odd, true, false), "7  true  [\"x\"]\n");
}

#[test]
fn comment_author_from_mine_or_author() {
    let me = "01900000-0000-7000-8000-000000000001";
    assert!(matches!(comment_author_choice(false, None, me), Ok(AuthorChoice::Anyone)));
    assert!(matches!(
        comment_author_choice(true, None, me),
        Ok(AuthorChoice::Actor(0x0190_0000_0000_7000_8000_0000_0000_0001))
    ));
    match comment_author_choice(true, Some("alice"), me) {
        Err(FactError::User(m)) => assert_eq!(m, "use either --mine or --author, not both"),
        other => panic!("unexpected: {other:?}"),
    }
    match comment_author_choice(true, None, "") {
        Err(FactError::User(m)) => {
            assert_eq!(m, "--mine requires an active signing identity for this ledger")
        }
        other => panic!("unexpected: {other:?}"),
    }
    assert!(matches!(
        comment_author_choice(false, Some(me), ""),
        Ok(AuthorChoice::Actor(0x0190_0000_0000_7000_8000_0000_0000_0001))
    ));
    match comment_author_choice(false, Some("alice"), "") {
        Ok(AuthorChoice::Lookup(a)) => assert_eq!(a, "alice"),
        other => panic!("unexpected: {other:?}"),
    }
}
