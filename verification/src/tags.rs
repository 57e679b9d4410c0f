//! `fact tags`: which of its modes the arguments ask for (sync, listing,
//! search, or one proposition's tags), which combinations are refused, and
//! what each mode prints.

use vstd::prelude::*;
use crate::arguments::{TagOperation, parse_tag_operation, tag_operation_spec};
use crate::errors::{FactError, Failure};
use crate::text::{
    concat, concat_all, decimal, decimal_text, join, join_texts, lemma_concat_all_step, push_str,
    str_eq, texts,
};

verus! {

/// The arguments of `fact tags`; `has_status` says whether `--status` was
/// given.
pub struct TagsCliInput {
    pub reference: Option<String>,
    pub action: Option<String>,
    pub tags: Vec<String>,
    pub search: Vec<String>,
    pub list: bool,
    pub counts: bool,
    pub text: Option<String>,
    pub has_status: bool,
    pub all: bool,
    pub limit: usize,
    pub offset: usize,
    pub after: Option<String>,
}

/// What `fact tags` will do.
pub enum TagsPlan {
    /// Write the ledger's tag events to a file.
    Export(String),
    /// Read tag events from a file.
    Import(String),
    /// List the tags in use, with their counts when asked.
    List(bool),
    /// Find propositions by these tags.
    Search(Vec<String>),
    /// Show one proposition's tags.
    Show(String),
    /// Change one proposition's tags.
    Change(String, TagOperation),
}

/// The value of a [`TagsPlan`].
pub enum TagsPlanView {
    Export(Seq<char>),
    Import(Seq<char>),
    List(bool),
    Search(Seq<Seq<char>>),
    Show(Seq<char>),
    Change(Seq<char>, TagOperation),
}

pub open spec fn plan_view(p: TagsPlan) -> TagsPlanView {
    match p {
        TagsPlan::Export(f) => TagsPlanView::Export(f@),
        TagsPlan::Import(f) => TagsPlanView::Import(f@),
        TagsPlan::List(c) => TagsPlanView::List(c),
        TagsPlan::Search(t) => TagsPlanView::Search(texts(t@)),
        TagsPlan::Show(r) => TagsPlanView::Show(r@),
        TagsPlan::Change(r, op) => TagsPlanView::Change(r@, op),
    }
}

/// Whether any listing or search option was given.
pub open spec fn any_listing_option(i: TagsCliInput) -> bool {
    i.list || i.counts || i.search@.len() > 0 || i.tags@.len() > 0 || i.text is Some
        || i.has_status || i.all || i.limit != 100 || i.offset != 0 || i.after is Some
}

/// The name of a tag operation in messages.
pub open spec fn operation_name(op: TagOperation) -> Seq<char> {
    match op {
        TagOperation::Show => "show"@,
        TagOperation::Add => "add"@,
        TagOperation::Remove => "remove"@,
        TagOperation::Replace => "set"@,
        TagOperation::Clear => "clear"@,
    }
}

/// What the arguments of `fact tags` ask for, or the message they are
/// refused with.
pub open spec fn tags_plan_spec(i: TagsCliInput) -> Result<TagsPlanView, Failure> {
    let reference = match i.reference {
        Some(r) => Some(r@),
        None => None,
    };
    if reference == Some("export"@) || reference == Some("import"@) {
        let name = reference->Some_0;
        if any_listing_option(i) {
            Err(Failure::User("tag extension sync omits listing and search options"@))
        } else {
            match i.action {
                Some(f) => if name == "export"@ {
                    Ok(TagsPlanView::Export(f@))
                } else {
                    Ok(TagsPlanView::Import(f@))
                },
                None => Err(Failure::User("fact tags "@ + name + " requires FILE"@)),
            }
        }
    } else if i.list || (reference is None && i.action is None && i.search@.len() == 0) {
        if reference is Some || i.action is Some || i.search@.len() > 0 || i.tags@.len() > 0
            || i.text is Some {
            Err(Failure::User("tag listing omits REF, ACTION, and --search"@))
        } else {
            Ok(TagsPlanView::List(i.counts))
        }
    } else if i.search@.len() > 0 {
        if reference is Some || i.action is Some {
            Err(Failure::User("tag search omits REF and ACTION"@))
        } else if i.counts {
            Err(Failure::User("--counts is only valid with tag listing"@))
        } else {
            Ok(TagsPlanView::Search(texts(i.search@) + texts(i.tags@)))
        }
    } else {
        match reference {
            None => Err(Failure::User("fact tags requires REF unless --search is used"@)),
            Some(r) => if i.counts {
                Err(Failure::User("--counts is only valid with tag listing"@))
            } else if i.text is Some {
                Err(Failure::User("--text is only valid with tag search"@))
            } else {
                let action = match i.action {
                    Some(a) => a@,
                    None => "show"@,
                };
                match tag_operation_spec(action) {
                    None => Err(
                        Failure::User(
                            "unknown tag action: "@ + action
                                + ". Use show, add, remove, set, or clear"@,
                        ),
                    ),
                    Some(TagOperation::Show) => if i.tags@.len() > 0 {
                        Err(Failure::User("show does not accept tag arguments"@))
                    } else {
                        Ok(TagsPlanView::Show(r))
                    },
                    Some(op) => if (op == TagOperation::Add || op == TagOperation::Remove)
                        && i.tags@.len() == 0 {
                        Err(Failure::User(operation_name(op) + " requires at least one tag"@))
                    } else {
                        Ok(TagsPlanView::Change(r, op))
                    },
                }
            },
        }
    }
}

fn user(message: &str) -> (e: FactError)
    ensures
        e@ == Failure::User(message@),
{
    FactError::User(message.to_owned())
}

fn copy_texts(v: &Vec<String>) -> (r: Vec<String>)
    ensures
        texts(r@) == texts(v@),
{
    let mut r: Vec<String> = Vec::new();
    let mut i: usize = 0;
    while i < v.len()
        invariant
            i <= v@.len(),
            texts(r@) == texts(v@).take(i as int),
        decreases v@.len() - i,
    {
        let ghost before = r@;
        r.push(v[i].clone());
        assert(texts(r@) =~= texts(before).push(v@[i as int]@));
        assert(texts(v@).take(i + 1) =~= texts(v@).take(i as int).push(v@[i as int]@));
        i = i + 1;
    }
    assert(texts(v@).take(v@.len() as int) =~= texts(v@));
    r
}

/// Decides what `fact tags` does with its arguments.
pub fn plan_tags_command(i: &TagsCliInput) -> (r: Result<TagsPlan, FactError>)
    ensures
        match r {
            Ok(p) => tags_plan_spec(*i) == Ok::<TagsPlanView, Failure>(plan_view(p)),
            Err(e) => tags_plan_spec(*i) == Err::<TagsPlanView, Failure>(e@),
        },
{
    let sync_name: Option<&str> = match &i.reference {
        Some(r) => if str_eq(r.as_str(), "export") {
            Some("export")
        } else if str_eq(r.as_str(), "import") {
            Some("import")
        } else {
            None
        },
        None => None,
    };
    match sync_name {
        Some(name) => {
            if i.list || i.counts || i.search.len() > 0 || i.tags.len() > 0 || i.text.is_some()
                || i.has_status || i.all || i.limit != 100 || i.offset != 0 || i.after.is_some() {
                return Err(user("tag extension sync omits listing and search options"));
            }
            return match &i.action {
                Some(f) => if str_eq(name, "export") {
                    Ok(TagsPlan::Export(f.clone()))
                } else {
                    Ok(TagsPlan::Import(f.clone()))
                },
                None => {
                    let mut m = concat("fact tags ", name);
                    push_str(&mut m, " requires FILE");
                    Err(FactError::User(m))
                },
            };
        },
        None => {},
    }
    if i.list || (i.reference.is_none() && i.action.is_none() && i.search.len() == 0) {
        if i.reference.is_some() || i.action.is_some() || i.search.len() > 0 || i.tags.len() > 0
            || i.text.is_some() {
            return Err(user("tag listing omits REF, ACTION, and --search"));
        }
        return Ok(TagsPlan::List(i.counts));
    }
    if i.search.len() > 0 {
        if i.reference.is_some() || i.action.is_some() {
            return Err(user("tag search omits REF and ACTION"));
        }
        if i.counts {
            return Err(user("--counts is only valid with tag listing"));
        }
        let mut all = copy_texts(&i.search);
        let more = copy_texts(&i.tags);
        let mut k: usize = 0;
        let ghost head = texts(all@);
        while k < more.len()
            invariant
                k <= more@.len(),
                texts(all@) == head + texts(more@).take(k as int),
            decreases more@.len() - k,
        {
            let ghost before = all@;
            all.push(more[k].clone());
            assert(texts(all@) =~= texts(before).push(more@[k as int]@));
            assert(texts(more@).take(k + 1) =~= texts(more@).take(k as int).push(more@[k as int]@));
            k = k + 1;
        }
        assert(texts(more@).take(more@.len() as int) =~= texts(more@));
        return Ok(TagsPlan::Search(all));
    }
    let reference = match &i.reference {
        Some(r) => r.clone(),
        None => {
            return Err(user("fact tags requires REF unless --search is used"));
        },
    };
    if i.counts {
        return Err(user("--counts is only valid with tag listing"));
    }
    if i.text.is_some() {
        return Err(user("--text is only valid with tag search"));
    }
    let action = match &i.action {
        Some(a) => a.clone(),
        None => "show".to_owned(),
    };
    let op = parse_tag_operation(action.as_str())?;
    match op {
        TagOperation::Show => {
            if i.tags.len() > 0 {
                return Err(user("show does not accept tag arguments"));
            }
            Ok(TagsPlan::Show(reference))
        },
        TagOperation::Add => {
            if i.tags.len() == 0 {
                proof {
                    reveal_strlit("add");
                    reveal_strlit(" requires at least one tag");
                    reveal_strlit("add requires at least one tag");
                    assert("add"@ + " requires at least one tag"@ =~= "add requires at least one tag"@);
                }
                return Err(user("add requires at least one tag"));
            }
            Ok(TagsPlan::Change(reference, op))
        },
        TagOperation::Remove => {
            if i.tags.len() == 0 {
                proof {
                    reveal_strlit("remove");
                    reveal_strlit(" requires at least one tag");
                    reveal_strlit("remove requires at least one tag");
                    assert("remove"@ + " requires at least one tag"@ =~= "remove requires at least one tag"@);
                }
                return Err(user("remove requires at least one tag"));
            }
            Ok(TagsPlan::Change(reference, op))
        },
        _ => Ok(TagsPlan::Change(reference, op)),
    }
}

/// A proposition's tags as `fact tags REF` shows them.
pub open spec fn tag_show_text(reference: Seq<char>, tags: Seq<Seq<char>>) -> Seq<char> {
    if tags.len() == 0 {
        reference + "  no tags"@
    } else {
        reference + "  "@ + join(tags, " "@)
    }
}

/// Shows a proposition's tags.
pub fn tag_show_line(reference: &str, tags: &Vec<String>) -> (s: String)
    ensures
        s@ == tag_show_text(reference@, texts(tags@)),
{
    if tags.len() == 0 {
        return concat(reference, "  no tags");
    }
    let mut s = concat(reference, "  ");
    push_str(&mut s, join_texts(tags, " ").as_str());
    s
}

/// Reports a change of a proposition's tags.
pub fn tagged_line(reference: &str, tags: &Vec<String>) -> (s: String)
    ensures
        s@ == "tagged "@ + reference@ + ": "@ + join(texts(tags@), " "@),
{
    let mut s = concat("tagged ", reference);
    push_str(&mut s, ": ");
    push_str(&mut s, join_texts(tags, " ").as_str());
    s
}

/// A tag in use, with how many propositions carry it.
pub struct TagCount {
    pub tag: String,
    pub count: usize,
}

pub open spec fn tag_count_line(t: TagCount, counts: bool) -> Seq<char> {
    if counts {
        t.tag@ + "  "@ + decimal(t.count as nat) + "\n"@
    } else {
        t.tag@ + "\n"@
    }
}

/// What a tag listing prints: a line a tag (with its count when asked), or
/// `no tags`.
pub open spec fn tag_list_text(items: Seq<TagCount>, counts: bool) -> Seq<char> {
    if items.len() == 0 {
        "no tags\n"@
    } else {
        concat_all(items.map_values(|t: TagCount| tag_count_line(t, counts)))
    }
}

/// Lists the tags in use.
pub fn tag_list_human(items: &Vec<TagCount>, counts: bool) -> (s: String)
    ensures
        s@ == tag_list_text(items@, counts),
{
    if items.len() == 0 {
        return "no tags\n".to_owned();
    }
    let ghost parts = items@.map_values(|t: TagCount| tag_count_line(t, counts));
    let mut s = String::new();
    let mut k: usize = 0;
    assert(parts.take(0) =~= Seq::<Seq<char>>::empty());
    while k < items.len()
        invariant
            k <= items@.len(),
            parts == items@.map_values(|t: TagCount| tag_count_line(t, counts)),
            s@ == concat_all(parts.take(k as int)),
        decreases items@.len() - k,
    {
        proof {
            lemma_concat_all_step(parts, k as int);
        }
        let t = &items[k];
        let mut line = t.tag.clone();
        if counts {
            push_str(&mut line, "  ");
            push_str(&mut line, decimal_text(t.count).as_str());
        }
        push_str(&mut line, "\n");
        assert(line@ =~= tag_count_line(*t, counts));
        push_str(&mut s, line.as_str());
        k = k + 1;
    }
    assert(parts.take(items@.len() as int) =~= parts);
    s
}

/// A proposition found by tag.
pub struct TagSearchHit {
    pub reference: String,
    pub status: String,
    pub summary: String,
    pub tags: Vec<String>,
}

pub open spec fn hit_line(h: TagSearchHit) -> Seq<char> {
    h.reference@ + "  "@ + h.status@ + "  "@ + h.summary@ + "  ["@ + join(texts(h.tags@), " "@)
        + "]\n"@
}

/// What a tag search prints.
pub open spec fn tag_search_text(hits: Seq<TagSearchHit>) -> Seq<char> {
    if hits.len() == 0 {
        "no propositions matched those tags\n"@
    } else {
        concat_all(hits.map_values(|h: TagSearchHit| hit_line(h)))
    }
}

/// Lists the propositions a tag search found.
pub fn tag_search_human(hits: &Vec<TagSearchHit>) -> (s: String)
    ensures
        s@ == tag_search_text(hits@),
{
    if hits.len() == 0 {
        return "no propositions matched those tags\n".to_owned();
    }
    let ghost parts = hits@.map_values(|h: TagSearchHit| hit_line(h));
    let mut s = String::new();
    let mut k: usize = 0;
    assert(parts.take(0) =~= Seq::<Seq<char>>::empty());
    while k < hits.len()
        invariant
            k <= hits@.len(),
            parts == hits@.map_values(|h: TagSearchHit| hit_line(h)),
            s@ == concat_all(parts.take(k as int)),
        decreases hits@.len() - k,
    {
        proof {
            lemma_concat_all_step(parts, k as int);
        }
        let h = &hits[k];
        let mut line = h.reference.clone();
        push_str(&mut line, "  ");
        push_str(&mut line, h.status.as_str());
        push_str(&mut line, "  ");
        push_str(&mut line, h.summary.as_str());
        push_str(&mut line, "  [");
        push_str(&mut line, join_texts(&h.tags, " ").as_str());
        push_str(&mut line, "]\n");
        assert(line@ =~= hit_line(*h));
        push_str(&mut s, line.as_str());
        k = k + 1;
    }
    assert(parts.take(hits@.len() as int) =~= parts);
    s
}

} // verus!
