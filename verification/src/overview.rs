//! The human overview of a proposition that `fact show` prints: its status,
//! effective revision, tags, conflicts, pending actions, revisions,
//! deliberations, comments, history, next steps and content.
//!
//! Object IDs are shown as short references; the overview holds them as
//! text, already shortened.

use vstd::prelude::*;
use crate::display::{actor_reference_text, format_actor_reference_value, indented, indent_show_content};
use crate::json::{Json, JsonValue, array_items, get, get_str, lemma_array_value, member, str_member};
use crate::text::{concat, concat_all, join, join_texts, lemma_concat_all_step, push_str, texts};

verus! {

/// A revision in a conflict.
pub struct ConflictRevision {
    pub revision_ref: String,
    pub status: String,
    pub deliberation_ref: Option<String>,
    pub settlement_ref: Option<String>,
}

/// Revisions that conflict, with their common ancestor when known.
pub struct ConflictGroup {
    pub common_ancestor_ref: Option<String>,
    pub conflicts: Vec<ConflictRevision>,
}

/// One entry of a proposition's history.
pub struct HistoryLine {
    pub reference: String,
    pub object_type: String,
    pub created_at: String,
    pub description: String,
}

/// A revision or comment document, with the short reference of its
/// `actor_id` when that is a UUID.
pub struct Authored {
    pub value: Json,
    pub actor_ref: Option<String>,
}

/// What the overview of a proposition shows.
pub struct ShowOverview {
    pub reference: String,
    pub display_status: String,
    pub summary: String,
    pub deliberation_ref: Option<String>,
    pub settlement_ref: Option<String>,
    pub effective_revision: Option<Authored>,
    pub tags: Vec<String>,
    pub conflicts: Vec<ConflictGroup>,
    pub current_actor_pending: bool,
    pub pending_actions: Vec<Json>,
    pub revisions: Vec<Json>,
    pub revisions_truncated: bool,
    pub deliberations: Vec<Json>,
    pub comments: Vec<Authored>,
    pub comments_truncated: bool,
    pub history: Vec<HistoryLine>,
    pub history_truncated: bool,
    pub content: Option<String>,
}

/// Which optional sections the overview shows.
#[derive(Clone, Copy, Debug)]
pub struct ShowHumanOptions {
    pub show_empty_conflicts: bool,
    pub show_empty_pending: bool,
    pub show_participants: bool,
    pub show_history: bool,
    pub show_content: bool,
}

pub open spec fn or_text(o: Option<Seq<char>>, fallback: Seq<char>) -> Seq<char> {
    match o {
        Some(s) => s,
        None => fallback,
    }
}

pub open spec fn opt_text(o: Option<String>) -> Option<Seq<char>> {
    match o {
        Some(s) => Some(s@),
        None => None,
    }
}

/// A string member, or the fallback.
pub open spec fn member_text(v: JsonValue, key: Seq<char>, fallback: Seq<char>) -> Seq<char> {
    or_text(str_member(v, key), fallback)
}

fn member_or(v: &Json, key: &str, fallback: &str) -> (r: String)
    ensures
        r@ == member_text(v@, key@, fallback@),
{
    match get_str(v, key) {
        Some(s) => s,
        None => fallback.to_owned(),
    }
}

/// `*` for a highlighted item, else a space.
pub open spec fn marker(v: JsonValue) -> Seq<char> {
    if member(v, "highlighted"@) == Some(JsonValue::Bool(true)) {
        "*"@
    } else {
        " "@
    }
}

fn marker_of(v: &Json) -> (r: &'static str)
    ensures
        r@ == marker(v@),
{
    match get(v, "highlighted") {
        Some(h) => match h {
            Json::Bool(b) => {
                if *b {
                    "*"
                } else {
                    " "
                }
            },
            _ => " ",
        },
        None => " ",
    }
}

/// Who wrote a revision or comment: its `author` reference when that is an
/// object, else the short reference of its actor (or `-`).
pub open spec fn show_author(v: JsonValue, actor_ref: Option<Seq<char>>) -> Seq<char> {
    match member(v, "author"@) {
        Some(JsonValue::Object(ms)) => actor_reference_text(JsonValue::Object(ms)),
        _ => or_text(actor_ref, "-"@),
    }
}

/// Shows who wrote a revision or comment.
pub fn format_show_author(item: &Authored) -> (r: String)
    ensures
        r@ == show_author(item.value@, opt_text(item.actor_ref)),
{
    match get(&item.value, "author") {
        Some(a) => match a {
            Json::Object(_) => {
                return format_actor_reference_value(a);
            },
            _ => {},
        },
        None => {},
    }
    match &item.actor_ref {
        Some(r) => r.clone(),
        None => "-".to_owned(),
    }
}

/// The line for a pending action: its command.
pub open spec fn action_line(v: JsonValue) -> Seq<char> {
    "  "@ + member_text(v, "command"@, "pending action"@) + "\n"@
}

pub open spec fn values(v: Seq<Json>) -> Seq<JsonValue> {
    v.map_values(|j: Json| j@)
}

/// The lines for pending actions.
pub open spec fn action_lines(actions: Seq<JsonValue>) -> Seq<char> {
    concat_all(actions.map_values(|v: JsonValue| action_line(v)))
}

fn actions_text(actions: &Vec<Json>) -> (r: String)
    ensures
        r@ == action_lines(values(actions@)),
{
    let ghost parts = values(actions@).map_values(|v: JsonValue| action_line(v));
    let mut r = String::new();
    let mut i: usize = 0;
    assert(parts.take(0) =~= Seq::<Seq<char>>::empty());
    while i < actions.len()
        invariant
            i <= actions@.len(),
            parts == values(actions@).map_values(|v: JsonValue| action_line(v)),
            r@ == concat_all(parts.take(i as int)),
        decreases actions@.len() - i,
    {
        proof {
            lemma_concat_all_step(parts, i as int);
        }
        push_str(&mut r, "  ");
        push_str(&mut r, member_or(&actions[i], "command", "pending action").as_str());
        push_str(&mut r, "\n");
        i = i + 1;
    }
    assert(parts.take(actions@.len() as int) =~= parts);
    r
}

/// The effective revision section.
pub open spec fn effective_section(o: ShowOverview) -> Seq<char> {
    match o.effective_revision {
        None => Seq::empty(),
        Some(rev) => "\nEffective revision\n"@ + "  revision:      "@ + member_text(
            rev.value@,
            "reference"@,
            "-"@,
        ) + "\n"@ + "  created:       "@ + member_text(rev.value@, "created_at"@, "-"@) + "\n"@
            + "  author:        "@ + show_author(rev.value@, opt_text(rev.actor_ref)) + "\n"@
            + match o.deliberation_ref {
            Some(d) => "  deliberation:  "@ + d@ + "\n"@,
            None => Seq::empty(),
        } + match o.settlement_ref {
            Some(s) => "  settlement:    "@ + s@ + "\n"@,
            None => Seq::empty(),
        },
    }
}

fn effective_text(o: &ShowOverview) -> (r: String)
    ensures
        r@ == effective_section(*o),
{
    let mut r = String::new();
    match &o.effective_revision {
        None => {},
        Some(rev) => {
            push_str(&mut r, "\nEffective revision\n");
            push_str(&mut r, "  revision:      ");
            push_str(&mut r, member_or(&rev.value, "reference", "-").as_str());
            push_str(&mut r, "\n");
            push_str(&mut r, "  created:       ");
            push_str(&mut r, member_or(&rev.value, "created_at", "-").as_str());
            push_str(&mut r, "\n");
            push_str(&mut r, "  author:        ");
            push_str(&mut r, format_show_author(rev).as_str());
            push_str(&mut r, "\n");
            match &o.deliberation_ref {
                Some(d) => {
                    push_str(&mut r, "  deliberation:  ");
                    push_str(&mut r, d.as_str());
                    push_str(&mut r, "\n");
                },
                None => {},
            }
            match &o.settlement_ref {
                Some(s) => {
                    push_str(&mut r, "  settlement:    ");
                    push_str(&mut r, s.as_str());
                    push_str(&mut r, "\n");
                },
                None => {},
            }
        },
    }
    proof {
        assert(r@ =~= effective_section(*o));
    }
    r
}

/// The line for a revision in conflict.
pub open spec fn conflict_revision_line(c: ConflictRevision) -> Seq<char> {
    "  revision "@ + c.revision_ref@ + "  "@ + c.status@ + match c.deliberation_ref {
        Some(d) => "  deliberation "@ + d@,
        None => Seq::empty(),
    } + match c.settlement_ref {
        Some(s) => "  settlement "@ + s@,
        None => Seq::empty(),
    } + "\n"@
}

/// The lines for a conflict group: its common ancestor, then each revision.
pub open spec fn conflict_group_text(g: ConflictGroup) -> Seq<char> {
    (match g.common_ancestor_ref {
        Some(a) => "  common ancestor: "@ + a@ + "\n"@,
        None => Seq::empty(),
    }) + concat_all(g.conflicts@.map_values(|c: ConflictRevision| conflict_revision_line(c)))
}

/// The conflicts section.
pub open spec fn conflicts_section(o: ShowOverview, options: ShowHumanOptions) -> Seq<char> {
    if o.conflicts@.len() > 0 || options.show_empty_conflicts {
        "\nConflicts\n"@ + if o.conflicts@.len() == 0 {
            "  no revision conflicts\n"@
        } else {
            concat_all(o.conflicts@.map_values(|g: ConflictGroup| conflict_group_text(g)))
        }
    } else {
        Seq::empty()
    }
}

fn conflict_revision_text(c: &ConflictRevision) -> (r: String)
    ensures
        r@ == conflict_revision_line(*c),
{
    let mut r = concat("  revision ", c.revision_ref.as_str());
    push_str(&mut r, "  ");
    push_str(&mut r, c.status.as_str());
    match &c.deliberation_ref {
        Some(d) => {
            push_str(&mut r, "  deliberation ");
            push_str(&mut r, d.as_str());
        },
        None => {},
    }
    match &c.settlement_ref {
        Some(s) => {
            push_str(&mut r, "  settlement ");
            push_str(&mut r, s.as_str());
        },
        None => {},
    }
    push_str(&mut r, "\n");
    proof {
        assert(r@ =~= conflict_revision_line(*c));
    }
    r
}

fn conflict_group_lines(g: &ConflictGroup) -> (r: String)
    ensures
        r@ == conflict_group_text(*g),
{
    let mut r = String::new();
    match &g.common_ancestor_ref {
        Some(a) => {
            push_str(&mut r, "  common ancestor: ");
            push_str(&mut r, a.as_str());
            push_str(&mut r, "\n");
        },
        None => {},
    }
    let ghost head = r@;
    let ghost parts = g.conflicts@.map_values(|c: ConflictRevision| conflict_revision_line(c));
    let mut i: usize = 0;
    assert(parts.take(0) =~= Seq::<Seq<char>>::empty());
    assert(r@ =~= head + concat_all(parts.take(0)));
    while i < g.conflicts.len()
        invariant
            i <= g.conflicts@.len(),
            parts == g.conflicts@.map_values(|c: ConflictRevision| conflict_revision_line(c)),
            r@ == head + concat_all(parts.take(i as int)),
        decreases g.conflicts@.len() - i,
    {
        proof {
            lemma_concat_all_step(parts, i as int);
        }
        let line = conflict_revision_text(&g.conflicts[i]);
        push_str(&mut r, line.as_str());
        assert(r@ =~= head + concat_all(parts.take(i + 1)));
        i = i + 1;
    }
    assert(parts.take(g.conflicts@.len() as int) =~= parts);
    proof {
        assert(r@ =~= conflict_group_text(*g));
    }
    r
}

fn conflicts_text(o: &ShowOverview, options: ShowHumanOptions) -> (r: String)
    ensures
        r@ == conflicts_section(*o, options),
{
    let mut r = String::new();
    if o.conflicts.len() > 0 || options.show_empty_conflicts {
        push_str(&mut r, "\nConflicts\n");
        if o.conflicts.len() == 0 {
            push_str(&mut r, "  no revision conflicts\n");
        } else {
            let ghost head = r@;
            let ghost parts = o.conflicts@.map_values(|g: ConflictGroup| conflict_group_text(g));
            let mut i: usize = 0;
            assert(parts.take(0) =~= Seq::<Seq<char>>::empty());
            assert(r@ =~= head + concat_all(parts.take(0)));
            while i < o.conflicts.len()
                invariant
                    i <= o.conflicts@.len(),
                    parts == o.conflicts@.map_values(|g: ConflictGroup| conflict_group_text(g)),
                    r@ == head + concat_all(parts.take(i as int)),
                decreases o.conflicts@.len() - i,
            {
                proof {
                    lemma_concat_all_step(parts, i as int);
                }
                let text = conflict_group_lines(&o.conflicts[i]);
                push_str(&mut r, text.as_str());
                assert(r@ =~= head + concat_all(parts.take(i + 1)));
                i = i + 1;
            }
            assert(parts.take(o.conflicts@.len() as int) =~= parts);
        }
    }
    proof {
        assert(r@ =~= conflicts_section(*o, options));
    }
    r
}

/// The line for a revision in the revisions section.
pub open spec fn revision_line(v: JsonValue) -> Seq<char> {
    marker(v) + " "@ + member_text(v, "reference"@, "-"@) + "  "@ + member_text(v, "status"@, "-"@)
        + "  "@ + member_text(v, "created_at"@, "-"@) + "  "@ + member_text(
        v,
        "summary"@,
        "No summary"@,
    ) + "\n"@
}

/// The revisions section.
pub open spec fn revisions_section(o: ShowOverview) -> Seq<char> {
    if values(o.revisions@).len() > 0 {
        "\nRevisions\n"@ + concat_all(values(o.revisions@).map_values(|v: JsonValue| revision_line(v)))
            + if o.revisions_truncated {
            "  ... more revisions hidden; use --revisions N\n"@
        } else {
            Seq::empty()
        }
    } else {
        Seq::empty()
    }
}

fn revision_text(v: &Json) -> (r: String)
    ensures
        r@ == revision_line(v@),
{
    let mut r = marker_of(v).to_owned();
    push_str(&mut r, " ");
    push_str(&mut r, member_or(v, "reference", "-").as_str());
    push_str(&mut r, "  ");
    push_str(&mut r, member_or(v, "status", "-").as_str());
    push_str(&mut r, "  ");
    push_str(&mut r, member_or(v, "created_at", "-").as_str());
    push_str(&mut r, "  ");
    push_str(&mut r, member_or(v, "summary", "No summary").as_str());
    push_str(&mut r, "\n");
    proof {
        assert(r@ =~= revision_line(v@));
    }
    r
}

fn revisions_text(o: &ShowOverview) -> (r: String)
    ensures
        r@ == revisions_section(*o),
{
    let mut r = String::new();
    if o.revisions.len() > 0 {
        push_str(&mut r, "\nRevisions\n");
        let ghost head = r@;
        let ghost parts = values(o.revisions@).map_values(|v: JsonValue| revision_line(v));
        let mut i: usize = 0;
        assert(parts.take(0) =~= Seq::<Seq<char>>::empty());
        assert(r@ =~= head + concat_all(parts.take(0)));
        while i < o.revisions.len()
            invariant
                i <= o.revisions@.len(),
                parts == values(o.revisions@).map_values(|v: JsonValue| revision_line(v)),
                r@ == head + concat_all(parts.take(i as int)),
            decreases o.revisions@.len() - i,
        {
            proof {
                lemma_concat_all_step(parts, i as int);
            }
            let line = revision_text(&o.revisions[i]);
            push_str(&mut r, line.as_str());
            assert(r@ =~= head + concat_all(parts.take(i + 1)));
            i = i + 1;
        }
        assert(parts.take(o.revisions@.len() as int) =~= parts);
        if o.revisions_truncated {
            push_str(&mut r, "  ... more revisions hidden; use --revisions N\n");
        }
    }
    proof {
        assert(r@ =~= revisions_section(*o));
    }
    r
}

/// The line for a participant of a deliberation.
pub open spec fn participant_line(v: JsonValue) -> Seq<char> {
    "    participant "@ + actor_reference_text(v) + "\n"@
}

/// The lines for a deliberation: its reference and revision, then its
/// participants.
pub open spec fn deliberation_text(v: JsonValue) -> Seq<char> {
    "  "@ + member_text(v, "reference"@, "-"@) + "  revision "@ + or_text(
        match member(v, "body"@) {
            Some(b) => str_member(b, "revision_id"@),
            None => None,
        },
        "-"@,
    ) + "\n"@ + match member(v, "participants"@) {
        Some(JsonValue::Array(ps)) => concat_all(ps.map_values(|p: JsonValue| participant_line(p))),
        _ => Seq::empty(),
    }
}

/// The deliberations section.
pub open spec fn deliberations_section(o: ShowOverview, options: ShowHumanOptions) -> Seq<char> {
    if options.show_participants && values(o.deliberations@).len() > 0 {
        "\nDeliberations\n"@ + concat_all(
            values(o.deliberations@).map_values(|v: JsonValue| deliberation_text(v)),
        )
    } else {
        Seq::empty()
    }
}

fn deliberation_lines(v: &Json) -> (r: String)
    ensures
        r@ == deliberation_text(v@),
{
    let mut r = concat("  ", member_or(v, "reference", "-").as_str());
    push_str(&mut r, "  revision ");
    let revision = match get(v, "body") {
        Some(b) => member_or(b, "revision_id", "-"),
        None => "-".to_owned(),
    };
    push_str(&mut r, revision.as_str());
    push_str(&mut r, "\n");
    let ghost head = r@;
    match get(v, "participants") {
        Some(p) => match p {
            Json::Array(items) => {
                proof {
                    lemma_array_value(p, items);
                }
                let ghost ps = array_items(p@);
                let ghost parts = ps.map_values(|q: JsonValue| participant_line(q));
                let mut i: usize = 0;
                assert(parts.take(0) =~= Seq::<Seq<char>>::empty());
                assert(r@ =~= head + concat_all(parts.take(0)));
                while i < items.len()
                    invariant
                        i <= items@.len(),
                        ps.len() == items@.len(),
                        forall|k: int| 0 <= k < items@.len() ==> #[trigger] ps[k] == items@[k]@,
                        parts == ps.map_values(|q: JsonValue| participant_line(q)),
                        r@ == head + concat_all(parts.take(i as int)),
                    decreases items@.len() - i,
                {
                    proof {
                        lemma_concat_all_step(parts, i as int);
                    }
                    push_str(&mut r, "    participant ");
                    push_str(&mut r, format_actor_reference_value(&items[i]).as_str());
                    push_str(&mut r, "\n");
                    assert(ps[i as int] == items@[i as int]@);
                    assert(r@ =~= head + concat_all(parts.take(i + 1)));
                    i = i + 1;
                }
                assert(parts.take(items@.len() as int) =~= parts);
            },
            _ => {},
        },
        None => {},
    }
    proof {
        assert(r@ =~= deliberation_text(v@));
    }
    r
}

fn deliberations_text(o: &ShowOverview, options: ShowHumanOptions) -> (r: String)
    ensures
        r@ == deliberations_section(*o, options),
{
    let mut r = String::new();
    if options.show_participants && o.deliberations.len() > 0 {
        push_str(&mut r, "\nDeliberations\n");
        let ghost head = r@;
        let ghost parts = values(o.deliberations@).map_values(|v: JsonValue| deliberation_text(v));
        let mut i: usize = 0;
        assert(parts.take(0) =~= Seq::<Seq<char>>::empty());
        assert(r@ =~= head + concat_all(parts.take(0)));
        while i < o.deliberations.len()
            invariant
                i <= o.deliberations@.len(),
                parts == values(o.deliberations@).map_values(|v: JsonValue| deliberation_text(v)),
                r@ == head + concat_all(parts.take(i as int)),
            decreases o.deliberations@.len() - i,
        {
            proof {
                lemma_concat_all_step(parts, i as int);
            }
            let text = deliberation_lines(&o.deliberations[i]);
            push_str(&mut r, text.as_str());
            assert(r@ =~= head + concat_all(parts.take(i + 1)));
            i = i + 1;
        }
        assert(parts.take(o.deliberations@.len() as int) =~= parts);
    }
    proof {
        assert(r@ =~= deliberations_section(*o, options));
    }
    r
}

/// The lines for a comment: marker, reference, author and time; then its
/// summary.
pub open spec fn comment_text(c: Authored) -> Seq<char> {
    marker(c.value@) + " "@ + member_text(c.value@, "reference"@, "-"@) + "  "@ + show_author(
        c.value@,
        opt_text(c.actor_ref),
    ) + "  "@ + member_text(c.value@, "created_at"@, "-"@) + "\n"@ + "    "@ + member_text(
        c.value@,
        "summary"@,
        "No summary"@,
    ) + "\n"@
}

/// The comments section.
pub open spec fn comments_section(o: ShowOverview) -> Seq<char> {
    if o.comments@.len() > 0 {
        "\nComments\n"@ + concat_all(o.comments@.map_values(|c: Authored| comment_text(c)))
            + if o.comments_truncated {
            "  ... older comments hidden; use --comments N\n"@
        } else {
            Seq::empty()
        }
    } else {
        Seq::empty()
    }
}

fn comment_lines(c: &Authored) -> (r: String)
    ensures
        r@ == comment_text(*c),
{
    let mut r = marker_of(&c.value).to_owned();
    push_str(&mut r, " ");
    push_str(&mut r, member_or(&c.value, "reference", "-").as_str());
    push_str(&mut r, "  ");
    push_str(&mut r, format_show_author(c).as_str());
    push_str(&mut r, "  ");
    push_str(&mut r, member_or(&c.value, "created_at", "-").as_str());
    push_str(&mut r, "\n");
    push_str(&mut r, "    ");
    push_str(&mut r, member_or(&c.value, "summary", "No summary").as_str());
    push_str(&mut r, "\n");
    proof {
        assert(r@ =~= comment_text(*c));
    }
    r
}

fn comments_text(o: &ShowOverview) -> (r: String)
    ensures
        r@ == comments_section(*o),
{
    let mut r = String::new();
    if o.comments.len() > 0 {
        push_str(&mut r, "\nComments\n");
        let ghost head = r@;
        let ghost parts = o.comments@.map_values(|c: Authored| comment_text(c));
        let mut i: usize = 0;
        assert(parts.take(0) =~= Seq::<Seq<char>>::empty());
        assert(r@ =~= head + concat_all(parts.take(0)));
        while i < o.comments.len()
            invariant
                i <= o.comments@.len(),
                parts == o.comments@.map_values(|c: Authored| comment_text(c)),
                r@ == head + concat_all(parts.take(i as int)),
            decreases o.comments@.len() - i,
        {
            proof {
                lemma_concat_all_step(parts, i as int);
            }
            let text = comment_lines(&o.comments[i]);
            push_str(&mut r, text.as_str());
            assert(r@ =~= head + concat_all(parts.take(i + 1)));
            i = i + 1;
        }
        assert(parts.take(o.comments@.len() as int) =~= parts);
        if o.comments_truncated {
            push_str(&mut r, "  ... older comments hidden; use --comments N\n");
        }
    }
    proof {
        assert(r@ =~= comments_section(*o));
    }
    r
}

/// The line for a history entry.
pub open spec fn history_line(h: HistoryLine) -> Seq<char> {
    "  "@ + h.reference@ + "  "@ + h.object_type@ + "  "@ + h.created_at@ + "  "@ + h.description@
        + "\n"@
}

/// The history section.
pub open spec fn history_section(o: ShowOverview, options: ShowHumanOptions) -> Seq<char> {
    if options.show_history && o.history@.len() > 0 {
        "\nHistory\n"@ + concat_all(o.history@.map_values(|h: HistoryLine| history_line(h)))
            + if o.history_truncated {
            "  ... more history hidden; use --limit N\n"@
        } else {
            Seq::empty()
        }
    } else {
        Seq::empty()
    }
}

fn history_entry_text(h: &HistoryLine) -> (r: String)
    ensures
        r@ == history_line(*h),
{
    let mut r = concat("  ", h.reference.as_str());
    push_str(&mut r, "  ");
    push_str(&mut r, h.object_type.as_str());
    push_str(&mut r, "  ");
    push_str(&mut r, h.created_at.as_str());
    push_str(&mut r, "  ");
    push_str(&mut r, h.description.as_str());
    push_str(&mut r, "\n");
    proof {
        assert(r@ =~= history_line(*h));
    }
    r
}

fn history_text(o: &ShowOverview, options: ShowHumanOptions) -> (r: String)
    ensures
        r@ == history_section(*o, options),
{
    let mut r = String::new();
    if options.show_history && o.history.len() > 0 {
        push_str(&mut r, "\nHistory\n");
        let ghost head = r@;
        let ghost parts = o.history@.map_values(|h: HistoryLine| history_line(h));
        let mut i: usize = 0;
        assert(parts.take(0) =~= Seq::<Seq<char>>::empty());
        assert(r@ =~= head + concat_all(parts.take(0)));
        while i < o.history.len()
            invariant
                i <= o.history@.len(),
                parts == o.history@.map_values(|h: HistoryLine| history_line(h)),
                r@ == head + concat_all(parts.take(i as int)),
            decreases o.history@.len() - i,
        {
            proof {
                lemma_concat_all_step(parts, i as int);
            }
            let line = history_entry_text(&o.history[i]);
            push_str(&mut r, line.as_str());
            assert(r@ =~= head + concat_all(parts.take(i + 1)));
            i = i + 1;
        }
        assert(parts.take(o.history@.len() as int) =~= parts);
        if o.history_truncated {
            push_str(&mut r, "  ... more history hidden; use --limit N\n");
        }
    }
    proof {
        assert(r@ =~= history_section(*o, options));
    }
    r
}

/// The pending section.
pub open spec fn pending_section(o: ShowOverview, options: ShowHumanOptions) -> Seq<char> {
    if o.current_actor_pending || options.show_empty_pending {
        "\nPending\n"@ + if values(o.pending_actions@).len() == 0 {
            "  no pending actions for you\n"@
        } else {
            action_lines(values(o.pending_actions@))
        }
    } else {
        Seq::empty()
    }
}

/// The next-steps section: resolve conflicts first, else the pending
/// actions.
pub open spec fn next_section(o: ShowOverview) -> Seq<char> {
    "\nNext\n"@ + if o.conflicts@.len() > 0 {
        "  fact resolve "@ + o.reference@ + "\n"@
    } else if values(o.pending_actions@).len() == 0 {
        "  no pending actions for you\n"@
    } else {
        action_lines(values(o.pending_actions@))
    }
}

/// The content section.
pub open spec fn content_section(o: ShowOverview, options: ShowHumanOptions) -> Seq<char> {
    if options.show_content {
        "\nContent\n"@ + match o.content {
            Some(c) => indented(c@) + if c@.len() > 0 && c@.last() == '\n' {
                Seq::empty()
            } else {
                "\n"@
            },
            None => Seq::empty(),
        }
    } else {
        Seq::empty()
    }
}

/// The first line: reference, status and summary.
pub open spec fn heading(o: ShowOverview) -> Seq<char> {
    o.reference@ + "  "@ + o.display_status@ + "  "@ + o.summary@ + "\n"@
}

/// The tags section.
pub open spec fn tags_section(o: ShowOverview) -> Seq<char> {
    if o.tags@.len() > 0 {
        "\nTags\n"@ + "  "@ + join(texts(o.tags@), "  "@) + "\n"@
    } else {
        Seq::empty()
    }
}

/// The whole overview, section by section.
pub open spec fn overview_text(o: ShowOverview, options: ShowHumanOptions) -> Seq<char> {
    heading(o) + effective_section(o) + tags_section(o) + conflicts_section(o, options)
        + pending_section(o, options) + revisions_section(o) + deliberations_section(o, options)
        + comments_section(o) + history_section(o, options) + next_section(o) + content_section(
        o,
        options,
    )
}

fn heading_text(o: &ShowOverview) -> (r: String)
    ensures
        r@ == heading(*o),
{
    let mut r = o.reference.clone();
    push_str(&mut r, "  ");
    push_str(&mut r, o.display_status.as_str());
    push_str(&mut r, "  ");
    push_str(&mut r, o.summary.as_str());
    push_str(&mut r, "\n");
    proof {
        assert(r@ =~= heading(*o));
    }
    r
}

fn tags_text(o: &ShowOverview) -> (r: String)
    ensures
        r@ == tags_section(*o),
{
    let mut r = String::new();
    if o.tags.len() > 0 {
        push_str(&mut r, "\nTags\n");
        push_str(&mut r, "  ");
        push_str(&mut r, join_texts(&o.tags, "  ").as_str());
        push_str(&mut r, "\n");
    }
    proof {
        assert(r@ =~= tags_section(*o));
    }
    r
}

fn pending_actions_text(o: &ShowOverview) -> (r: String)
    ensures
        r@ == (if values(o.pending_actions@).len() == 0 {
            "  no pending actions for you\n"@
        } else {
            action_lines(values(o.pending_actions@))
        }),
{
    if o.pending_actions.len() == 0 {
        "  no pending actions for you\n".to_owned()
    } else {
        actions_text(&o.pending_actions)
    }
}

fn pending_text(o: &ShowOverview, options: ShowHumanOptions, actions: &String) -> (r: String)
    requires
        actions@ == (if values(o.pending_actions@).len() == 0 {
            "  no pending actions for you\n"@
        } else {
            action_lines(values(o.pending_actions@))
        }),
    ensures
        r@ == pending_section(*o, options),
{
    let mut r = String::new();
    if o.current_actor_pending || options.show_empty_pending {
        push_str(&mut r, "\nPending\n");
        push_str(&mut r, actions.as_str());
    }
    proof {
        assert(r@ =~= pending_section(*o, options));
    }
    r
}

fn next_text(o: &ShowOverview, actions: &String) -> (r: String)
    requires
        actions@ == (if values(o.pending_actions@).len() == 0 {
            "  no pending actions for you\n"@
        } else {
            action_lines(values(o.pending_actions@))
        }),
    ensures
        r@ == next_section(*o),
{
    let mut r = "\nNext\n".to_owned();
    if o.conflicts.len() > 0 {
        push_str(&mut r, "  fact resolve ");
        push_str(&mut r, o.reference.as_str());
        push_str(&mut r, "\n");
    } else {
        push_str(&mut r, actions.as_str());
    }
    proof {
        assert(r@ =~= next_section(*o));
    }
    r
}

fn ends_with_newline(s: &str) -> (r: bool)
    ensures
        r == (s@.len() > 0 && s@.last() == '\n'),
{
    let v = crate::text::chars_of(s);
    v.len() > 0 && v[v.len() - 1] == '\n'
}

fn content_text(o: &ShowOverview, options: ShowHumanOptions) -> (r: String)
    ensures
        r@ == content_section(*o, options),
{
    let mut r = String::new();
    if options.show_content {
        push_str(&mut r, "\nContent\n");
        match &o.content {
            Some(content) => {
                push_str(&mut r, indent_show_content(content.as_str()).as_str());
                if !ends_with_newline(content.as_str()) {
                    push_str(&mut r, "\n");
                }
            },
            None => {},
        }
    }
    proof {
        assert(r@ =~= content_section(*o, options));
    }
    r
}

/// The human overview of a proposition.
pub fn format_show_overview(overview: &ShowOverview, options: ShowHumanOptions) -> (r: String)
    ensures
        r@ == overview_text(*overview, options),
{
    let o = overview;
    let actions = pending_actions_text(o);
    let mut out = heading_text(o);
    push_str(&mut out, effective_text(o).as_str());
    push_str(&mut out, tags_text(o).as_str());
    push_str(&mut out, conflicts_text(o, options).as_str());
    push_str(&mut out, pending_text(o, options, &actions).as_str());
    push_str(&mut out, revisions_text(o).as_str());
    push_str(&mut out, deliberations_text(o, options).as_str());
    push_str(&mut out, comments_text(o).as_str());
    push_str(&mut out, history_text(o, options).as_str());
    push_str(&mut out, next_text(o, &actions).as_str());
    push_str(&mut out, content_text(o, options).as_str());
    out
}

} // verus!
