//! The decisions of `fact resolve`: which resolution content mode the flags
//! ask for, which conflict and revisions they select, and the editor
//! template offered when the author writes the resolution by hand.
//!
//! Revision and proposition IDs are UUIDs held as 128-bit integers, whose
//! order is the order of their bytes.

use vstd::prelude::*;
use crate::ids::{uuid_hyphenated, uuid_text};
use crate::text::{concat, concat_all, lemma_concat_all_step, push_str, text_bytes};
use vstd::utf8::encode_utf8;

verus! {

/// The flags of `fact resolve`; `file` is the path as given.
pub struct ResolveCliInput {
    pub reference: Option<String>,
    pub file: Option<String>,
    pub keep: Option<String>,
    pub message: Option<String>,
    pub merge: bool,
    pub pick: Vec<String>,
    pub tool: Option<String>,
}

/// Where the content of a resolution comes from.
#[derive(Clone, Copy, Debug, PartialEq, Eq, Structural)]
pub enum ResolutionMode {
    Keep,
    Merge,
    Message,
    Stdin,
    File,
    Author,
}

/// What the flags of `fact resolve` decide before any ledger is read.
pub struct ResolutionPlan {
    pub selection_reference: Option<String>,
    pub mode: ResolutionMode,
}

/// The name under which a resolution mode is reported.
pub open spec fn mode_label(m: ResolutionMode) -> Seq<char> {
    match m {
        ResolutionMode::Keep => "keep"@,
        ResolutionMode::Merge => "merge"@,
        ResolutionMode::Message => "message"@,
        ResolutionMode::Stdin => "stdin"@,
        ResolutionMode::File => "file"@,
        ResolutionMode::Author => "author"@,
    }
}

impl ResolutionMode {
    pub fn label(&self) -> (s: &'static str)
        ensures
            s@ == mode_label(*self),
    {
        match self {
            ResolutionMode::Keep => "keep",
            ResolutionMode::Merge => "merge",
            ResolutionMode::Message => "message",
            ResolutionMode::Stdin => "stdin",
            ResolutionMode::File => "file",
            ResolutionMode::Author => "author",
        }
    }
}

/// A path whose components are exactly `-`: a `-` followed only by
/// separators and interior `.` components, which `Path` equality ignores.
pub open spec fn is_dash_path(s: Seq<char>) -> bool {
    &&& s.len() >= 1
    &&& s[0] == '-'
    &&& s.len() > 1 ==> s[1] == '/'
    &&& forall|i: int| 1 <= i < s.len() ==> #[trigger] s[i] == '/' || s[i] == '.'
    &&& forall|i: int|
        1 <= i < s.len() && #[trigger] s[i] == '.' ==> s[i - 1] == '/' && (i + 1 == s.len() || s[i
            + 1] == '/')
}

/// Whether a path names standard input: `Path::new(path) == Path::new("-")`.
pub fn is_stdin_path(path: &str) -> (r: bool)
    ensures
        r == is_dash_path(path@),
{
    let v = crate::text::chars_of(path);
    let n = v.len();
    if n == 0 || v[0] != '-' {
        return false;
    }
    if n > 1 && v[1] != '/' {
        return false;
    }
    let mut i: usize = 1;
    while i < n
        invariant
            1 <= i <= n,
            n == v@.len(),
            v@ == path@,
            v@[0] == '-',
            n > 1 ==> v@[1] == '/',
            forall|k: int| 1 <= k < i ==> #[trigger] v@[k] == '/' || v@[k] == '.',
            forall|k: int|
                1 <= k < i && #[trigger] v@[k] == '.' ==> v@[k - 1] == '/' && (k + 1 == n || v@[k
                    + 1] == '/'),
        decreases n - i,
    {
        let c = v[i];
        if c == '.' {
            if v[i - 1] != '/' || (i + 1 < n && v[i + 1] != '/') {
                assert(!is_dash_path(path@)) by {
                    assert(path@[i as int] == '.');
                }
                return false;
            }
        } else if c != '/' {
            assert(!is_dash_path(path@)) by {
                assert(path@[i as int] == c);
            }
            return false;
        }
        i = i + 1;
    }
    true
}

/// How many content modes the flags name.
pub open spec fn content_mode_count(i: ResolveCliInput) -> int {
    (if i.keep is Some { 1int } else { 0 }) + (if i.merge { 1int } else { 0 }) + (if i.message is Some {
        1int
    } else {
        0
    }) + (if i.file is Some { 1int } else { 0 })
}

/// The error the flags of `fact resolve` are refused with, if any.
pub open spec fn plan_error(i: ResolveCliInput) -> Option<Seq<char>> {
    if i.pick@.len() == 0 && i.tool is Some && !i.merge {
        Some("--tool requires --merge"@)
    } else if i.pick@.len() > 0 && !i.merge {
        Some("--pick requires --merge"@)
    } else if content_mode_count(i) > 1 {
        Some("choose only one resolution content mode"@)
    } else {
        None
    }
}

pub open spec fn opt_view(o: Option<String>) -> Option<Seq<char>> {
    match o {
        Some(s) => Some(s@),
        None => None,
    }
}

/// The reference that selects the conflict: the positional reference, else
/// the kept revision, else the first pick of a merge.
pub open spec fn selection_spec(i: ResolveCliInput) -> Option<Seq<char>> {
    match i.reference {
        Some(r) => Some(r@),
        None => match i.keep {
            Some(k) => Some(k@),
            None => if i.merge && i.pick@.len() > 0 {
                Some(i.pick@[0]@)
            } else {
                None
            },
        },
    }
}

/// The content mode the flags ask for.
pub open spec fn mode_spec(i: ResolveCliInput) -> ResolutionMode {
    if i.keep is Some {
        ResolutionMode::Keep
    } else if i.merge {
        ResolutionMode::Merge
    } else if i.message is Some {
        ResolutionMode::Message
    } else if i.file matches Some(f) && is_dash_path(f@) {
        ResolutionMode::Stdin
    } else if i.file is Some {
        ResolutionMode::File
    } else {
        ResolutionMode::Author
    }
}

fn clone_text(o: &Option<String>) -> (r: Option<String>)
    ensures
        opt_view(r) == opt_view(*o),
{
    match o {
        Some(s) => Some(s.clone()),
        None => None,
    }
}

/// Checks the flags of `fact resolve` and decides the selection reference
/// and content mode.
pub fn plan_resolution(input: &ResolveCliInput) -> (r: Result<ResolutionPlan, String>)
    ensures
        match r {
            Ok(p) => plan_error(*input) is None && opt_view(p.selection_reference) == selection_spec(
                *input,
            ) && p.mode == mode_spec(*input),
            Err(e) => plan_error(*input) == Some(e@),
        },
{
    if input.pick.len() == 0 && input.tool.is_some() && !input.merge {
        return Err("--tool requires --merge".to_owned());
    }
    if input.pick.len() > 0 && !input.merge {
        return Err("--pick requires --merge".to_owned());
    }
    let mut modes: u8 = 0;
    if input.keep.is_some() {
        modes = modes + 1;
    }
    if input.merge {
        modes = modes + 1;
    }
    if input.message.is_some() {
        modes = modes + 1;
    }
    if input.file.is_some() {
        modes = modes + 1;
    }
    if modes > 1 {
        return Err("choose only one resolution content mode".to_owned());
    }
    let selection_reference = match &input.reference {
        Some(r) => Some(r.clone()),
        None => match &input.keep {
            Some(k) => Some(k.clone()),
            None => if input.merge && input.pick.len() > 0 {
                Some(input.pick[0].clone())
            } else {
                None
            },
        },
    };
    let mode = if input.keep.is_some() {
        ResolutionMode::Keep
    } else if input.merge {
        ResolutionMode::Merge
    } else if input.message.is_some() {
        ResolutionMode::Message
    } else {
        match &input.file {
            Some(f) => if is_stdin_path(f.as_str()) {
                ResolutionMode::Stdin
            } else {
                ResolutionMode::File
            },
            None => ResolutionMode::Author,
        }
    };
    Ok(ResolutionPlan { selection_reference, mode })
}

/// The error for a number of revision conflicts other than one.
pub open spec fn conflict_count_error(n: int) -> Seq<char> {
    if n == 0 {
        "no revision conflicts"@
    } else {
        "multiple revision conflicts; run `fact conflicts` and pass a reference to `fact resolve`"@
    }
}

/// The one conflict a reference selects; none or several are refused.
pub fn single_conflict_group<G>(groups: Vec<G>) -> (r: Result<G, String>)
    ensures
        match r {
            Ok(g) => groups@.len() == 1 && g == groups@[0],
            Err(e) => groups@.len() != 1 && e@ == conflict_count_error(groups@.len() as int),
        },
{
    let n = groups.len();
    if n == 0 {
        return Err("no revision conflicts".to_owned());
    }
    if n > 1 {
        return Err(
            "multiple revision conflicts; run `fact conflicts` and pass a reference to `fact resolve`".to_owned(),
        );
    }
    let mut groups = groups;
    match groups.pop() {
        Some(g) => Ok(g),
        None => Err("no revision conflicts".to_owned()),
    }
}

/// The IDs of the revisions of a conflict that a reference matched, in
/// order.
pub open spec fn matched_ids(conflicts: Seq<(u128, bool)>) -> Seq<u128>
    decreases conflicts.len(),
{
    if conflicts.len() == 0 {
        Seq::empty()
    } else {
        matched_ids(conflicts.drop_last()) + if conflicts.last().1 {
            seq![conflicts.last().0]
        } else {
            Seq::empty()
        }
    }
}

/// The error for a revision reference that no conflicting revision matched.
pub open spec fn no_match_error() -> Seq<char> {
    "--keep must reference one of the conflicting revisions"@
}

/// The error for a revision reference that matched several revisions.
pub open spec fn ambiguous_error(reference: Seq<char>) -> Seq<char> {
    "that reference is ambiguous: "@ + reference + ". Use a full revision ID"@
}

/// The error for a kept revision outside the selected conflict.
pub open spec fn other_conflict_error() -> Seq<char> {
    "--keep references a revision in a different conflict"@
}

/// Whether the positional reference selected another proposition's conflict.
pub open spec fn in_other_conflict(group_proposition: u128, selected: Option<u128>) -> bool {
    selected matches Some(p) && p != group_proposition
}

/// The conflicting revision a reference names. `conflicts` holds each
/// revision of the conflict that the reference selected, with whether the
/// reference matched it; `selected_proposition` is the proposition of the
/// conflict named by the positional reference, when one was given.
pub fn conflicting_revision(
    group_proposition: u128,
    selected_proposition: Option<u128>,
    conflicts: &Vec<(u128, bool)>,
    revision_reference: &str,
) -> (r: Result<u128, String>)
    ensures
        match r {
            Ok(id) => !in_other_conflict(group_proposition, selected_proposition) && matched_ids(
                conflicts@,
            ).len() == 1 && id == matched_ids(conflicts@)[0],
            Err(e) => if in_other_conflict(group_proposition, selected_proposition) {
                e@ == other_conflict_error()
            } else {
                (matched_ids(conflicts@).len() == 0 && e@ == no_match_error()) || (matched_ids(
                    conflicts@,
                ).len() > 1 && e@ == ambiguous_error(revision_reference@))
            },
        },
{
    match selected_proposition {
        Some(p) => {
            if p != group_proposition {
                return Err("--keep references a revision in a different conflict".to_owned());
            }
        },
        None => {},
    }
    let mut matches: Vec<u128> = Vec::new();
    let mut i: usize = 0;
    while i < conflicts.len()
        invariant
            i <= conflicts@.len(),
            matches@ == matched_ids(conflicts@.take(i as int)),
        decreases conflicts@.len() - i,
    {
        assert(conflicts@.take(i + 1).drop_last() =~= conflicts@.take(i as int));
        let (id, matched) = conflicts[i];
        if matched {
            matches.push(id);
        }
        proof {
            assert(conflicts@.take(i + 1).last() == conflicts@[i as int]);
            assert(matches@ =~= matched_ids(conflicts@.take(i + 1)));
        }
        i = i + 1;
    }
    assert(conflicts@.take(conflicts@.len() as int) =~= conflicts@);
    if matches.len() == 1 {
        Ok(matches[0])
    } else if matches.len() == 0 {
        Err("--keep must reference one of the conflicting revisions".to_owned())
    } else {
        let mut e = concat("that reference is ambiguous: ", revision_reference);
        push_str(&mut e, ". Use a full revision ID");
        Err(e)
    }
}

/// Where the revisions of a merge come from.
#[derive(Clone, Copy, Debug, PartialEq, Eq, Structural)]
pub enum MergeSource {
    /// No `--pick`: the two resolved tips of the conflict.
    ConflictTips,
    /// The revisions that the `--pick` values name.
    Picks,
}

/// The error for a single `--pick`.
pub open spec fn too_few_picks_error() -> Seq<char> {
    "--merge requires at least two --pick values"@
}

/// Decides where the revisions of a merge come from, given the number of
/// `--pick` values; a single pick is refused.
pub fn merge_source(pick_count: usize) -> (r: Result<MergeSource, String>)
    ensures
        match r {
            Ok(s) => pick_count != 1 && s == (if pick_count == 0 {
                MergeSource::ConflictTips
            } else {
                MergeSource::Picks
            }),
            Err(e) => pick_count == 1 && e@ == too_few_picks_error(),
        },
{
    if pick_count == 0 {
        Ok(MergeSource::ConflictTips)
    } else if pick_count < 2 {
        Err("--merge requires at least two --pick values".to_owned())
    } else {
        Ok(MergeSource::Picks)
    }
}

/// The error for a conflict whose resolved tips are not two.
pub open spec fn tips_error() -> Seq<char> {
    "--merge requires at least two --pick values for this conflict"@
}

/// The revisions a merge without `--pick` combines: the resolved tips of the
/// conflict, which must be exactly two.
pub fn conflict_tip_revisions(tips: Vec<u128>) -> (r: Result<Vec<u128>, String>)
    ensures
        match r {
            Ok(v) => tips@.len() == 2 && v@ == tips@,
            Err(e) => tips@.len() != 2 && e@ == tips_error(),
        },
{
    if tips.len() != 2 {
        return Err("--merge requires at least two --pick values for this conflict".to_owned());
    }
    Ok(tips)
}

/// Strictly increasing.
pub open spec fn strictly_increasing(s: Seq<u128>) -> bool {
    forall|i: int, j: int| 0 <= i < j < s.len() ==> s[i] < s[j]
}

/// The error for picks that name fewer than two distinct revisions.
pub open spec fn indistinct_picks_error() -> Seq<char> {
    "--merge requires at least two distinct picked revisions"@
}

/// Inserts `x` into a strictly increasing vector, unless it is there.
pub(crate) fn insert_sorted(v: &mut Vec<u128>, x: u128)
    requires
        strictly_increasing(old(v)@),
    ensures
        strictly_increasing(final(v)@),
        final(v)@.to_set() == old(v)@.to_set().insert(x),
{
    let mut i: usize = 0;
    while i < v.len() && v[i] < x
        invariant
            i <= v@.len(),
            strictly_increasing(v@),
            forall|k: int| 0 <= k < i ==> v@[k] < x,
        decreases v@.len() - i,
    {
        i = i + 1;
    }
    if i < v.len() && v[i] == x {
        assert(v@.to_set().insert(x) =~= v@.to_set()) by {
            assert(v@.contains(x)) by {
                assert(v@[i as int] == x);
            }
        }
        return;
    }
    let ghost before = v@;
    v.insert(i, x);
    assert(v@ =~= before.take(i as int).push(x) + before.skip(i as int));
    assert(strictly_increasing(v@)) by {
        assert forall|a: int, b: int| 0 <= a < b < v@.len() implies v@[a] < v@[b] by {
            if b < i {
                assert(v@[a] == before[a] && v@[b] == before[b]);
            } else if b == i {
                assert(v@[a] == before[a]);
            } else if a < i {
                assert(v@[b] == before[b - 1]);
                assert(before[b - 1] >= x) by {
                    if before[b - 1] < x {
                        if b - 1 > i {
                            assert(before[i as int] < before[b - 1]);
                        }
                    }
                }
            } else if a == i {
                assert(v@[b] == before[b - 1]);
                assert(before[b - 1] != x) by {
                    if b - 1 > i {
                        assert(before[i as int] < before[b - 1]);
                    }
                }
                assert(before[b - 1] >= x) by {
                    if b - 1 > i {
                        assert(before[i as int] < before[b - 1]);
                    }
                }
            } else {
                assert(v@[a] == before[a - 1] && v@[b] == before[b - 1]);
            }
        }
    }
    assert(v@.to_set() =~= before.to_set().insert(x)) by {
        assert forall|y: u128| v@.to_set().contains(y) implies before.to_set().insert(x).contains(
            y,
        ) by {
            let k = choose|k: int| 0 <= k < v@.len() && v@[k] == y;
            if k < i {
                assert(before[k] == y);
            } else if k > i {
                assert(before[k - 1] == y);
            }
        }
        assert forall|y: u128| before.to_set().insert(x).contains(y) implies v@.to_set().contains(
            y,
        ) by {
            if y == x {
                assert(v@[i as int] == x);
            } else {
                let k = choose|k: int| 0 <= k < before.len() && before[k] == y;
                if k < i {
                    assert(v@[k] == y);
                } else {
                    assert(v@[k + 1] == y);
                }
            }
        }
    }
}

/// The picked revisions, sorted and without repeats; fewer than two
/// distinct ones are refused.
pub fn distinct_picked_revisions(ids: &Vec<u128>) -> (r: Result<Vec<u128>, String>)
    ensures
        match r {
            Ok(v) => strictly_increasing(v@) && v@.to_set() == ids@.to_set() && v@.len() >= 2,
            Err(e) => ids@.to_set().len() < 2 && e@ == indistinct_picks_error(),
        },
{
    let mut out: Vec<u128> = Vec::new();
    let mut i: usize = 0;
    assert(out@.to_set() =~= ids@.take(0).to_set());
    while i < ids.len()
        invariant
            i <= ids@.len(),
            strictly_increasing(out@),
            out@.to_set() == ids@.take(i as int).to_set(),
        decreases ids@.len() - i,
    {
        insert_sorted(&mut out, ids[i]);
        assert(ids@.take(i + 1) =~= ids@.take(i as int).push(ids@[i as int]));
        proof {
            ids@.take(i as int).lemma_push_to_set_commute(ids@[i as int]);
        }
        i = i + 1;
    }
    assert(ids@.take(ids@.len() as int) =~= ids@);
    proof {
        lemma_increasing_set_len(out@);
    }
    if out.len() < 2 {
        return Err("--merge requires at least two distinct picked revisions".to_owned());
    }
    Ok(out)
}

/// A strictly increasing sequence has as many elements as its set.
proof fn lemma_increasing_set_len(s: Seq<u128>)
    requires
        strictly_increasing(s),
    ensures
        s.to_set().len() == s.len(),
{
    assert(s.no_duplicates()) by {
        assert forall|i: int, j: int| 0 <= i < s.len() && 0 <= j < s.len() && i != j implies s[i]
            != s[j] by {
            if i < j {
                assert(s[i] < s[j]);
            } else {
                assert(s[j] < s[i]);
            }
        }
    }
    s.unique_seq_to_set();
}

/// The editor template for a resolution written by hand: the proposition,
/// its common ancestor and the conflicting revisions, in an HTML comment.
pub open spec fn template_text(
    proposition: u128,
    common_ancestor: Option<u128>,
    conflicts: Seq<u128>,
) -> Seq<char> {
    "# Reconciliation\n\n"@ + "<!--\n"@ + "proposition: "@ + uuid_hyphenated(proposition) + "\n"@
        + match common_ancestor {
        Some(a) => "common ancestor: "@ + uuid_hyphenated(a) + "\n"@,
        None => Seq::empty(),
    } + concat_all(
        conflicts.map_values(|c: u128| "conflicting revision: "@ + uuid_hyphenated(c) + "\n"@),
    ) + "-->\n\n"@
}

/// The bytes of the editor template for a hand-written resolution.
pub fn resolution_template(
    proposition: u128,
    common_ancestor: Option<u128>,
    conflicts: &Vec<u128>,
) -> (b: Vec<u8>)
    ensures
        b@ == encode_utf8(template_text(proposition, common_ancestor, conflicts@)),
{
    let mut text = "# Reconciliation\n\n".to_owned();
    push_str(&mut text, "<!--\n");
    push_str(&mut text, "proposition: ");
    push_str(&mut text, uuid_text(proposition).as_str());
    push_str(&mut text, "\n");
    match common_ancestor {
        Some(a) => {
            push_str(&mut text, "common ancestor: ");
            push_str(&mut text, uuid_text(a).as_str());
            push_str(&mut text, "\n");
        },
        None => {},
    }
    let ghost head = text@;
    let ghost parts = conflicts@.map_values(
        |c: u128| "conflicting revision: "@ + uuid_hyphenated(c) + "\n"@,
    );
    let mut i: usize = 0;
    assert(parts.take(0) =~= Seq::<Seq<char>>::empty());
    assert(text@ =~= head + concat_all(parts.take(0)));
    while i < conflicts.len()
        invariant
            i <= conflicts@.len(),
            parts == conflicts@.map_values(
                |c: u128| "conflicting revision: "@ + uuid_hyphenated(c) + "\n"@,
            ),
            text@ == head + concat_all(parts.take(i as int)),
        decreases conflicts@.len() - i,
    {
        proof {
            lemma_concat_all_step(parts, i as int);
        }
        push_str(&mut text, "conflicting revision: ");
        push_str(&mut text, uuid_text(conflicts[i]).as_str());
        push_str(&mut text, "\n");
        assert(text@ =~= head + concat_all(parts.take(i + 1)));
        i = i + 1;
    }
    assert(parts.take(conflicts@.len() as int) =~= parts);
    push_str(&mut text, "-->\n\n");
    proof {
        assert(text@ =~= template_text(proposition, common_ancestor, conflicts@));
    }
    text_bytes(text.as_str())
}

/// The merge tool `fact resolve --merge` runs: `--tool`, else `$FACT_MERGE`.
pub fn merge_tool_command(tool: Option<String>, configured: Option<String>) -> (r: Result<
    String,
    String,
>)
    ensures
        match r {
            Ok(c) => c@ == match (tool, configured) {
                (Some(t), _) => t@,
                (None, Some(f)) => f@,
                (None, None) => Seq::empty(),
            } && (tool is Some || configured is Some),
            Err(e) => tool is None && configured is None
                && e@ == "no merge tool configured; pass --tool or set FACT_MERGE"@,
        },
{
    match tool {
        Some(t) => Ok(t),
        None => match configured {
            Some(f) => Ok(f),
            None => Err("no merge tool configured; pass --tool or set FACT_MERGE".to_owned()),
        },
    }
}

} // verus!
