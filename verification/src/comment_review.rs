//! `fact comments`: which comments a review lists, in which order, and how
//! many.
//!
//! Comments are kept when they match every filter; they are then ordered by
//! `created_at` and then `object_id` (oldest first for one proposition's
//! comments, newest first across the ledger), with comments of equal keys
//! kept in the order they were read, and cut to the limit.

use vstd::prelude::*;
use vstd::utf8::*;
use crate::comments::{
    at_least, author_matches, bytes_less, lemma_bytes_less_asymmetric, lemma_bytes_less_irreflexive,
    lemma_bytes_less_total, lemma_bytes_less_transitive, comment_matches_author, comment_matches_mention,
    comment_matches_since, comment_matches_text, lowercase_text, mention_matches, since_matches,
    text_matches, ascii_lowercase,
};
use crate::errors::{FactError, Failure};
use crate::remote::{parse_uuid7, uuid7_spec};
use crate::json::{Json, JsonValue, compact_json, get, get_str, json_compact_text, member, str_member};
use crate::text::{concat_all, contains_text, lemma_concat_all_step, push_str, str_eq, texts, trim, trim_text};

verus! {

/// The filters of a comment review; `text` is already normalized.
pub struct CommentFilter {
    pub author: Option<u128>,
    pub since: Option<String>,
    pub text: Option<String>,
    pub mention: Option<String>,
}

pub open spec fn opt_view(o: Option<String>) -> Option<Seq<char>> {
    match o {
        Some(s) => Some(s@),
        None => None,
    }
}

/// Whether a comment passes every filter.
pub open spec fn keeps(f: CommentFilter, v: JsonValue) -> bool {
    &&& author_matches(v, f.author)
    &&& since_matches(v, opt_view(f.since))
    &&& text_matches(v, opt_view(f.text))
    &&& mention_matches(v, opt_view(f.mention))
}

/// The comments that pass every filter, in the order they were read.
pub open spec fn kept(s: Seq<JsonValue>, f: CommentFilter) -> Seq<JsonValue>
    decreases s.len(),
{
    if s.len() == 0 {
        Seq::empty()
    } else {
        kept(s.drop_last(), f) + if keeps(f, s.last()) {
            seq![s.last()]
        } else {
            Seq::empty()
        }
    }
}

/// The values of a list of documents.
pub open spec fn values_of(v: Seq<Json>) -> Seq<JsonValue> {
    v.map_values(|j: Json| j@)
}

/// An optional text as its UTF-8 bytes.
pub open spec fn opt_bytes(o: Option<Seq<char>>) -> Option<Seq<u8>> {
    match o {
        Some(s) => Some(encode_utf8(s)),
        None => None,
    }
}

/// The order key of a comment: its `created_at`, then its `object_id`, each
/// when it is a string.
pub open spec fn comment_key(v: JsonValue) -> (Option<Seq<u8>>, Option<Seq<u8>>) {
    (opt_bytes(str_member(v, "created_at"@)), opt_bytes(str_member(v, "object_id"@)))
}

/// `a < b` for optional texts: a missing text comes first.
pub open spec fn opt_less(a: Option<Seq<u8>>, b: Option<Seq<u8>>) -> bool {
    match (a, b) {
        (None, Some(_)) => true,
        (Some(x), Some(y)) => bytes_less(x, y),
        _ => false,
    }
}

/// `a < b` for order keys: by the first text, then by the second.
pub open spec fn key_less(
    a: (Option<Seq<u8>>, Option<Seq<u8>>),
    b: (Option<Seq<u8>>, Option<Seq<u8>>),
) -> bool {
    opt_less(a.0, b.0) || (a.0 == b.0 && opt_less(a.1, b.1))
}

/// Whether a key comes strictly before another in the review's direction.
pub open spec fn key_before(
    ascending: bool,
    a: (Option<Seq<u8>>, Option<Seq<u8>>),
    b: (Option<Seq<u8>>, Option<Seq<u8>>),
) -> bool {
    if ascending {
        key_less(a, b)
    } else {
        key_less(b, a)
    }
}

/// `output` is `input` stably sorted by comment key in the given direction,
/// `p` telling where each output item was in the input.
pub open spec fn stably_sorted(
    input: Seq<JsonValue>,
    output: Seq<JsonValue>,
    p: Seq<int>,
    ascending: bool,
) -> bool {
    &&& output.len() == input.len()
    &&& p.len() == input.len()
    &&& forall|k: int| 0 <= k < p.len() ==> 0 <= #[trigger] p[k] < input.len() && output[k] == input[p[k]]
    &&& forall|a: int, b: int| 0 <= a < b < p.len() ==> #[trigger] p[a] != #[trigger] p[b]
    &&& forall|a: int, b: int|
        0 <= a < b < output.len() ==> !key_before(
            ascending,
            comment_key(#[trigger] output[b]),
            comment_key(#[trigger] output[a]),
        )
    &&& forall|a: int, b: int|
        0 <= a < b < output.len() && comment_key(#[trigger] output[a]) == comment_key(
            #[trigger] output[b],
        ) ==> p[a] < p[b]
}

/// The order on keys is a strict total order.
proof fn lemma_key_order(
    a: (Option<Seq<u8>>, Option<Seq<u8>>),
    b: (Option<Seq<u8>>, Option<Seq<u8>>),
    c: (Option<Seq<u8>>, Option<Seq<u8>>),
)
    ensures
        !key_less(a, a),
        key_less(a, b) ==> !key_less(b, a),
        key_less(a, b) && key_less(b, c) ==> key_less(a, c),
        a != b ==> key_less(a, b) || key_less(b, a),
{
    match a.0 {
        Some(x) => lemma_bytes_less_irreflexive(x),
        None => {},
    }
    match a.1 {
        Some(x) => lemma_bytes_less_irreflexive(x),
        None => {},
    }
    match (a.0, b.0) {
        (Some(x), Some(y)) => {
            lemma_bytes_less_asymmetric(x, y);
            lemma_bytes_less_total(x, y);
        },
        _ => {},
    }
    match (a.1, b.1) {
        (Some(x), Some(y)) => {
            lemma_bytes_less_asymmetric(x, y);
            lemma_bytes_less_total(x, y);
        },
        _ => {},
    }
    match (a.0, b.0, c.0) {
        (Some(x), Some(y), Some(z)) => {
            lemma_bytes_less_transitive(x, y, z);
            lemma_bytes_less_irreflexive(x);
        },
        _ => {},
    }
    match (a.1, b.1, c.1) {
        (Some(x), Some(y), Some(z)) => lemma_bytes_less_transitive(x, y, z),
        _ => {},
    }
    match (b.0, c.0) {
        (Some(y), Some(z)) => lemma_bytes_less_asymmetric(y, z),
        _ => {},
    }
    match (a.0, c.0) {
        (Some(x), Some(z)) => lemma_bytes_less_asymmetric(x, z),
        _ => {},
    }
    assert(a != b ==> a.0 != b.0 || a.1 != b.1);
}

/// An order key held as texts.
pub struct CommentKey {
    pub created_at: Option<String>,
    pub object_id: Option<String>,
}

pub open spec fn key_view(k: CommentKey) -> (Option<Seq<u8>>, Option<Seq<u8>>) {
    (opt_bytes(opt_view(k.created_at)), opt_bytes(opt_view(k.object_id)))
}

fn key_of(v: &Json) -> (k: CommentKey)
    ensures
        key_view(k) == comment_key(v@),
{
    CommentKey { created_at: get_str(v, "created_at"), object_id: get_str(v, "object_id") }
}

fn opt_text_less(a: &Option<String>, b: &Option<String>) -> (r: bool)
    ensures
        r == opt_less(opt_bytes(opt_view(*a)), opt_bytes(opt_view(*b))),
{
    match (a, b) {
        (None, Some(_)) => true,
        (Some(x), Some(y)) => !at_least(x.as_str(), y.as_str()),
        _ => false,
    }
}

fn key_is_less(a: &CommentKey, b: &CommentKey) -> (r: bool)
    ensures
        r == key_less(key_view(*a), key_view(*b)),
{
    if opt_text_less(&a.created_at, &b.created_at) {
        return true;
    }
    if opt_text_less(&b.created_at, &a.created_at) {
        proof {
            lemma_key_order(key_view(*a), key_view(*b), key_view(*a));
            let (x, y) = (key_view(*a).0, key_view(*b).0);
            match (x, y) {
                (Some(s), Some(t)) => lemma_bytes_less_asymmetric(s, t),
                _ => {},
            }
        }
        return false;
    }
    proof {
        let (x, y) = (key_view(*a).0, key_view(*b).0);
        match (x, y) {
            (Some(s), Some(t)) => lemma_bytes_less_total(s, t),
            _ => {},
        }
        assert(x == y);
    }
    opt_text_less(&a.object_id, &b.object_id)
}

fn is_before(ascending: bool, a: &CommentKey, b: &CommentKey) -> (r: bool)
    ensures
        r == key_before(ascending, key_view(*a), key_view(*b)),
{
    if ascending {
        key_is_less(a, b)
    } else {
        key_is_less(b, a)
    }
}

/// The comments that pass every filter, in the order they were read.
fn filter_comments(comments: Vec<Json>, f: &CommentFilter) -> (r: Vec<Json>)
    ensures
        values_of(r@) == kept(values_of(comments@), *f),
{
    let ghost all = values_of(comments@);
    let mut out: Vec<Json> = Vec::new();
    let n = comments.len();
    let mut rest = comments;
    let mut i: usize = 0;
    assert(all.take(0) =~= Seq::<JsonValue>::empty());
    while rest.len() > 0
        invariant
            i + rest@.len() == n,
            n == all.len(),
            forall|k: int| 0 <= k < rest@.len() ==> #[trigger] rest@[k]@ == all[i + k],
            values_of(out@) == kept(all.take(i as int), *f),
        decreases rest@.len(),
    {
        let ghost before = rest@;
        let c = rest.remove(0);
        assert(rest@ =~= before.drop_first());
        assert(c@ == all[i as int]) by {
            assert(before[0]@ == all[i + 0]);
        }
        assert forall|k: int| 0 <= k < rest@.len() implies #[trigger] rest@[k]@ == all[(i + 1) + k] by {
            assert(rest@[k] == before[k + 1]);
        }
        assert(all.take(i + 1).drop_last() =~= all.take(i as int));
        assert(all.take(i + 1).last() == all[i as int]);
        let author_ok = comment_matches_author(&c, f.author);
        let since_ok = match &f.since {
            Some(s) => comment_matches_since(&c, Some(s.as_str())),
            None => comment_matches_since(&c, None),
        };
        let text_ok = match &f.text {
            Some(t) => comment_matches_text(&c, Some(t.as_str())),
            None => comment_matches_text(&c, None),
        };
        let mention_ok = match &f.mention {
            Some(m) => comment_matches_mention(&c, Some(m.as_str())),
            None => comment_matches_mention(&c, None),
        };
        let ghost prev = values_of(out@);
        if author_ok && since_ok && text_ok && mention_ok {
            out.push(c);
            assert(values_of(out@) =~= prev.push(all[i as int]));
        } else {
            assert(values_of(out@) =~= prev);
        }
        assert(values_of(out@) =~= kept(all.take(i + 1), *f));
        i = i + 1;
    }
    assert(all.take(n as int) =~= all);
    out
}

/// Inserting the next input item just before the first item it comes
/// before keeps the output stably sorted.
proof fn lemma_insert_sorted(
    inp: Seq<JsonValue>,
    outv: Seq<JsonValue>,
    p: Seq<int>,
    pos: int,
    ascending: bool,
)
    requires
        inp.len() >= 1,
        stably_sorted(inp.drop_last(), outv, p, ascending),
        0 <= pos <= outv.len(),
        forall|a: int|
            0 <= a < pos ==> !key_before(
                ascending,
                comment_key(inp.last()),
                #[trigger] comment_key(outv[a]),
            ),
        pos < outv.len() ==> key_before(ascending, comment_key(inp.last()), comment_key(outv[pos])),
    ensures
        stably_sorted(inp, outv.insert(pos, inp.last()), p.insert(pos, inp.len() - 1), ascending),
{
    let i = inp.len() - 1;
    let x = inp.last();
    let kx = comment_key(x);
    let newv = outv.insert(pos, x);
    let np = p.insert(pos, i);
    assert forall|a: int| pos <= a < outv.len() implies key_before(
        ascending,
        kx,
        #[trigger] comment_key(outv[a]),
    ) by {
        if a > pos {
            let kp = comment_key(outv[pos]);
            let ka = comment_key(outv[a]);
            assert(!key_before(ascending, comment_key(outv[a]), comment_key(outv[pos])));
            lemma_key_order(kx, kp, ka);
            lemma_key_order(ka, kp, kx);
            lemma_key_order(kp, ka, kx);
            lemma_key_order(kx, ka, kp);
        }
    }
    assert forall|k2: int| 0 <= k2 < np.len() implies 0 <= #[trigger] np[k2] < inp.len() && newv[k2]
        == inp[np[k2]] by {
        if k2 < pos {
            assert(np[k2] == p[k2]);
        } else if k2 > pos {
            assert(np[k2] == p[k2 - 1]);
        }
    }
    assert forall|a: int, b: int| 0 <= a < b < np.len() implies #[trigger] np[a] != #[trigger] np[b] by {
        if a != pos && b != pos {
            let a0 = if a < pos {
                a
            } else {
                a - 1
            };
            let b0 = if b < pos {
                b
            } else {
                b - 1
            };
            assert(np[a] == p[a0] && np[b] == p[b0]);
            assert(p[a0] != p[b0]);
        } else if a == pos {
            assert(np[b] == p[b - 1]);
        } else {
            assert(np[a] == p[a]);
        }
    }
    assert forall|a: int, b: int| 0 <= a < b < newv.len() implies !key_before(
        ascending,
        comment_key(#[trigger] newv[b]),
        comment_key(#[trigger] newv[a]),
    ) by {
        if a != pos && b != pos {
            let a0 = if a < pos {
                a
            } else {
                a - 1
            };
            let b0 = if b < pos {
                b
            } else {
                b - 1
            };
            assert(newv[a] == outv[a0] && newv[b] == outv[b0]);
        } else if a == pos {
            assert(newv[b] == outv[b - 1]);
            assert(key_before(ascending, kx, comment_key(outv[b - 1])));
            lemma_key_order(kx, comment_key(outv[b - 1]), kx);
        } else {
            assert(newv[a] == outv[a]);
        }
    }
    assert forall|a: int, b: int|
        0 <= a < b < newv.len() && comment_key(#[trigger] newv[a]) == comment_key(
            #[trigger] newv[b],
        ) implies np[a] < np[b] by {
        if a != pos && b != pos {
            let a0 = if a < pos {
                a
            } else {
                a - 1
            };
            let b0 = if b < pos {
                b
            } else {
                b - 1
            };
            assert(newv[a] == outv[a0] && newv[b] == outv[b0]);
            assert(np[a] == p[a0] && np[b] == p[b0]);
        } else if a == pos {
            assert(newv[b] == outv[b - 1]);
            assert(key_before(ascending, kx, comment_key(outv[b - 1])));
            lemma_key_order(kx, kx, kx);
        } else {
            assert(np[a] == p[a]);
            assert(0 <= p[a] < i);
        }
    }
}

/// Sorts comments stably by their keys, oldest first when `ascending`,
/// newest first otherwise.
fn sort_comments(comments: Vec<Json>, ascending: bool) -> (r: Vec<Json>)
    ensures
        exists|p: Seq<int>| #[trigger] stably_sorted(values_of(comments@), values_of(r@), p, ascending),
{
    let ghost input = values_of(comments@);
    let total = comments.len();
    let mut rest = comments;
    let mut out: Vec<Json> = Vec::new();
    let mut keys: Vec<CommentKey> = Vec::new();
    let ghost mut p: Seq<int> = Seq::empty();
    let mut i: usize = 0;
    assert(input.take(0) =~= Seq::<JsonValue>::empty());
    assert(values_of(out@) =~= Seq::<JsonValue>::empty());
    while rest.len() > 0
        invariant
            i + rest@.len() == total,
            total == input.len(),
            forall|k: int| 0 <= k < rest@.len() ==> #[trigger] rest@[k]@ == input[i + k],
            keys@.len() == out@.len(),
            out@.len() == i,
            forall|k: int|
                0 <= k < keys@.len() ==> key_view(#[trigger] keys@[k]) == comment_key(out@[k]@),
            stably_sorted(input.take(i as int), values_of(out@), p, ascending),
        decreases rest@.len(),
    {
        let ghost before = rest@;
        let c = rest.remove(0);
        assert(rest@ =~= before.drop_first());
        assert(c@ == input[i as int]) by {
            assert(before[0]@ == input[i + 0]);
        }
        assert forall|k: int| 0 <= k < rest@.len() implies #[trigger] rest@[k]@ == input[(i + 1)
            + k] by {
            assert(rest@[k] == before[k + 1]);
        }
        let k = key_of(&c);
        let mut pos: usize = 0;
        while pos < keys.len() && !is_before(ascending, &k, &keys[pos])
            invariant
                pos <= keys@.len(),
                forall|q: int|
                    0 <= q < pos ==> !key_before(
                        ascending,
                        key_view(k),
                        #[trigger] key_view(keys@[q]),
                    ),
            decreases keys@.len() - pos,
        {
            pos = pos + 1;
        }
        let ghost outv = values_of(out@);
        let ghost old_keys = keys@;
        let ghost old_out = out@;
        proof {
            let inp = input.take(i + 1);
            assert(inp.drop_last() =~= input.take(i as int));
            assert(inp.last() == c@);
            assert forall|a: int| 0 <= a < pos implies !key_before(
                ascending,
                comment_key(inp.last()),
                #[trigger] comment_key(outv[a]),
            ) by {
                assert(key_view(keys@[a]) == comment_key(out@[a]@));
            }
            if pos < keys@.len() {
                assert(key_view(keys@[pos as int]) == comment_key(out@[pos as int]@));
            }
            lemma_insert_sorted(inp, outv, p, pos as int, ascending);
            p = p.insert(pos as int, i as int);
        }
        out.insert(pos, c);
        keys.insert(pos, k);
        proof {
            assert(values_of(out@) =~= outv.insert(pos as int, c@));
            assert forall|a: int| 0 <= a < keys@.len() implies key_view(#[trigger] keys@[a])
                == comment_key(out@[a]@) by {
                if a < pos {
                    assert(keys@[a] == old_keys[a] && out@[a] == old_out[a]);
                } else if a > pos {
                    assert(keys@[a] == old_keys[a - 1] && out@[a] == old_out[a - 1]);
                }
            }
        }
        i = i + 1;
    }
    assert(input.take(total as int) =~= input);
    out
}

/// The text filter of a review: trimmed and ASCII-lowercased; an empty one
/// filters nothing.
pub open spec fn text_query_spec(text: Option<Seq<char>>) -> Option<Seq<char>> {
    match text {
        Some(t) => if ascii_lowercase(trim(t)).len() > 0 {
            Some(ascii_lowercase(trim(t)))
        } else {
            None
        },
        None => None,
    }
}

/// Normalizes the `--text` filter of a review.
pub fn comment_text_query(text: Option<&str>) -> (r: Option<String>)
    ensures
        opt_view(r) == text_query_spec(
            match text {
                Some(t) => Some(t@),
                None => None,
            },
        ),
{
    match text {
        Some(t) => {
            let trimmed = trim_text(t);
            let lowered = lowercase_text(trimmed.as_str());
            if crate::text::char_len(lowered.as_str()) > 0 {
                Some(lowered)
            } else {
                None
            }
        },
        None => None,
    }
}

/// The comments a review lists: those that pass every filter, stably
/// sorted (oldest first when `ascending`), cut to `limit`.
pub fn review_comments(comments: Vec<Json>, filter: &CommentFilter, ascending: bool, limit: usize) -> (r: Vec<Json>)
    ensures
        exists|sorted: Seq<JsonValue>, p: Seq<int>|
            #[trigger] stably_sorted(kept(values_of(comments@), *filter), sorted, p, ascending)
                && values_of(r@) == sorted.take(
                if limit < sorted.len() {
                    limit as int
                } else {
                    sorted.len() as int
                },
            ),
{
    let kept_comments = filter_comments(comments, filter);
    let mut sorted = sort_comments(kept_comments, ascending);
    let ghost full = values_of(sorted@);
    sorted.truncate(limit);
    assert(values_of(sorted@) =~= full.take(
        if limit < full.len() {
            limit as int
        } else {
            full.len() as int
        },
    ));
    sorted
}

/// The first decisions of a review: unresolved comments cannot be told
/// apart yet, and a limit of zero lists nothing. `Ok(true)` when the review
/// goes on.
pub fn comment_review_start(unresolved: bool, limit: usize) -> (r: Result<bool, String>)
    ensures
        match r {
            Ok(go) => !unresolved && go == (limit > 0),
            Err(e) => unresolved && e@ == unresolved_error(),
        },
{
    if unresolved {
        return Err(
            "unresolved comment filtering is not available yet; comment lifecycle state is not first-class protocol data".to_owned(),
        );
    }
    Ok(limit > 0)
}

pub open spec fn unresolved_error() -> Seq<char> {
    "unresolved comment filtering is not available yet; comment lifecycle state is not first-class protocol data"@
}

pub open spec fn mentions_me_error() -> Seq<char> {
    "--mentions-me requires an active signing identity for this ledger"@
}

/// The actor whose mentions `--mentions-me` looks for: the ledger's signing
/// identity, which must exist.
pub fn mentioned_actor(mentions_me: bool, actor_id: &str) -> (r: Result<Option<String>, String>)
    ensures
        match r {
            Ok(m) => (mentions_me ==> actor_id@.len() > 0) && opt_view(m) == (if mentions_me {
                Some(actor_id@)
            } else {
                None
            }),
            Err(e) => mentions_me && actor_id@.len() == 0 && e@ == mentions_me_error(),
        },
{
    if !mentions_me {
        return Ok(None);
    }
    if crate::text::char_len(actor_id) == 0 {
        return Err("--mentions-me requires an active signing identity for this ledger".to_owned());
    }
    Ok(Some(actor_id.to_owned()))
}

/// Whose comments a review keeps.
#[derive(Debug)]
pub enum AuthorChoice {
    /// Every author's.
    Anyone,
    /// The actor with this ID.
    Actor(u128),
    /// The actor that the ledger directory finds for this reference.
    Lookup(String),
}

/// The author a review keeps, from `--mine` and `--author`.
pub open spec fn author_choice_spec(mine: bool, author: Option<Seq<char>>, actor_id: Seq<char>) -> Result<
    Option<Result<u128, Seq<char>>>,
    Failure,
> {
    if mine && author is Some {
        Err(Failure::User("use either --mine or --author, not both"@))
    } else if mine {
        if actor_id.len() == 0 {
            Err(Failure::User("--mine requires an active signing identity for this ledger"@))
        } else {
            match uuid7_spec(actor_id, "actor"@) {
                Ok(v) => Ok(Some(Ok(v))),
                Err(e) => Err(e),
            }
        }
    } else {
        match author {
            None => Ok(None),
            Some(a) => match uuid7_spec(a, "author"@) {
                Ok(v) => Ok(Some(Ok(v))),
                Err(_) => Ok(Some(Err(a))),
            },
        }
    }
}

pub open spec fn author_choice_view(r: Result<AuthorChoice, FactError>) -> Result<
    Option<Result<u128, Seq<char>>>,
    Failure,
> {
    match r {
        Ok(AuthorChoice::Anyone) => Ok(None),
        Ok(AuthorChoice::Actor(v)) => Ok(Some(Ok(v))),
        Ok(AuthorChoice::Lookup(a)) => Ok(Some(Err(a@))),
        Err(e) => Err(e@),
    }
}

/// Chooses whose comments a review keeps: with `--mine` the ledger's
/// signing identity, with `--author` the given ID, or else the reference
/// to look up in the ledger directory.
pub fn comment_author_choice(mine: bool, author: Option<&str>, actor_id: &str) -> (r: Result<
    AuthorChoice,
    FactError,
>)
    ensures
        author_choice_view(r) == author_choice_spec(mine, opt_str_view(author), actor_id@),
{
    if mine && author.is_some() {
        return Err(FactError::User("use either --mine or --author, not both".to_owned()));
    }
    if mine {
        if crate::text::char_len(actor_id) == 0 {
            return Err(
                FactError::User(
                    "--mine requires an active signing identity for this ledger".to_owned(),
                ),
            );
        }
        return match parse_uuid7(actor_id, "actor") {
            Ok(v) => Ok(AuthorChoice::Actor(v)),
            Err(e) => Err(e),
        };
    }
    match author {
        None => Ok(AuthorChoice::Anyone),
        Some(a) => match parse_uuid7(a, "author") {
            Ok(v) => Ok(AuthorChoice::Actor(v)),
            Err(_) => Ok(AuthorChoice::Lookup(a.to_owned())),
        },
    }
}

pub open spec fn opt_str_view(o: Option<&str>) -> Option<Seq<char>> {
    match o {
        Some(s) => Some(s@),
        None => None,
    }
}

/// A field of a comment as the review shows it: a string as it is, any
/// other value (or a missing one, as `null`) as compact JSON.
pub open spec fn field_text(v: JsonValue, name: Seq<char>) -> Seq<char> {
    match member(v, name) {
        Some(JsonValue::Str(s)) => s,
        Some(x) => json_compact_text(x),
        None => json_compact_text(JsonValue::Null),
    }
}

fn field_of(v: &Json, name: &str) -> (r: String)
    ensures
        r@ == field_text(v@, name@),
{
    match get(v, name) {
        Some(m) => match m {
            Json::Str(s) => s.clone(),
            _ => compact_json(m),
        },
        None => compact_json(&Json::Null),
    }
}

/// The proposition a comment is grouped under in a ledger-wide review.
pub open spec fn group_key(v: JsonValue) -> Seq<char> {
    match str_member(v, "proposition_ref"@) {
        Some(s) => s,
        None => match str_member(v, "proposition_id"@) {
            Some(s) => s,
            None => "unknown proposition"@,
        },
    }
}

/// The texts of a list without repeats, in the order first seen.
pub open spec fn distinct_in_order(keys: Seq<Seq<char>>) -> Seq<Seq<char>>
    decreases keys.len(),
{
    if keys.len() == 0 {
        Seq::empty()
    } else if distinct_in_order(keys.drop_last()).contains(keys.last()) {
        distinct_in_order(keys.drop_last())
    } else {
        distinct_in_order(keys.drop_last()).push(keys.last())
    }
}

/// A comment's line under its proposition.
pub open spec fn grouped_line(v: JsonValue) -> Seq<char> {
    "  "@ + field_text(v, "reference"@) + "  "@ + field_text(v, "actor_id"@) + "  "@ + field_text(
        v,
        "created_at"@,
    ) + "  "@ + field_text(v, "summary"@) + "\n"@
}

/// The lines of the comments grouped under a proposition, in order.
pub open spec fn group_lines(cs: Seq<JsonValue>, key: Seq<char>) -> Seq<char>
    decreases cs.len(),
{
    if cs.len() == 0 {
        Seq::empty()
    } else {
        group_lines(cs.drop_last(), key) + if group_key(cs.last()) == key {
            grouped_line(cs.last())
        } else {
            Seq::empty()
        }
    }
}

/// A ledger-wide review: each proposition, in the order first met, then its
/// comments.
pub open spec fn grouped_text(cs: Seq<JsonValue>) -> Seq<char> {
    concat_all(
        distinct_in_order(cs.map_values(|v: JsonValue| group_key(v))).map_values(
            |k: Seq<char>| k + "\n"@ + group_lines(cs, k),
        ),
    )
}

/// A comment's line in a review of one proposition.
pub open spec fn scoped_line(v: JsonValue) -> Seq<char> {
    field_text(v, "reference"@) + "  "@ + field_text(v, "actor_id"@) + "  "@ + field_text(
        v,
        "summary"@,
    ) + "\n"@
}

/// A comment shown with its content; entries after the first are set off by
/// a blank line.
pub open spec fn content_entry(v: JsonValue, first: bool) -> Seq<char> {
    (if first {
        Seq::empty()
    } else {
        "\n"@
    }) + field_text(v, "reference"@) + "  "@ + field_text(v, "actor_id"@) + "  "@ + field_text(
        v,
        "created_at"@,
    ) + "\n"@ + "\n"@ + match str_member(v, "content"@) {
        Some(c) => c,
        None => Seq::empty(),
    }
}

/// What a comment review prints.
pub open spec fn review_text(cs: Seq<JsonValue>, scoped: bool, content: bool) -> Seq<char> {
    if cs.len() == 0 {
        "no comments\n"@
    } else if content {
        concat_all(Seq::new(cs.len(), |i: int| content_entry(cs[i], i == 0)))
    } else if scoped {
        concat_all(cs.map_values(|v: JsonValue| scoped_line(v)))
    } else {
        grouped_text(cs)
    }
}

fn group_key_of(v: &Json) -> (r: String)
    ensures
        r@ == group_key(v@),
{
    match get_str(v, "proposition_ref") {
        Some(s) => s,
        None => match get_str(v, "proposition_id") {
            Some(s) => s,
            None => "unknown proposition".to_owned(),
        },
    }
}

fn grouped_line_of(v: &Json) -> (r: String)
    ensures
        r@ == grouped_line(v@),
{
    let mut r = "  ".to_owned();
    push_str(&mut r, field_of(v, "reference").as_str());
    push_str(&mut r, "  ");
    push_str(&mut r, field_of(v, "actor_id").as_str());
    push_str(&mut r, "  ");
    push_str(&mut r, field_of(v, "created_at").as_str());
    push_str(&mut r, "  ");
    push_str(&mut r, field_of(v, "summary").as_str());
    push_str(&mut r, "\n");
    assert(r@ =~= grouped_line(v@));
    r
}

fn group_text(comments: &Vec<Json>, key: &String) -> (r: String)
    ensures
        r@ == key@ + "\n"@ + group_lines(values_of(comments@), key@),
{
    let ghost cs = values_of(comments@);
    let mut r = key.clone();
    push_str(&mut r, "\n");
    let ghost head = r@;
    let mut i: usize = 0;
    assert(cs.take(0) =~= Seq::<JsonValue>::empty());
    while i < comments.len()
        invariant
            i <= comments@.len(),
            cs == values_of(comments@),
            r@ == head + group_lines(cs.take(i as int), key@),
        decreases comments@.len() - i,
    {
        assert(cs.take(i + 1).drop_last() =~= cs.take(i as int));
        assert(cs.take(i + 1).last() == comments@[i as int]@);
        let k = group_key_of(&comments[i]);
        if str_eq(k.as_str(), key.as_str()) {
            push_str(&mut r, grouped_line_of(&comments[i]).as_str());
        }
        assert(r@ =~= head + group_lines(cs.take(i + 1), key@));
        i = i + 1;
    }
    assert(cs.take(comments@.len() as int) =~= cs);
    r
}

fn group_keys(comments: &Vec<Json>) -> (r: Vec<String>)
    ensures
        texts(r@) == distinct_in_order(values_of(comments@).map_values(|v: JsonValue| group_key(v))),
{
    let ghost keys = values_of(comments@).map_values(|v: JsonValue| group_key(v));
    let mut r: Vec<String> = Vec::new();
    let mut i: usize = 0;
    assert(keys.take(0) =~= Seq::<Seq<char>>::empty());
    while i < comments.len()
        invariant
            i <= comments@.len(),
            keys == values_of(comments@).map_values(|v: JsonValue| group_key(v)),
            texts(r@) == distinct_in_order(keys.take(i as int)),
        decreases comments@.len() - i,
    {
        assert(keys.take(i + 1).drop_last() =~= keys.take(i as int));
        let k = group_key_of(&comments[i]);
        assert(keys.take(i + 1).last() == k@);
        if !contains_text(&r, &k) {
            let ghost before = r@;
            r.push(k);
            assert(texts(r@) =~= texts(before).push(keys[i as int]));
        }
        i = i + 1;
    }
    assert(keys.take(comments@.len() as int) =~= keys);
    r
}

fn grouped_review(comments: &Vec<Json>) -> (r: String)
    ensures
        r@ == grouped_text(values_of(comments@)),
{
    let ghost cs = values_of(comments@);
    let keys = group_keys(comments);
    let ghost ks = texts(keys@);
    let ghost parts = ks.map_values(|k: Seq<char>| k + "\n"@ + group_lines(cs, k));
    let mut r = String::new();
    let mut i: usize = 0;
    assert(parts.take(0) =~= Seq::<Seq<char>>::empty());
    while i < keys.len()
        invariant
            i <= keys@.len(),
            cs == values_of(comments@),
            ks == texts(keys@),
            parts == ks.map_values(|k: Seq<char>| k + "\n"@ + group_lines(cs, k)),
            r@ == concat_all(parts.take(i as int)),
        decreases keys@.len() - i,
    {
        proof {
            lemma_concat_all_step(parts, i as int);
        }
        push_str(&mut r, group_text(comments, &keys[i]).as_str());
        i = i + 1;
    }
    assert(parts.take(keys@.len() as int) =~= parts);
    r
}

fn scoped_line_of(v: &Json) -> (r: String)
    ensures
        r@ == scoped_line(v@),
{
    let mut r = field_of(v, "reference");
    push_str(&mut r, "  ");
    push_str(&mut r, field_of(v, "actor_id").as_str());
    push_str(&mut r, "  ");
    push_str(&mut r, field_of(v, "summary").as_str());
    push_str(&mut r, "\n");
    assert(r@ =~= scoped_line(v@));
    r
}

fn content_entry_of(v: &Json, first: bool) -> (r: String)
    ensures
        r@ == content_entry(v@, first),
{
    let mut r = String::new();
    if !first {
        push_str(&mut r, "\n");
    }
    push_str(&mut r, field_of(v, "reference").as_str());
    push_str(&mut r, "  ");
    push_str(&mut r, field_of(v, "actor_id").as_str());
    push_str(&mut r, "  ");
    push_str(&mut r, field_of(v, "created_at").as_str());
    push_str(&mut r, "\n");
    push_str(&mut r, "\n");
    match get_str(v, "content") {
        Some(c) => push_str(&mut r, c.as_str()),
        None => {},
    }
    assert(r@ =~= content_entry(v@, first));
    r
}

/// The text a comment review prints: `no comments`; or each comment with
/// its content; or, for one proposition, a line each; or, across the
/// ledger, the comments grouped by proposition.
pub fn comments_review_text(comments: &Vec<Json>, scoped: bool, content: bool) -> (r: String)
    ensures
        r@ == review_text(values_of(comments@), scoped, content),
{
    let ghost cs = values_of(comments@);
    if comments.len() == 0 {
        return "no comments\n".to_owned();
    }
    if !content && !scoped {
        return grouped_review(comments);
    }
    let ghost parts = if content {
        Seq::new(cs.len(), |i: int| content_entry(cs[i], i == 0))
    } else {
        cs.map_values(|v: JsonValue| scoped_line(v))
    };
    let mut r = String::new();
    let mut i: usize = 0;
    assert(parts.take(0) =~= Seq::<Seq<char>>::empty());
    while i < comments.len()
        invariant
            i <= comments@.len(),
            cs == values_of(comments@),
            parts.len() == cs.len(),
            parts == (if content {
                Seq::new(cs.len(), |i: int| content_entry(cs[i], i == 0))
            } else {
                cs.map_values(|v: JsonValue| scoped_line(v))
            }),
            r@ == concat_all(parts.take(i as int)),
        decreases comments@.len() - i,
    {
        proof {
            lemma_concat_all_step(parts, i as int);
        }
        let piece = if content {
            content_entry_of(&comments[i], i == 0)
        } else {
            scoped_line_of(&comments[i])
        };
        push_str(&mut r, piece.as_str());
        i = i + 1;
    }
    assert(parts.take(comments@.len() as int) =~= parts);
    r
}

} // verus!
