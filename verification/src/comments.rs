//! Filters over comments, and the warning given when an actor artifact's
//! file name names another actor.

use vstd::prelude::*;
use vstd::utf8::*;
use crate::book::opt_view;
use crate::bundles::uuid_member;
use crate::ids::{parse_uuid_text, uuid_hyphenated, uuid_parse_spec, uuid_text};
use crate::json::{Json, JsonValue, get_str, str_member};
use crate::names::lower_char;
use crate::text::{after_last, chars_match, chars_of, concat, push_str, str_eq};

verus! {

/// Whether `needle` occurs in `hay`: `str::contains`.
pub open spec fn occurs_in(hay: Seq<char>, needle: Seq<char>) -> bool {
    exists|i: int|
        0 <= i && i + needle.len() <= hay.len() && #[trigger] hay.subrange(i, i + needle.len())
            == needle
}

/// Whether `needle` occurs in `hay`.
pub fn text_contains(hay: &str, needle: &str) -> (r: bool)
    ensures
        r == occurs_in(hay@, needle@),
{
    let h = chars_of(hay);
    let n = chars_of(needle);
    if n.len() > h.len() {
        proof {
            assert forall|i: int|
                0 <= i && i + needle@.len() <= hay@.len() implies #[trigger] hay@.subrange(
                i,
                i + needle@.len(),
            ) != needle@ by {}
        }
        return false;
    }
    let last = h.len() - n.len();
    let mut i: usize = 0;
    while i < last
        invariant
            h@ == hay@,
            n@ == needle@,
            last == h@.len() - n@.len(),
            n@.len() <= h@.len(),
            i <= last,
            forall|j: int| 0 <= j < i ==> #[trigger] hay@.subrange(j, j + needle@.len()) != needle@,
        decreases last - i,
    {
        if chars_match(&h, i, &n) {
            assert(hay@.subrange(i as int, i + needle@.len()) == needle@);
            return true;
        }
        i = i + 1;
    }
    let r = chars_match(&h, last, &n);
    if r {
        assert(hay@.subrange(last as int, last + needle@.len()) == needle@);
    }
    r
}

/// `str::to_ascii_lowercase`.
pub open spec fn ascii_lowercase(s: Seq<char>) -> Seq<char> {
    s.map_values(|c: char| lower_char(c))
}

pub(crate) fn lowercase_text(s: &str) -> (r: String)
    ensures
        r@ == ascii_lowercase(s@),
{
    let v = chars_of(s);
    let mut r = String::new();
    let mut i: usize = 0;
    while i < v.len()
        invariant
            i <= v@.len(),
            v@ == s@,
            r@ == ascii_lowercase(s@.take(i as int)),
        decreases v@.len() - i,
    {
        let c = v[i];
        if 'A' <= c && c <= 'Z' {
            let u = (c as u32 + 32) as u8;
            crate::text::push_char(&mut r, u as char);
        } else {
            crate::text::push_char(&mut r, c);
        }
        assert(r@ =~= ascii_lowercase(s@.take(i + 1)));
        i = i + 1;
    }
    assert(s@.take(v@.len() as int) =~= s@);
    r
}

/// Whether a comment was written by the given actor (any comment, when none
/// is given).
pub open spec fn author_matches(comment: JsonValue, author: Option<u128>) -> bool {
    match author {
        None => true,
        Some(a) => uuid_member(comment, "actor_id"@) == Some(a),
    }
}

/// Whether a comment was written by the given actor.
pub fn comment_matches_author(comment: &Json, author: Option<u128>) -> (r: bool)
    ensures
        r == author_matches(comment@, author),
{
    match author {
        None => true,
        Some(a) => match get_str(comment, "actor_id") {
            Some(s) => match parse_uuid_text(s.as_str()) {
                Ok(u) => u == a,
                Err(_) => false,
            },
            None => false,
        },
    }
}

/// `a < b` for texts: byte-wise lexicographic order.
pub open spec fn bytes_less(a: Seq<u8>, b: Seq<u8>) -> bool
    decreases a.len(),
{
    if a.len() == 0 {
        b.len() > 0
    } else if b.len() == 0 {
        false
    } else if a[0] != b[0] {
        a[0] < b[0]
    } else {
        bytes_less(a.drop_first(), b.drop_first())
    }
}

/// No text comes before itself.
pub proof fn lemma_bytes_less_irreflexive(a: Seq<u8>)
    ensures
        !bytes_less(a, a),
    decreases a.len(),
{
    if a.len() > 0 {
        lemma_bytes_less_irreflexive(a.drop_first());
    }
}

/// Of two texts at most one comes first.
pub proof fn lemma_bytes_less_asymmetric(a: Seq<u8>, b: Seq<u8>)
    ensures
        bytes_less(a, b) ==> !bytes_less(b, a),
    decreases a.len(),
{
    if a.len() > 0 && b.len() > 0 && a[0] == b[0] {
        lemma_bytes_less_asymmetric(a.drop_first(), b.drop_first());
    }
}

/// The order of texts is transitive.
pub proof fn lemma_bytes_less_transitive(a: Seq<u8>, b: Seq<u8>, c: Seq<u8>)
    ensures
        bytes_less(a, b) && bytes_less(b, c) ==> bytes_less(a, c),
    decreases a.len(),
{
    if a.len() > 0 && b.len() > 0 && c.len() > 0 && a[0] == b[0] && b[0] == c[0] {
        lemma_bytes_less_transitive(a.drop_first(), b.drop_first(), c.drop_first());
    }
}

/// Of two different texts one comes first.
pub proof fn lemma_bytes_less_total(a: Seq<u8>, b: Seq<u8>)
    ensures
        a != b ==> bytes_less(a, b) || bytes_less(b, a),
    decreases a.len(),
{
    if a.len() > 0 && b.len() > 0 && a[0] == b[0] {
        lemma_bytes_less_total(a.drop_first(), b.drop_first());
        if a.drop_first() == b.drop_first() {
            assert(a =~= seq![a[0]] + a.drop_first());
            assert(b =~= seq![b[0]] + b.drop_first());
        }
    } else if a.len() == 0 && b.len() == 0 {
        assert(a =~= b);
    }
}

/// `a >= b` for texts.
pub open spec fn text_at_least(a: Seq<char>, b: Seq<char>) -> bool {
    !bytes_less(encode_utf8(a), encode_utf8(b))
}

pub(crate) fn at_least(a: &str, b: &str) -> (r: bool)
    ensures
        r == text_at_least(a@, b@),
{
    let x = a.as_bytes();
    let y = b.as_bytes();
    let mut i: usize = 0;
    assert(x@.skip(0) =~= x@);
    assert(y@.skip(0) =~= y@);
    while i < x.len() && i < y.len() && x[i] == y[i]
        invariant
            i <= x@.len(),
            i <= y@.len(),
            x@ == encode_utf8(a@),
            y@ == encode_utf8(b@),
            bytes_less(x@, y@) == bytes_less(x@.skip(i as int), y@.skip(i as int)),
        decreases x@.len() - i,
    {
        assert(x@.skip(i as int).drop_first() =~= x@.skip(i + 1));
        assert(y@.skip(i as int).drop_first() =~= y@.skip(i + 1));
        i = i + 1;
    }
    if i == x.len() {
        !(i < y.len())
    } else if i == y.len() {
        true
    } else {
        assert(x@.skip(i as int)[0] == x@[i as int]);
        assert(y@.skip(i as int)[0] == y@[i as int]);
        !(x[i] < y[i])
    }
}

/// Whether a comment was created at or after `since` (compared as text; any
/// comment, when none is given).
pub open spec fn since_matches(comment: JsonValue, since: Option<Seq<char>>) -> bool {
    match since {
        None => true,
        Some(s) => match str_member(comment, "created_at"@) {
            Some(c) => text_at_least(c, s),
            None => false,
        },
    }
}

/// Whether a comment was created at or after `since`.
pub fn comment_matches_since(comment: &Json, since: Option<&str>) -> (r: bool)
    ensures
        r == since_matches(
            comment@,
            match since {
                Some(s) => Some(s@),
                None => None,
            },
        ),
{
    match since {
        None => true,
        Some(s) => match get_str(comment, "created_at") {
            Some(c) => at_least(c.as_str(), s),
            None => false,
        },
    }
}

/// Whether a member of a comment holds the needle, after ASCII lowercasing
/// when `fold` is set.
pub open spec fn member_holds(comment: JsonValue, key: Seq<char>, needle: Seq<char>, fold: bool) -> bool {
    match str_member(comment, key) {
        Some(t) => occurs_in(
            if fold {
                ascii_lowercase(t)
            } else {
                t
            },
            needle,
        ),
        None => false,
    }
}

fn member_contains(comment: &Json, key: &str, needle: &str, fold: bool) -> (r: bool)
    ensures
        r == member_holds(comment@, key@, needle@, fold),
{
    match get_str(comment, key) {
        Some(t) => {
            if fold {
                let l = lowercase_text(t.as_str());
                text_contains(l.as_str(), needle)
            } else {
                text_contains(t.as_str(), needle)
            }
        },
        None => false,
    }
}

/// Whether a comment's summary or content, ASCII-lowercased, contains the
/// text (any comment, when none is given).
pub open spec fn text_matches(comment: JsonValue, text: Option<Seq<char>>) -> bool {
    match text {
        None => true,
        Some(t) => member_holds(comment, "summary"@, t, true) || member_holds(
            comment,
            "content"@,
            t,
            true,
        ),
    }
}

/// Whether a comment's summary or content contains the text.
pub fn comment_matches_text(comment: &Json, text: Option<&str>) -> (r: bool)
    ensures
        r == text_matches(
            comment@,
            match text {
                Some(t) => Some(t@),
                None => None,
            },
        ),
{
    match text {
        None => true,
        Some(t) => member_contains(comment, "summary", t, true) || member_contains(
            comment,
            "content",
            t,
            true,
        ),
    }
}

/// Whether a comment's content or summary mentions the actor (any comment,
/// when none is given).
pub open spec fn mention_matches(comment: JsonValue, actor: Option<Seq<char>>) -> bool {
    match actor {
        None => true,
        Some(a) => member_holds(comment, "content"@, a, false) || member_holds(
            comment,
            "summary"@,
            a,
            false,
        ),
    }
}

/// Whether a comment's content or summary mentions the actor.
pub fn comment_matches_mention(comment: &Json, actor: Option<&str>) -> (r: bool)
    ensures
        r == mention_matches(
            comment@,
            match actor {
                Some(a) => Some(a@),
                None => None,
            },
        ),
{
    match actor {
        None => true,
        Some(a) => member_contains(comment, "content", a, false) || member_contains(
            comment,
            "summary",
            a,
            false,
        ),
    }
}

/// The warning for an artifact whose file stem is another actor's UUID.
pub open spec fn stem_mismatch_spec(stem: Option<Seq<char>>, actor: u128) -> Option<Seq<char>> {
    match stem {
        None => None,
        Some(s) => match uuid_parse_spec(encode_utf8(s)) {
            None => None,
            Some(candidate) => if candidate == actor {
                None
            } else {
                Some(
                    "filename actor "@ + uuid_hyphenated(candidate) + " does not match bundle actor "@
                        + uuid_hyphenated(actor) + "; using bundle actor"@,
                )
            },
        },
    }
}

/// The warning for an artifact whose file stem reads as a UUID other than
/// the bundle's actor.
pub fn stem_actor_mismatch(stem: Option<&str>, actor: u128) -> (r: Option<String>)
    ensures
        match r {
            Some(w) => stem_mismatch_spec(
                match stem {
                    Some(s) => Some(s@),
                    None => None,
                },
                actor,
            ) == Some(w@),
            None => stem_mismatch_spec(
                match stem {
                    Some(s) => Some(s@),
                    None => None,
                },
                actor,
            ) is None,
        },
{
    let s = match stem {
        Some(s) => s,
        None => {
            return None;
        },
    };
    let candidate = match parse_uuid_text(s) {
        Ok(c) => c,
        Err(_) => {
            return None;
        },
    };
    if candidate == actor {
        return None;
    }
    let mut w = concat("filename actor ", uuid_text(candidate).as_str());
    push_str(&mut w, " does not match bundle actor ");
    push_str(&mut w, uuid_text(actor).as_str());
    push_str(&mut w, "; using bundle actor");
    Some(w)
}

/// The last position of `c` in `s`, if it occurs.
pub open spec fn last_index_of(s: Seq<char>, c: char) -> Option<int>
    decreases s.len(),
{
    if s.len() == 0 {
        None
    } else if s.last() == c {
        Some(s.len() - 1)
    } else {
        last_index_of(s.drop_last(), c)
    }
}

/// A path whose last component reads the same on every platform: it holds
/// no `\\` and no `:` (so no Windows prefix or second separator), and the
/// text after its last `/` is a plain name, neither empty nor `.` nor `..`.
pub open spec fn plain_path(path: Seq<char>) -> bool {
    let name = after_last(path, '/');
    &&& !path.contains('\\')
    &&& !path.contains(':')
    &&& name.len() > 0
    &&& name != "."@
    &&& name != ".."@
}

/// The stem of a file name as `Path::file_stem` documents it: the whole
/// name when it holds no `.` or holds only a leading one, else the part
/// before the final `.`.
pub open spec fn name_stem(name: Seq<char>) -> Seq<char> {
    match last_index_of(name, '.') {
        Some(k) => if k > 0 {
            name.take(k)
        } else {
            name
        },
        None => name,
    }
}

/// The file stem of a plain path: the stem of its last component.
pub open spec fn plain_path_stem(path: Seq<char>) -> Seq<char> {
    name_stem(after_last(path, '/'))
}

/// `Path::new(path).file_stem()` as text. Of a plain path (see
/// [`plain_path`]) the documentation fixes the result: the last component
/// is the text after the final `/`, and its stem is as [`name_stem`] says;
/// the stem of text is text. How other paths split into components depends
/// on the platform, and nothing is claimed of them.
#[verifier::external_body]
fn path_file_stem(path: &str) -> (r: Option<String>)
    ensures
        plain_path(path@) ==> opt_view(r) == Some(plain_path_stem(path@)),
{
    std::path::Path::new(path).file_stem().and_then(|stem| stem.to_str()).map(str::to_owned)
}

/// The warning for an actor artifact read from `path` whose file stem names
/// another actor; none for standard input (`-`). The stem is taken by
/// `Path::file_stem` and then checked by [`stem_actor_mismatch`].
pub fn filename_actor_mismatch(path: &str, actor: u128) -> (r: Option<String>)
    ensures
        path@ == "-"@ ==> r is None,
        path@ != "-"@ && plain_path(path@) ==> match r {
            Some(w) => stem_mismatch_spec(Some(plain_path_stem(path@)), actor) == Some(w@),
            None => stem_mismatch_spec(Some(plain_path_stem(path@)), actor) is None,
        },
        match r {
            Some(w) => exists|stem: Seq<char>|
                stem_mismatch_spec(Some(stem), actor) == Some(w@),
            None => true,
        },
{
    if str_eq(path, "-") {
        return None;
    }
    let stem = path_file_stem(path);
    match &stem {
        Some(s) => {
            let r = stem_actor_mismatch(Some(s.as_str()), actor);
            match &r {
                Some(w) => {
                    assert(stem_mismatch_spec(Some(s@), actor) == Some(w@));
                },
                None => {},
            }
            r
        },
        None => None,
    }
}

/// The text filter accepts a comment exactly when the query occurs in its
/// ASCII-lowercased summary or in its ASCII-lowercased content; in
/// particular a query found only in the content is found.
pub proof fn law_text_filter_searches_summary_and_content(comment: JsonValue, t: Seq<char>)
    ensures
        text_matches(comment, Some(t)) <==> ((exists|s: Seq<char>|
            str_member(comment, "summary"@) == Some(s) && exists|k: int|
                0 <= k && k + t.len() <= s.len() && #[trigger] ascii_lowercase(s).subrange(
                    k,
                    k + t.len(),
                ) == t) || (exists|c: Seq<char>|
            str_member(comment, "content"@) == Some(c) && exists|k: int|
                0 <= k && k + t.len() <= c.len() && #[trigger] ascii_lowercase(c).subrange(
                    k,
                    k + t.len(),
                ) == t)),
        text_matches(comment, None),
{
    match str_member(comment, "summary"@) {
        Some(s) => {
            assert(ascii_lowercase(s).len() == s.len());
        },
        None => {},
    }
    match str_member(comment, "content"@) {
        Some(c) => {
            assert(ascii_lowercase(c).len() == c.len());
        },
        None => {},
    }
}

} // verus!
