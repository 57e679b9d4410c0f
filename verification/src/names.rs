//! Portable names: the file stems of actor artifacts, the keys of the actor
//! registry, remote names and directory slugs.

use vstd::prelude::*;
use vstd::utf8::*;
use crate::errors::{FactError, Failure, text_outcome};
use crate::text::{chars_of, concat, is_ascii_alnum_byte, is_ascii_alnum_char, push_char, push_str, str_eq, string_of_chars};

verus! {

/// Leading `c` characters removed: `str::trim_start_matches(c)`.
pub open spec fn trim_start_matches(s: Seq<char>, c: char) -> Seq<char>
    decreases s.len(),
{
    if s.len() > 0 && s[0] == c {
        trim_start_matches(s.drop_first(), c)
    } else {
        s
    }
}

/// Trailing `c` characters removed: `str::trim_end_matches(c)`.
pub open spec fn trim_end_matches(s: Seq<char>, c: char) -> Seq<char>
    decreases s.len(),
{
    if s.len() > 0 && s.last() == c {
        trim_end_matches(s.drop_last(), c)
    } else {
        s
    }
}

/// Leading and trailing `c` characters removed: `str::trim_matches(c)`.
pub open spec fn trim_matches(s: Seq<char>, c: char) -> Seq<char> {
    trim_end_matches(trim_start_matches(s, c), c)
}

proof fn lemma_trim_start_matches_skip(s: Seq<char>, c: char, i: int)
    requires
        0 <= i <= s.len(),
        forall|j: int| 0 <= j < i ==> #[trigger] s[j] == c,
    ensures
        trim_start_matches(s, c) == trim_start_matches(s.skip(i), c),
    decreases i,
{
    if i > 0 {
        assert(s.drop_first().skip(i - 1) =~= s.skip(i));
        assert forall|j: int| 0 <= j < i - 1 implies #[trigger] s.drop_first()[j] == c by {
            assert(s.drop_first()[j] == s[j + 1]);
        }
        lemma_trim_start_matches_skip(s.drop_first(), c, i - 1);
    } else {
        assert(s.skip(0) =~= s);
    }
}

proof fn lemma_trim_end_matches_take(s: Seq<char>, c: char, k: int)
    requires
        0 <= k <= s.len(),
        forall|j: int| k <= j < s.len() ==> #[trigger] s[j] == c,
    ensures
        trim_end_matches(s, c) == trim_end_matches(s.take(k), c),
    decreases s.len() - k,
{
    if k < s.len() {
        assert(s.drop_last().take(k) =~= s.take(k));
        lemma_trim_end_matches_take(s.drop_last(), c, k);
    } else {
        assert(s.take(k) =~= s);
    }
}

/// `s.trim_end_matches(c)`, or with `both` `s.trim_matches(c)`.
pub fn trim_char(s: &str, c: char, both: bool) -> (r: String)
    ensures
        r@ == if both {
            trim_matches(s@, c)
        } else {
            trim_end_matches(s@, c)
        },
{
    let v = chars_of(s);
    let n = v.len();
    let mut start: usize = 0;
    if both {
        while start < n && v[start] == c
            invariant
                n == v@.len(),
                v@ == s@,
                start <= n,
                forall|j: int| 0 <= j < start ==> #[trigger] v@[j] == c,
            decreases n - start,
        {
            start = start + 1;
        }
        proof {
            lemma_trim_start_matches_skip(v@, c, start as int);
        }
    }
    let ghost rest = v@.skip(start as int);
    assert(start == n || rest[0] != c || !both);
    assert(both ==> trim_start_matches(s@, c) == rest);
    assert(!both ==> rest =~= s@);
    let mut end: usize = n;
    while end > start && v[end - 1] == c
        invariant
            n == v@.len(),
            start <= end <= n,
            forall|j: int| end <= j < n ==> #[trigger] v@[j] == c,
        decreases end - start,
    {
        end = end - 1;
    }
    proof {
        let k = end - start;
        assert forall|j: int| k <= j < rest.len() implies #[trigger] rest[j] == c by {
            assert(rest[j] == v@[j + start]);
        }
        lemma_trim_end_matches_take(rest, c, k);
        let t = rest.take(k);
        assert(t =~= v@.subrange(start as int, end as int));
        if k > 0 {
            assert(t.last() == v@[end - 1]);
        }
    }
    string_of_chars(&v, start, end)
}

/// `s.trim_start_matches(c)`.
pub fn trim_char_start(s: &str, c: char) -> (r: String)
    ensures
        r@ == trim_start_matches(s@, c),
{
    let v = chars_of(s);
    let n = v.len();
    let mut start: usize = 0;
    while start < n && v[start] == c
        invariant
            n == v@.len(),
            v@ == s@,
            start <= n,
            forall|j: int| 0 <= j < start ==> #[trigger] v@[j] == c,
        decreases n - start,
    {
        start = start + 1;
    }
    proof {
        lemma_trim_start_matches_skip(v@, c, start as int);
        let rest = v@.skip(start as int);
        assert(start == n || rest[0] != c);
        assert(rest =~= v@.subrange(start as int, n as int));
    }
    string_of_chars(&v, start, n)
}

/// `u8::to_ascii_lowercase`, as a character.
pub open spec fn lower_char_of_byte(b: u8) -> char {
    if 65 <= b <= 90 {
        (b + 32) as char
    } else {
        b as char
    }
}

/// The characters an artifact stem is built from, before trimming: ASCII
/// letters and digits lowercased, `-` and `_` kept, and every run of other
/// bytes written as one `-` (none after a `-`).
pub open spec fn stem_chars(bytes: Seq<u8>) -> Seq<char>
    decreases bytes.len(),
{
    if bytes.len() == 0 {
        Seq::empty()
    } else {
        let out = stem_chars(bytes.drop_last());
        let b = bytes.last();
        if is_ascii_alnum_byte(b) {
            out.push(lower_char_of_byte(b))
        } else if b == 45 || b == 95 {
            out.push(b as char)
        } else if out.len() > 0 && out.last() == '-' {
            out
        } else {
            out.push('-')
        }
    }
}

/// The stem of an actor artifact's file name for a name.
pub open spec fn artifact_stem(value: Seq<char>) -> Seq<char> {
    trim_matches(stem_chars(encode_utf8(value)), '-')
}

/// The file stem for an actor artifact: the name's bytes as
/// [`stem_chars`] writes them, with leading and trailing `-` removed.
pub fn actor_artifact_stem(value: &str) -> (r: String)
    ensures
        r@ == artifact_stem(value@),
{
    let bytes = value.as_bytes();
    let mut output = String::new();
    let mut i: usize = 0;
    while i < bytes.len()
        invariant
            i <= bytes@.len(),
            bytes@ == encode_utf8(value@),
            output@ == stem_chars(bytes@.take(i as int)),
        decreases bytes@.len() - i,
    {
        let b = bytes[i];
        let ghost prefix = bytes@.take(i + 1);
        assert(prefix.drop_last() =~= bytes@.take(i as int));
        assert(prefix.last() == b);
        if (48 <= b && b <= 57) || (97 <= b && b <= 122) {
            push_char(&mut output, b as char);
        } else if 65 <= b && b <= 90 {
            push_char(&mut output, (b + 32) as char);
        } else if b == 45 || b == 95 {
            push_char(&mut output, b as char);
        } else {
            let ends_with_dash = last_char_is(&output, '-');
            if !ends_with_dash {
                push_char(&mut output, '-');
            }
        }
        i = i + 1;
    }
    assert(bytes@.take(bytes@.len() as int) =~= bytes@);
    trim_char(output.as_str(), '-', true)
}

/// Whether the last character of a non-empty string is `c`.
fn last_char_is(s: &String, c: char) -> (r: bool)
    ensures
        r == (s@.len() > 0 && s@.last() == c),
{
    let v = chars_of(s.as_str());
    if v.len() == 0 {
        false
    } else {
        v[v.len() - 1] == c
    }
}

/// A byte allowed in a portable name.
pub open spec fn portable_byte(b: u8) -> bool {
    is_ascii_alnum_byte(b) || b == 45 || b == 95
}

/// A portable name: not empty, at most 64 bytes, and only ASCII letters,
/// digits, `-` and `_`.
pub open spec fn is_portable(value: Seq<char>) -> bool {
    let b = encode_utf8(value);
    &&& value.len() > 0
    &&& b.len() <= 64
    &&& forall|i: int| 0 <= i < b.len() ==> portable_byte(#[trigger] b[i])
}

/// Whether a name is portable.
pub fn portable_name(value: &str) -> (r: bool)
    ensures
        r == is_portable(value@),
{
    if value.is_empty() || value.len() > 64 {
        return false;
    }
    let bytes = value.as_bytes();
    let mut i: usize = 0;
    while i < bytes.len()
        invariant
            i <= bytes@.len(),
            bytes@ == encode_utf8(value@),
            forall|j: int| 0 <= j < i ==> portable_byte(#[trigger] bytes@[j]),
        decreases bytes@.len() - i,
    {
        let b = bytes[i];
        if !((48 <= b && b <= 57) || (65 <= b && b <= 90) || (97 <= b && b <= 122) || b == 45 || b
            == 95) {
            assert(!portable_byte(bytes@[i as int]));
            return false;
        }
        i = i + 1;
    }
    true
}

/// The registry key of an actor: the stem of its alias, or of its name when
/// it has none, which must be portable.
pub open spec fn registry_key_spec(name: Seq<char>, alias: Option<Seq<char>>) -> Result<
    Seq<char>,
    Failure,
> {
    let source = match alias {
        Some(a) => a,
        None => name,
    };
    let key = artifact_stem(source);
    if is_portable(key) {
        Ok(key)
    } else {
        Err(Failure::User("invalid actor name: "@ + source))
    }
}

pub open spec fn opt_str(o: Option<&str>) -> Option<Seq<char>> {
    match o {
        Some(s) => Some(s@),
        None => None,
    }
}

/// The key under which an actor is kept in the actor registry.
pub fn actor_registry_key(name: &str, alias: Option<&str>) -> (r: Result<String, FactError>)
    ensures
        text_outcome(r) == registry_key_spec(name@, opt_str(alias)),
{
    let source = match alias {
        Some(a) => a,
        None => name,
    };
    let key = actor_artifact_stem(source);
    if !portable_name(key.as_str()) {
        return Err(FactError::User(concat("invalid actor name: ", source)));
    }
    Ok(key)
}

/// The file an actor request is written to by default:
/// `<stem>.actor.json`, the stem taken from the alias or else the name.
pub fn actor_request_default_file(name: &str, alias: Option<&str>) -> (r: String)
    ensures
        r@ == artifact_stem(
            match alias {
                Some(a) => a@,
                None => name@,
            },
        ) + ".actor.json"@,
{
    let source = match alias {
        Some(a) => a,
        None => name,
    };
    let mut path = actor_artifact_stem(source);
    push_str(&mut path, ".actor.json");
    path
}

/// The file an actor response is written to by default:
/// `<stem>.connection.json`, the stem taken from the alias or else the
/// display name.
pub fn actor_response_default_file(alias: Option<&str>, display_name: &str) -> (r: String)
    ensures
        r@ == artifact_stem(
            match alias {
                Some(a) => a@,
                None => display_name@,
            },
        ) + ".connection.json"@,
{
    let source = match alias {
        Some(a) => a,
        None => display_name,
    };
    let mut path = actor_artifact_stem(source);
    push_str(&mut path, ".connection.json");
    path
}

/// A character kept in a portable name.
pub open spec fn portable_char(c: char) -> bool {
    is_ascii_alnum_char(c) || c == '-' || c == '_'
}

/// A name made portable from free text: every other character becomes `-`,
/// leading and trailing `-` are removed, and an empty result is `clone`.
pub open spec fn portable_text_spec(value: Seq<char>) -> Seq<char> {
    let name = trim_matches(
        value.map_values(
            |c: char|
                if portable_char(c) {
                    c
                } else {
                    '-'
                },
        ),
        '-',
    );
    if name.len() == 0 {
        "clone"@
    } else {
        name
    }
}

fn is_portable_char(c: char) -> (r: bool)
    ensures
        r == portable_char(c),
{
    let v = c as u32;
    (48 <= v && v <= 57) || (65 <= v && v <= 90) || (97 <= v && v <= 122) || c == '-' || c == '_'
}

/// Makes a portable name out of free text.
pub fn portable_name_from_text(value: &str) -> (r: String)
    ensures
        r@ == portable_text_spec(value@),
{
    let v = chars_of(value);
    let mut mapped = String::new();
    let mut i: usize = 0;
    while i < v.len()
        invariant
            i <= v@.len(),
            v@ == value@,
            mapped@ == value@.take(i as int).map_values(
                |c: char|
                    if portable_char(c) {
                        c
                    } else {
                        '-'
                    },
            ),
        decreases v@.len() - i,
    {
        let c = v[i];
        if is_portable_char(c) {
            push_char(&mut mapped, c);
        } else {
            push_char(&mut mapped, '-');
        }
        assert(mapped@ =~= value@.take(i + 1).map_values(
            |c: char|
                if portable_char(c) {
                    c
                } else {
                    '-'
                },
        ));
        i = i + 1;
    }
    assert(value@.take(v@.len() as int) =~= value@);
    let name = trim_char(mapped.as_str(), '-', true);
    if name.as_str().is_empty() {
        "clone".to_owned()
    } else {
        name
    }
}

/// `char::to_ascii_lowercase`.
pub open spec fn lower_char(c: char) -> char {
    if 'A' <= c <= 'Z' {
        ((c as u32) + 32) as char
    } else {
        c
    }
}

/// The directory slug for an alias: letters, digits, `-` and `_` kept and
/// lowercased, anything else `_`; an empty slug is `actor`.
pub open spec fn path_slug_spec(value: Seq<char>) -> Seq<char> {
    if value.len() == 0 {
        "actor"@
    } else {
        value.map_values(
            |c: char|
                if portable_char(c) {
                    lower_char(c)
                } else {
                    '_'
                },
        )
    }
}

/// The directory slug for an alias.
pub fn path_slug(value: &str) -> (r: String)
    ensures
        r@ == path_slug_spec(value@),
{
    let v = chars_of(value);
    if v.len() == 0 {
        return "actor".to_owned();
    }
    let mut slug = String::new();
    let mut i: usize = 0;
    while i < v.len()
        invariant
            i <= v@.len(),
            v@ == value@,
            slug@ == value@.take(i as int).map_values(
                |c: char|
                    if portable_char(c) {
                        lower_char(c)
                    } else {
                        '_'
                    },
            ),
        decreases v@.len() - i,
    {
        let c = v[i];
        if is_portable_char(c) {
            if 'A' <= c && c <= 'Z' {
                let u = (c as u32 + 32) as u8;
                push_char(&mut slug, u as char);
            } else {
                push_char(&mut slug, c);
            }
        } else {
            push_char(&mut slug, '_');
        }
        assert(slug@ =~= value@.take(i + 1).map_values(
            |c: char|
                if portable_char(c) {
                    lower_char(c)
                } else {
                    '_'
                },
        ));
        i = i + 1;
    }
    assert(value@.take(v@.len() as int) =~= value@);
    slug
}

/// Whether two remote URLs are the same up to trailing slashes.
pub fn same_remote_url(left: &str, right: &str) -> (r: bool)
    ensures
        r == (trim_end_matches(left@, '/') == trim_end_matches(right@, '/')),
{
    let l = trim_char(left, '/', false);
    let r = trim_char(right, '/', false);
    str_eq(l.as_str(), r.as_str())
}

/// A character an artifact stem holds: a lowercase ASCII letter, a digit,
/// `-` or `_`.
pub open spec fn stem_char(c: char) -> bool {
    ('a' <= c <= 'z') || ('0' <= c <= '9') || c == '-' || c == '_'
}

proof fn lemma_stem_chars_class(b: Seq<u8>)
    ensures
        forall|i: int| 0 <= i < stem_chars(b).len() ==> stem_char(#[trigger] stem_chars(b)[i]),
    decreases b.len(),
{
    if b.len() > 0 {
        lemma_stem_chars_class(b.drop_last());
        let out = stem_chars(b.drop_last());
        let x = b.last();
        assert forall|i: int| 0 <= i < stem_chars(b).len() implies stem_char(
            #[trigger] stem_chars(b)[i],
        ) by {
            if i < out.len() {
                assert(stem_chars(b)[i] == out[i]);
            }
        }
    }
}

proof fn lemma_trim_start_keeps(s: Seq<char>, c: char)
    ensures
        forall|i: int|
            0 <= i < trim_start_matches(s, c).len() ==> s.contains(
                #[trigger] trim_start_matches(s, c)[i],
            ),
        trim_start_matches(s, c).len() > 0 ==> trim_start_matches(s, c)[0] != c,
        trim_start_matches(s, c).len() > 0 ==> trim_start_matches(s, c).last() == s.last(),
    decreases s.len(),
{
    if s.len() > 0 && s[0] == c {
        let t = s.drop_first();
        lemma_trim_start_keeps(t, c);
        assert forall|i: int| 0 <= i < trim_start_matches(s, c).len() implies s.contains(
            #[trigger] trim_start_matches(s, c)[i],
        ) by {
            let k = choose|k: int| 0 <= k < t.len() && t[k] == trim_start_matches(s, c)[i];
            assert(s[k + 1] == t[k]);
        }
    } else {
        assert forall|i: int| 0 <= i < trim_start_matches(s, c).len() implies s.contains(
            #[trigger] trim_start_matches(s, c)[i],
        ) by {
            assert(s[i] == trim_start_matches(s, c)[i]);
        }
    }
}

proof fn lemma_trim_end_keeps(s: Seq<char>, c: char)
    ensures
        forall|i: int|
            0 <= i < trim_end_matches(s, c).len() ==> s.contains(
                #[trigger] trim_end_matches(s, c)[i],
            ),
        trim_end_matches(s, c).len() > 0 ==> trim_end_matches(s, c).last() != c,
        trim_end_matches(s, c).len() > 0 ==> trim_end_matches(s, c)[0] == s[0],
    decreases s.len(),
{
    if s.len() > 0 && s.last() == c {
        let t = s.drop_last();
        lemma_trim_end_keeps(t, c);
        assert forall|i: int| 0 <= i < trim_end_matches(s, c).len() implies s.contains(
            #[trigger] trim_end_matches(s, c)[i],
        ) by {
            let k = choose|k: int| 0 <= k < t.len() && t[k] == trim_end_matches(s, c)[i];
            assert(s[k] == t[k]);
        }
    } else {
        assert forall|i: int| 0 <= i < trim_end_matches(s, c).len() implies s.contains(
            #[trigger] trim_end_matches(s, c)[i],
        ) by {
            assert(s[i] == trim_end_matches(s, c)[i]);
        }
    }
}

proof fn lemma_trim_matches_shape(s: Seq<char>, c: char)
    ensures
        forall|i: int|
            0 <= i < trim_matches(s, c).len() ==> s.contains(#[trigger] trim_matches(s, c)[i]),
        trim_matches(s, c).len() > 0 ==> trim_matches(s, c)[0] != c && trim_matches(s, c).last()
            != c,
{
    let t = trim_start_matches(s, c);
    lemma_trim_start_keeps(s, c);
    lemma_trim_end_keeps(t, c);
    assert forall|i: int| 0 <= i < trim_matches(s, c).len() implies s.contains(
        #[trigger] trim_matches(s, c)[i],
    ) by {
        let k = choose|k: int| 0 <= k < t.len() && t[k] == trim_matches(s, c)[i];
        assert(t.contains(t[k]));
    }
}

proof fn lemma_trim_matches_unchanged(s: Seq<char>, c: char)
    requires
        s.len() > 0 ==> s[0] != c && s.last() != c,
    ensures
        trim_matches(s, c) == s,
{
}

/// An artifact stem holds only lowercase ASCII letters, digits, `-` and
/// `_`, and neither begins nor ends with `-`; so it is a portable name
/// exactly when it is not empty and at most 64 characters long.
pub proof fn law_artifact_stem_shape(value: Seq<char>)
    ensures
        forall|i: int|
            0 <= i < artifact_stem(value).len() ==> stem_char(#[trigger] artifact_stem(value)[i]),
        artifact_stem(value).len() > 0 ==> artifact_stem(value)[0] != '-' && artifact_stem(
            value,
        ).last() != '-',
        is_portable(artifact_stem(value)) <==> (0 < artifact_stem(value).len() <= 64),
{
    let raw = stem_chars(encode_utf8(value));
    let s = artifact_stem(value);
    lemma_stem_chars_class(encode_utf8(value));
    lemma_trim_matches_shape(raw, '-');
    assert forall|i: int| 0 <= i < s.len() implies stem_char(#[trigger] s[i]) by {
        let k = choose|k: int| 0 <= k < raw.len() && raw[k] == s[i];
        assert(stem_char(raw[k]));
    }
    assert(is_ascii_chars(s));
    is_ascii_chars_encode_utf8(s);
    let b = encode_utf8(s);
    assert forall|i: int| 0 <= i < b.len() implies portable_byte(#[trigger] b[i]) by {
        assert(s[i] as u8 == b[i]);
        assert(stem_char(s[i]));
    }
}

proof fn lemma_stem_chars_identity(b: Seq<u8>)
    requires
        forall|i: int| 0 <= i < b.len() ==> stem_char(#[trigger] b[i] as char),
    ensures
        stem_chars(b) == b.map_values(|x: u8| x as char),
    decreases b.len(),
{
    if b.len() > 0 {
        lemma_stem_chars_identity(b.drop_last());
        assert(stem_char(b[b.len() - 1] as char));
        assert(b.map_values(|x: u8| x as char) =~= b.drop_last().map_values(|x: u8| x as char).push(
            b.last() as char,
        ));
    } else {
        assert(b.map_values(|x: u8| x as char) =~= Seq::<char>::empty());
    }
}

/// Taking the stem of a stem changes nothing.
pub proof fn law_artifact_stem_idempotent(value: Seq<char>)
    ensures
        artifact_stem(artifact_stem(value)) == artifact_stem(value),
{
    let s = artifact_stem(value);
    law_artifact_stem_shape(value);
    assert(is_ascii_chars(s));
    is_ascii_chars_encode_utf8(s);
    let b = encode_utf8(s);
    assert forall|i: int| 0 <= i < b.len() implies stem_char(#[trigger] b[i] as char) by {
        assert(s[i] as u8 == b[i]);
        assert(stem_char(s[i]));
    }
    lemma_stem_chars_identity(b);
    let m = b.map_values(|x: u8| x as char);
    assert(m =~= s) by {
        assert forall|i: int| 0 <= i < s.len() implies #[trigger] m[i] == s[i] by {
            assert(s[i] as u8 == b[i]);
            assert(stem_char(s[i]));
        }
    }
    lemma_trim_matches_unchanged(s, '-');
}

} // verus!
