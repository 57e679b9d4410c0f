//! Reading command-line arguments whose form `fact` defines itself: tag
//! actions, conflict triples, and `--since` durations.

use vstd::prelude::*;
use crate::display::lemma_before_first_len;
use crate::errors::{FactError, Failure};
use crate::remote::{parse_uuid7, uuid7_spec};
use crate::text::{
    before_first, chars_of, concat, debug_quoted, debug_text, lemma_before_first_scan, push_str,
    str_eq, string_of_chars, texts, trim, trim_text,
};

verus! {

/// What `fact tags` does.
#[derive(Clone, Copy, Debug, PartialEq, Eq, Structural)]
pub enum TagOperation {
    Show,
    Add,
    Remove,
    Replace,
    Clear,
}

/// The tag operation an action word names.
pub open spec fn tag_operation_spec(action: Seq<char>) -> Option<TagOperation> {
    if action == "show"@ || action == "list"@ || action == "read"@ {
        Some(TagOperation::Show)
    } else if action == "add"@ || action == "create"@ {
        Some(TagOperation::Add)
    } else if action == "remove"@ || action == "delete"@ || action == "rm"@ {
        Some(TagOperation::Remove)
    } else if action == "set"@ || action == "replace"@ || action == "update"@ {
        Some(TagOperation::Replace)
    } else if action == "clear"@ {
        Some(TagOperation::Clear)
    } else {
        None
    }
}

/// Reads a tag action word.
pub fn parse_tag_operation(action: &str) -> (r: Result<TagOperation, FactError>)
    ensures
        match tag_operation_spec(action@) {
            Some(op) => r == Ok::<TagOperation, FactError>(op),
            None => r matches Err(e) && e@ == Failure::User(
                "unknown tag action: "@ + action@ + ". Use show, add, remove, set, or clear"@,
            ),
        },
{
    if str_eq(action, "show") || str_eq(action, "list") || str_eq(action, "read") {
        Ok(TagOperation::Show)
    } else if str_eq(action, "add") || str_eq(action, "create") {
        Ok(TagOperation::Add)
    } else if str_eq(action, "remove") || str_eq(action, "delete") || str_eq(action, "rm") {
        Ok(TagOperation::Remove)
    } else if str_eq(action, "set") || str_eq(action, "replace") || str_eq(action, "update") {
        Ok(TagOperation::Replace)
    } else if str_eq(action, "clear") {
        Ok(TagOperation::Clear)
    } else {
        let mut message = concat("unknown tag action: ", action);
        push_str(&mut message, ". Use show, add, remove, set, or clear");
        Err(FactError::User(message))
    }
}

/// `s.split(c)`: the pieces of `s` between occurrences of `c`.
pub open spec fn split_on(s: Seq<char>, c: char) -> Seq<Seq<char>>
    decreases s.len(),
{
    let head = before_first(s, c);
    proof {
        lemma_before_first_len(s, c);
    }
    if head.len() >= s.len() {
        seq![s]
    } else {
        seq![head] + split_on(s.skip(head.len() + 1int), c)
    }
}

/// Splits text at each occurrence of a character.
pub fn split_text(s: &str, c: char) -> (r: Vec<String>)
    ensures
        texts(r@) == split_on(s@, c),
{
    let v = chars_of(s);
    let n = v.len();
    let mut out: Vec<String> = Vec::new();
    let mut start: usize = 0;
    assert(s@.skip(0) =~= s@);
    loop
        invariant
            n == v@.len(),
            v@ == s@,
            start <= n,
            split_on(s@, c) == texts(out@) + split_on(s@.skip(start as int), c),
        decreases n - start,
    {
        let ghost t = s@.skip(start as int);
        let mut j: usize = start;
        while j < n && v[j] != c
            invariant
                start <= j <= n,
                n == v@.len(),
                forall|k: int| start <= k < j ==> #[trigger] v@[k] != c,
            decreases n - j,
        {
            j = j + 1;
        }
        proof {
            assert forall|k: int| 0 <= k < j - start implies #[trigger] t[k] != c by {
                assert(t[k] == v@[k + start]);
            }
            lemma_before_first_scan(t, c, j - start);
            if j < n {
                assert(t.skip(j - start)[0] == c);
            } else {
                assert(t.skip(j - start) =~= Seq::<char>::empty());
            }
            assert(t.take(j - start) + Seq::<char>::empty() =~= t.take(j - start));
            assert(t.take(j - start) =~= v@.subrange(start as int, j as int));
        }
        let piece = string_of_chars(&v, start, j);
        let ghost before = texts(out@);
        out.push(piece);
        assert(texts(out@) =~= before.push(v@.subrange(start as int, j as int)));
        if j == n {
            proof {
                assert(t =~= v@.subrange(start as int, j as int));
                assert(split_on(t, c) == seq![t]);
                assert(texts(out@) =~= before + split_on(t, c));
            }
            return out;
        }
        proof {
            assert(t.skip(j - start + 1) =~= s@.skip(j + 1));
            assert(split_on(t, c) == seq![v@.subrange(start as int, j as int)] + split_on(
                s@.skip(j + 1),
                c,
            ));
            assert(texts(out@) + split_on(s@.skip(j + 1), c) =~= before + split_on(t, c));
        }
        start = j + 1;
    }
}

/// The three UUIDs a `--conflict` triple names.
#[derive(Debug)]
pub struct ReconciliationConflict {
    pub revision_id: u128,
    pub deliberation_id: u128,
    pub settlement_id: u128,
}

/// Reading `REVISION:DELIBERATION:SETTLEMENT`: three non-empty parts, each
/// a canonical UUIDv7.
pub open spec fn conflict_spec(triple: Seq<char>) -> Result<(u128, u128, u128), Failure> {
    let parts = split_on(triple, ':');
    if parts.len() != 3 || parts[0].len() == 0 || parts[1].len() == 0 || parts[2].len() == 0 {
        Err(
            Failure::User(
                "--conflict must be REVISION:DELIBERATION:SETTLEMENT, got "@ + debug_text(triple),
            ),
        )
    } else {
        match (
            uuid7_spec(parts[0], "conflict revision"@),
            uuid7_spec(parts[1], "conflict deliberation"@),
            uuid7_spec(parts[2], "conflict settlement"@),
        ) {
            (Err(e), _, _) => Err(e),
            (Ok(_), Err(e), _) => Err(e),
            (Ok(_), Ok(_), Err(e)) => Err(e),
            (Ok(r), Ok(d), Ok(s)) => Ok((r, d, s)),
        }
    }
}

/// Reads a `--conflict` triple.
pub fn parse_reconciliation_conflict(triple: &str) -> (r: Result<ReconciliationConflict, FactError>)
    ensures
        match conflict_spec(triple@) {
            Ok((rv, d, s)) => r matches Ok(c) && c.revision_id == rv && c.deliberation_id == d
                && c.settlement_id == s,
            Err(f) => r matches Err(e) && e@ == f,
        },
{
    let parts = split_text(triple, ':');
    if parts.len() != 3 || parts[0].as_str().is_empty() || parts[1].as_str().is_empty()
        || parts[2].as_str().is_empty() {
        let message = concat(
            "--conflict must be REVISION:DELIBERATION:SETTLEMENT, got ",
            debug_quoted(triple).as_str(),
        );
        return Err(FactError::User(message));
    }
    assert(texts(parts@)[0] == parts@[0]@);
    assert(texts(parts@)[1] == parts@[1]@);
    assert(texts(parts@)[2] == parts@[2]@);
    let revision_id = parse_uuid7(parts[0].as_str(), "conflict revision")?;
    let deliberation_id = parse_uuid7(parts[1].as_str(), "conflict deliberation")?;
    let settlement_id = parse_uuid7(parts[2].as_str(), "conflict settlement")?;
    Ok(ReconciliationConflict { revision_id, deliberation_id, settlement_id })
}

/// The value of a run of decimal digits, when it is one.
pub open spec fn digits_value(s: Seq<char>) -> Option<int>
    decreases s.len(),
{
    if s.len() == 0 {
        None
    } else if !('0' <= s.last() <= '9') {
        None
    } else if s.len() == 1 {
        Some(s.last() as int - 48)
    } else {
        match digits_value(s.drop_last()) {
            Some(v) => Some(v * 10 + (s.last() as int - 48)),
            None => None,
        }
    }
}

/// `str::parse::<i64>`: an optional sign, then decimal digits, in range.
pub open spec fn parse_i64_spec(s: Seq<char>) -> Option<i64> {
    let (negative, digits) = if s.len() > 0 && s[0] == '-' {
        (true, s.drop_first())
    } else if s.len() > 0 && s[0] == '+' {
        (false, s.drop_first())
    } else {
        (false, s)
    };
    match digits_value(digits) {
        Some(v) => if negative && -v >= i64::MIN {
            Some((-v) as i64)
        } else if !negative && v <= i64::MAX {
            Some(v as i64)
        } else {
            None
        },
        None => None,
    }
}

proof fn lemma_digits_nonnegative(s: Seq<char>)
    ensures
        digits_value(s) matches Some(v) ==> v >= 0,
    decreases s.len(),
{
    if s.len() > 1 {
        lemma_digits_nonnegative(s.drop_last());
    }
}

/// Reads a signed decimal integer.
pub fn parse_i64(s: &str) -> (r: Option<i64>)
    ensures
        r == parse_i64_spec(s@),
{
    let v = chars_of(s);
    let mut start: usize = 0;
    let mut negative = false;
    if v.len() > 0 && v[0] == '-' {
        negative = true;
        start = 1;
    } else if v.len() > 0 && v[0] == '+' {
        start = 1;
    }
    let ghost digits = s@.skip(start as int);
    assert(start == 1 ==> digits =~= s@.drop_first());
    assert(start == 0 ==> digits =~= s@);
    if start >= v.len() {
        assert(digits.len() == 0);
        return None;
    }
    let limit: u64 = if negative {
        9223372036854775808u64
    } else {
        9223372036854775807u64
    };
    let mut value: u64 = 0;
    let mut i: usize = start;
    assert(digits_value(digits) is None ==> parse_i64_spec(s@) is None);
    assert((digits_value(digits) matches Some(w) && w > limit) ==> parse_i64_spec(s@) is None);
    while i < v.len()
        invariant
            digits_value(digits) is None ==> parse_i64_spec(s@) is None,
            (digits_value(digits) matches Some(w) && w > limit) ==> parse_i64_spec(s@) is None,
            start <= i <= v@.len(),
            start < v@.len(),
            v@ == s@,
            digits == s@.skip(start as int),
            limit == if negative {
                9223372036854775808u64
            } else {
                9223372036854775807u64
            },
            value <= limit,
            i == start ==> value == 0,
            i > start ==> digits_value(digits.take(i - start)) == Some(value as int),
            negative <==> (s@.len() > 0 && s@[0] == '-'),
            start == 1 <==> (s@.len() > 0 && (s@[0] == '-' || s@[0] == '+')),
            start <= 1,
        decreases v@.len() - i,
    {
        let c = v[i];
        let ghost prefix = digits.take(i + 1 - start);
        assert(prefix.last() == c);
        assert(prefix.drop_last() =~= digits.take(i - start));
        if !('0' <= c && c <= '9') {
            proof {
                lemma_digits_prefix_none(digits, i + 1 - start);
            }
            return None;
        }
        let d = (c as u32 - 48) as u64;
        assert(d as int == c as int - 48);
        assert(digits_value(prefix) == Some(value * 10 + d));
        if value > (limit - d) / 10 {
            proof {
                assert(value * 10 + d > limit) by (nonlinear_arith)
                    requires
                        value > (limit - d) / 10,
                        d <= 9,
                        limit >= 9,
                ;
                lemma_digits_prefix_too_big(digits, i + 1 - start, limit as int);
                lemma_digits_nonnegative(digits);
            }
            return None;
        }
        assert(value * 10 + d <= limit) by (nonlinear_arith)
            requires
                value <= (limit - d) / 10,
                d <= 9,
                limit >= 9,
        ;
        value = value * 10 + d;
        i = i + 1;
    }
    assert(digits.take(v@.len() - start) =~= digits);
    proof {
        lemma_digits_nonnegative(digits);
    }
    if negative {
        if value == 9223372036854775808u64 {
            Some(-9223372036854775807i64 - 1)
        } else {
            Some(-(value as i64))
        }
    } else {
        Some(value as i64)
    }
}

proof fn lemma_digits_prefix_none(s: Seq<char>, n: int)
    requires
        0 < n <= s.len(),
        digits_value(s.take(n)) is None,
    ensures
        digits_value(s) is None,
    decreases s.len(),
{
    if n < s.len() {
        assert(s.drop_last().take(n) =~= s.take(n));
        lemma_digits_prefix_none(s.drop_last(), n);
    } else {
        assert(s.take(n) =~= s);
    }
}

proof fn lemma_digits_prefix_too_big(s: Seq<char>, n: int, limit: int)
    requires
        0 < n <= s.len(),
        limit >= 0,
        digits_value(s.take(n)) matches Some(v) && v > limit,
    ensures
        digits_value(s) matches Some(w) ==> w > limit,
    decreases s.len(),
{
    if n < s.len() {
        assert(s.drop_last().take(n) =~= s.take(n));
        lemma_digits_prefix_too_big(s.drop_last(), n, limit);
        lemma_digits_nonnegative(s.drop_last());
    } else {
        assert(s.take(n) =~= s);
    }
}

/// What `--since` asks for: a number of days or hours back from now, or a
/// point in time given as text.
#[derive(Debug, PartialEq, Eq)]
pub enum CommentSince {
    DaysAgo(i64),
    HoursAgo(i64),
    At(String),
}

/// Reads `--since`.
pub fn parse_comment_since(value: &str) -> (r: Result<CommentSince, FactError>)
    ensures
        ({
            let t = trim(value@);
            if t.len() > 0 && t.last() == 'd' {
                match parse_i64_spec(t.drop_last()) {
                    Some(n) => r == Ok::<CommentSince, FactError>(CommentSince::DaysAgo(n)),
                    None => r matches Err(e) && e@ == Failure::User(
                        "--since duration must look like 7d"@,
                    ),
                }
            } else if t.len() > 0 && t.last() == 'h' {
                match parse_i64_spec(t.drop_last()) {
                    Some(n) => r == Ok::<CommentSince, FactError>(CommentSince::HoursAgo(n)),
                    None => r matches Err(e) && e@ == Failure::User(
                        "--since duration must look like 24h"@,
                    ),
                }
            } else {
                r matches Ok(CommentSince::At(s)) && s@ == t
            }
        }),
{
    let trimmed = trim_text(value);
    let v = chars_of(trimmed.as_str());
    let n = v.len();
    if n > 0 && (v[n - 1] == 'd' || v[n - 1] == 'h') {
        let count = string_of_chars(&v, 0, n - 1);
        assert(count@ =~= trimmed@.drop_last());
        let parsed = parse_i64(count.as_str());
        if v[n - 1] == 'd' {
            match parsed {
                Some(days) => Ok(CommentSince::DaysAgo(days)),
                None => Err(FactError::User("--since duration must look like 7d".to_owned())),
            }
        } else {
            match parsed {
                Some(hours) => Ok(CommentSince::HoursAgo(hours)),
                None => Err(FactError::User("--since duration must look like 24h".to_owned())),
            }
        }
    } else {
        Ok(CommentSince::At(trimmed))
    }
}

} // verus!
