//! The capabilities an actor can be granted on a ledger, and how the lists
//! that users pass on the command line are expanded and checked.

use vstd::prelude::*;
use crate::errors::{FactError, Failure, list_outcome, unit_outcome};
use crate::json::{Json, JsonValue, array_items, get, json_bytes_parse, lemma_array_value, member, parse_json_bytes};
use crate::text::{char_len, concat, contains_text, push_char, join, join_texts, push_str, str_eq, texts};

verus! {

/// The capabilities that can be granted, in the order they are listed.
pub open spec fn grantable_names() -> Seq<Seq<char>> {
    seq![
        "propose"@,
        "deliberate"@,
        "invite"@,
        "comment"@,
        "accept"@,
        "reject"@,
        "withdraw"@,
        "archive"@,
        "admin"@,
    ]
}

/// The capabilities that `--participate` stands for, in order.
pub open spec fn participation_names() -> Seq<Seq<char>> {
    seq!["propose"@, "deliberate"@, "comment"@, "accept"@, "reject"@]
}

pub const ALLOWED_CAPABILITIES_TEXT: &'static str =
    "propose, deliberate, invite, comment, accept, reject, withdraw, archive, admin";

/// A capability that can be granted, with what it allows.
#[derive(Clone, Copy, Debug)]
pub struct CapabilityInfo {
    pub name: &'static str,
    pub description: &'static str,
    /// Whether it lets its holder change what others may do.
    pub privileged: bool,
}

/// The grantable capabilities with their descriptions, in listing order; only
/// `admin` is privileged.
pub fn grantable_capabilities() -> (v: Vec<CapabilityInfo>)
    ensures
        v@.len() == grantable_names().len(),
        forall|i: int| 0 <= i < v@.len() ==> (#[trigger] v@[i]).name@ == grantable_names()[i],
        forall|i: int| 0 <= i < v@.len() ==> (#[trigger] v@[i]).description@
            == grantable_descriptions()[i],
        forall|i: int| 0 <= i < v@.len() ==> (#[trigger] v@[i]).privileged == (i == 8),
{
    vec![
        CapabilityInfo { name: "propose", description: "create propositions", privileged: false },
        CapabilityInfo {
            name: "deliberate",
            description: "join or participate in deliberations",
            privileged: false,
        },
        CapabilityInfo {
            name: "invite",
            description: "invite actors to deliberations",
            privileged: false,
        },
        CapabilityInfo { name: "comment", description: "comment on deliberations", privileged: false },
        CapabilityInfo {
            name: "accept",
            description: "accept revisions as a participant",
            privileged: false,
        },
        CapabilityInfo {
            name: "reject",
            description: "reject revisions as a participant",
            privileged: false,
        },
        CapabilityInfo {
            name: "withdraw",
            description: "withdraw propositions while preserving history",
            privileged: false,
        },
        CapabilityInfo {
            name: "archive",
            description: "archive propositions while preserving history",
            privileged: false,
        },
        CapabilityInfo { name: "admin", description: "grant or revoke permissions", privileged: true },
    ]
}

/// The capabilities that `--participate` stands for.
pub fn participation_capabilities() -> (v: Vec<String>)
    ensures
        texts(v@) == participation_names(),
{
    let v = vec![
        "propose".to_owned(),
        "deliberate".to_owned(),
        "comment".to_owned(),
        "accept".to_owned(),
        "reject".to_owned(),
    ];
    assert(texts(v@) =~= participation_names());
    v
}

/// Whether a capability can be granted.
pub fn is_grantable_capability(capability: &str) -> (r: bool)
    ensures
        r == grantable_names().contains(capability@),
{
    let r = str_eq(capability, "propose") || str_eq(capability, "deliberate") || str_eq(
        capability,
        "invite",
    ) || str_eq(capability, "comment") || str_eq(capability, "accept") || str_eq(
        capability,
        "reject",
    ) || str_eq(capability, "withdraw") || str_eq(capability, "archive") || str_eq(
        capability,
        "admin",
    );
    proof {
        let names = grantable_names();
        if r {
            if capability@ == "propose"@ {
                assert(names[0] == capability@);
            } else if capability@ == "deliberate"@ {
                assert(names[1] == capability@);
            } else if capability@ == "invite"@ {
                assert(names[2] == capability@);
            } else if capability@ == "comment"@ {
                assert(names[3] == capability@);
            } else if capability@ == "accept"@ {
                assert(names[4] == capability@);
            } else if capability@ == "reject"@ {
                assert(names[5] == capability@);
            } else if capability@ == "withdraw"@ {
                assert(names[6] == capability@);
            } else if capability@ == "archive"@ {
                assert(names[7] == capability@);
            } else {
                assert(names[8] == capability@);
            }
        } else {
            assert forall|i: int| 0 <= i < names.len() implies names[i] != capability@ by {}
        }
    }
    r
}

/// The elements of `s` in order, each kept only where it does not occur
/// earlier.
pub open spec fn first_occurrences(s: Seq<Seq<char>>) -> Seq<Seq<char>>
    decreases s.len(),
{
    if s.len() == 0 {
        s
    } else if s.drop_last().contains(s.last()) {
        first_occurrences(s.drop_last())
    } else {
        first_occurrences(s.drop_last()).push(s.last())
    }
}

/// The capability list a command works with: the participation capabilities
/// first when `participate` is set, then those given, with repeats dropped.
pub open spec fn expanded_optional_spec(capabilities: Seq<Seq<char>>, participate: bool) -> Seq<
    Seq<char>,
> {
    if participate {
        first_occurrences(participation_names() + capabilities)
    } else {
        first_occurrences(capabilities)
    }
}

proof fn lemma_contains_last(s: Seq<Seq<char>>, x: Seq<char>)
    requires
        s.len() > 0,
    ensures
        s.contains(x) <==> (s.drop_last().contains(x) || x == s.last()),
{
    if s.contains(x) {
        let k = choose|k: int| 0 <= k < s.len() && s[k] == x;
        if k < s.len() - 1 {
            assert(s.drop_last()[k] == x);
        }
    }
    if s.drop_last().contains(x) {
        let k = choose|k: int| 0 <= k < s.drop_last().len() && s.drop_last()[k] == x;
        assert(s[k] == x);
    }
    if x == s.last() {
        assert(s[s.len() - 1] == x);
    }
}

proof fn lemma_first_occurrences_contains(s: Seq<Seq<char>>, x: Seq<char>)
    ensures
        first_occurrences(s).contains(x) <==> s.contains(x),
    decreases s.len(),
{
    if s.len() > 0 {
        lemma_first_occurrences_contains(s.drop_last(), x);
        lemma_contains_last(s, x);
        if !s.drop_last().contains(s.last()) {
            let d = first_occurrences(s.drop_last());
            assert(d.push(s.last()).drop_last() =~= d);
            lemma_contains_last(d.push(s.last()), x);
        }
    }
}

proof fn lemma_first_occurrences_distinct(s: Seq<Seq<char>>)
    ensures
        first_occurrences(s).no_duplicates(),
    decreases s.len(),
{
    if s.len() > 0 {
        lemma_first_occurrences_distinct(s.drop_last());
        lemma_first_occurrences_contains(s.drop_last(), s.last());
    }
}

/// Appends `items` to `out` unless already there, in order.
fn extend_distinct(out: &mut Vec<String>, items: &Vec<String>)
    ensures
        forall|base: Seq<Seq<char>>|
            #[trigger] first_occurrences(base) == texts(old(out)@) ==> first_occurrences(base + texts(items@))
                == texts(final(out)@),
{
    let ghost start = texts(out@);
    let mut i: usize = 0;
    while i < items.len()
        invariant
            i <= items@.len(),
            forall|base: Seq<Seq<char>>|
                #[trigger] first_occurrences(base) == start ==> first_occurrences(
                    base + texts(items@).take(i as int),
                ) == texts(out@),
        decreases items@.len() - i,
    {
        let present = contains_text(out, &items[i]);
        let ghost before = texts(out@);
        if !present {
            let c = items[i].clone();
            out.push(c);
            assert(texts(out@) =~= before.push(items@[i as int]@));
        }
        proof {
            assert forall|base: Seq<Seq<char>>|
                #[trigger] first_occurrences(base) == start implies first_occurrences(
                    base + texts(items@).take(i + 1),
                ) == texts(out@) by {
                let s = base + texts(items@).take(i + 1);
                assert(s.drop_last() =~= base + texts(items@).take(i as int));
                assert(s.last() == items@[i as int]@);
                lemma_first_occurrences_contains(s.drop_last(), s.last());
            }
        }
        i = i + 1;
    }
    assert(texts(items@).take(items@.len() as int) =~= texts(items@));
}

/// The capability list a command works with: with `participate`, the
/// participation capabilities first; then those given; each kept once, where
/// it first occurs.
pub fn expanded_optional_capabilities(capabilities: Vec<String>, participate: bool) -> (r: Vec<
    String,
>)
    ensures
        texts(r@) == expanded_optional_spec(texts(capabilities@), participate),
{
    let mut expanded: Vec<String> = Vec::new();
    assert(first_occurrences(Seq::<Seq<char>>::empty()) == texts(expanded@));
    if participate {
        let p = participation_capabilities();
        extend_distinct(&mut expanded, &p);
        assert(Seq::<Seq<char>>::empty() + participation_names() =~= participation_names());
        extend_distinct(&mut expanded, &capabilities);
    } else {
        extend_distinct(&mut expanded, &capabilities);
        assert(Seq::<Seq<char>>::empty() + texts(capabilities@) =~= texts(capabilities@));
    }
    expanded
}

/// The message for a capability that cannot be granted.
pub open spec fn unknown_capability_message(capability: Seq<char>) -> Seq<char> {
    let message = "unknown capability \""@ + capability + "\"\n\nAllowed capabilities:\n  "@
        + ALLOWED_CAPABILITIES_TEXT@;
    if capability == "revise"@ {
        message + "\n\nNote: there is no separate \"revise\" capability."@
    } else {
        message
    }
}

/// The first capability of a list that cannot be granted, if any.
pub open spec fn first_unknown(capabilities: Seq<Seq<char>>) -> Option<Seq<char>>
    decreases capabilities.len(),
{
    if capabilities.len() == 0 {
        None
    } else if !grantable_names().contains(capabilities[0]) {
        Some(capabilities[0])
    } else {
        first_unknown(capabilities.drop_first())
    }
}

/// The outcome of checking a capability list.
pub open spec fn validate_spec(capabilities: Seq<Seq<char>>) -> Option<Seq<char>> {
    match first_unknown(capabilities) {
        Some(c) => Some(unknown_capability_message(c)),
        None => None,
    }
}

/// Checks that every capability of a list can be granted; the error names
/// the first that cannot.
pub fn validate_capabilities(capabilities: &Vec<String>) -> (r: Result<(), FactError>)
    ensures
        unit_outcome(r) == match validate_spec(texts(capabilities@)) {
            None => Ok(()),
            Some(message) => Err(Failure::User(message)),
        },
{
    let ghost all = texts(capabilities@);
    let mut i: usize = 0;
    assert(all.skip(0) =~= all);
    while i < capabilities.len()
        invariant
            i <= capabilities@.len(),
            all == texts(capabilities@),
            first_unknown(all) == first_unknown(all.skip(i as int)),
        decreases capabilities@.len() - i,
    {
        assert(all.skip(i as int).drop_first() =~= all.skip(i + 1));
        assert(all.skip(i as int)[0] == capabilities@[i as int]@);
        let capability = &capabilities[i];
        if !is_grantable_capability(capability.as_str()) {
            let mut message = concat("unknown capability \"", capability.as_str());
            push_str(&mut message, "\"\n\nAllowed capabilities:\n  ");
            push_str(&mut message, ALLOWED_CAPABILITIES_TEXT);
            if str_eq(capability.as_str(), "revise") {
                push_str(&mut message, "\n\nNote: there is no separate \"revise\" capability.");
            }
            return Err(FactError::User(message));
        }
        i = i + 1;
    }
    assert(all.skip(i as int) =~= Seq::<Seq<char>>::empty());
    Ok(())
}

/// The capability list of a grant: as [`expanded_optional_capabilities`],
/// which must not be empty and may hold only grantable capabilities.
pub open spec fn expanded_spec(capabilities: Seq<Seq<char>>, participate: bool) -> Result<
    Seq<Seq<char>>,
    Failure,
> {
    let expanded = expanded_optional_spec(capabilities, participate);
    if expanded.len() == 0 {
        Err(
            Failure::User(
                "at least one capability is required; pass --participate or --capability"@,
            ),
        )
    } else {
        match validate_spec(expanded) {
            Some(message) => Err(Failure::User(message)),
            None => Ok(expanded),
        }
    }
}

/// Expands and checks the capability list of a grant.
pub fn expanded_capabilities(capabilities: Vec<String>, participate: bool) -> (r: Result<
    Vec<String>,
    FactError,
>)
    ensures
        list_outcome(r) == expanded_spec(texts(capabilities@), participate),
{
    let expanded = expanded_optional_capabilities(capabilities, participate);
    if expanded.len() == 0 {
        return Err(
            FactError::User(
                "at least one capability is required; pass --participate or --capability".to_owned(),
            ),
        );
    }
    match validate_capabilities(&expanded) {
        Ok(()) => Ok(expanded),
        Err(e) => Err(e),
    }
}

/// The requests of an actor request without the word `participate`.
pub open spec fn without_participate(requests: Seq<Seq<char>>) -> Seq<Seq<char>>
    decreases requests.len(),
{
    if requests.len() == 0 {
        requests
    } else if requests.last() == "participate"@ {
        without_participate(requests.drop_last())
    } else {
        without_participate(requests.drop_last()).push(requests.last())
    }
}

/// The capabilities an actor request asks for: the word `participate` among
/// them stands for the participation capabilities, as `participate` does;
/// the list is expanded and must hold only grantable capabilities (it may be
/// empty).
pub open spec fn actor_requests_spec(requests: Seq<Seq<char>>, participate: bool) -> Result<
    Seq<Seq<char>>,
    Failure,
> {
    let expanded = expanded_optional_spec(
        without_participate(requests),
        participate || requests.contains("participate"@),
    );
    match validate_spec(expanded) {
        Some(message) => Err(Failure::User(message)),
        None => Ok(expanded),
    }
}

/// Expands and checks the capabilities of an actor request.
pub fn expanded_actor_requests(requests: Vec<String>, participate: bool) -> (r: Result<
    Vec<String>,
    FactError,
>)
    ensures
        list_outcome(r) == actor_requests_spec(texts(requests@), participate),
{
    let ghost all = texts(requests@);
    let mut expanded: Vec<String> = Vec::new();
    let mut expand_participate = participate;
    let mut i: usize = 0;
    while i < requests.len()
        invariant
            i <= requests@.len(),
            all == texts(requests@),
            texts(expanded@) == without_participate(all.take(i as int)),
            expand_participate == (participate || all.take(i as int).contains("participate"@)),
        decreases requests@.len() - i,
    {
        let ghost prefix = all.take(i + 1);
        assert(prefix.drop_last() =~= all.take(i as int));
        assert(prefix.last() == requests@[i as int]@);
        if str_eq(requests[i].as_str(), "participate") {
            expand_participate = true;
            assert(prefix[i as int] == "participate"@);
        } else {
            let ghost before = texts(expanded@);
            expanded.push(requests[i].clone());
            assert(texts(expanded@) =~= before.push(requests@[i as int]@));
        }
        proof {
            if prefix.contains("participate"@) && !all.take(i as int).contains("participate"@) {
                let k = choose|k: int| 0 <= k < prefix.len() && prefix[k] == "participate"@;
                if k < i {
                    assert(all.take(i as int)[k] == "participate"@);
                }
            }
            if all.take(i as int).contains("participate"@) {
                let k = choose|k: int|
                    0 <= k < all.take(i as int).len() && all.take(i as int)[k] == "participate"@;
                assert(prefix[k] == "participate"@);
            }
        }
        i = i + 1;
    }
    assert(all.take(requests@.len() as int) =~= all);
    let expanded = expanded_optional_capabilities(expanded, expand_participate);
    match validate_capabilities(&expanded) {
        Ok(()) => Ok(expanded),
        Err(e) => Err(e),
    }
}

/// How a capability list is shown: `-` when empty, else comma-separated.
pub open spec fn capability_list_text(capabilities: Seq<Seq<char>>) -> Seq<char> {
    if capabilities.len() == 0 {
        "-"@
    } else {
        join(capabilities, ", "@)
    }
}

/// Shows a capability list.
pub fn format_capability_list(capabilities: &Vec<String>) -> (s: String)
    ensures
        s@ == capability_list_text(texts(capabilities@)),
{
    if capabilities.len() == 0 {
        "-".to_owned()
    } else {
        join_texts(capabilities, ", ")
    }
}

/// The capabilities expanded for a grant are those given (and the
/// participation capabilities with `participate`), each exactly once; with
/// `participate` the participation capabilities come first, in their order.
pub proof fn law_expanded_capabilities_are_distinct(capabilities: Seq<Seq<char>>, participate: bool)
    ensures
        expanded_optional_spec(capabilities, participate).no_duplicates(),
        forall|c: Seq<char>|
            #[trigger] expanded_optional_spec(capabilities, participate).contains(c) <==> (
            capabilities.contains(c) || (participate && participation_names().contains(c))),
        participate ==> expanded_optional_spec(capabilities, participate).take(5)
            == participation_names(),
{
    let s = if participate {
        participation_names() + capabilities
    } else {
        capabilities
    };
    lemma_first_occurrences_distinct(s);
    assert forall|c: Seq<char>|
        #[trigger] expanded_optional_spec(capabilities, participate).contains(c) <==> (
        capabilities.contains(c) || (participate && participation_names().contains(c))) by {
        lemma_first_occurrences_contains(s, c);
        if participate {
            if s.contains(c) {
                let k = choose|k: int| 0 <= k < s.len() && s[k] == c;
                if k >= 5 {
                    assert(capabilities[k - 5] == c);
                } else {
                    assert(participation_names()[k] == c);
                }
            }
            if capabilities.contains(c) {
                let k = choose|k: int| 0 <= k < capabilities.len() && capabilities[k] == c;
                assert(s[k + 5] == c);
            }
            if participation_names().contains(c) {
                let k = choose|k: int| 0 <= k < 5 && participation_names()[k] == c;
                assert(s[k] == c);
            }
        }
    }
    if participate {
        lemma_participation_prefix(capabilities);
    }
}

proof fn lemma_first_occurrences_prefix(s: Seq<Seq<char>>, n: int)
    requires
        0 <= n <= s.len(),
        s.take(n).no_duplicates(),
    ensures
        first_occurrences(s).len() >= n,
        first_occurrences(s).take(n) == s.take(n),
    decreases s.len(),
{
    if s.len() > n {
        assert(s.drop_last().take(n) =~= s.take(n));
        lemma_first_occurrences_prefix(s.drop_last(), n);
        let d = first_occurrences(s.drop_last());
        if !s.drop_last().contains(s.last()) {
            assert(d.push(s.last()).take(n) =~= d.take(n));
        }
    } else if s.len() == n && n > 0 {
        let p = s.drop_last();
        assert(p.take(n - 1) =~= p);
        assert(p.no_duplicates()) by {
            assert forall|i: int, j: int| 0 <= i < p.len() && 0 <= j < p.len() && i != j implies p[i] != p[j] by {
                assert(s.take(n)[i] == p[i] && s.take(n)[j] == p[j]);
            }
        }
        assert(p.take(n - 1) =~= p.take(n - 1));
        lemma_first_occurrences_prefix(p, n - 1);
        assert(!p.contains(s.last())) by {
            if p.contains(s.last()) {
                let k = choose|k: int| 0 <= k < p.len() && p[k] == s.last();
                assert(s.take(n)[k] == s.take(n)[n - 1]);
            }
        }
        lemma_first_occurrences_len(p);
        assert(first_occurrences(p).take(n - 1) =~= first_occurrences(p));
        assert(s.take(n) =~= s);
        assert(first_occurrences(s) =~= first_occurrences(p).push(s.last()));
        assert(first_occurrences(s).take(n) =~= s);
    } else {
        assert(s.take(n) =~= first_occurrences(s).take(n));
    }
}

proof fn lemma_participation_prefix(capabilities: Seq<Seq<char>>)
    ensures
        first_occurrences(participation_names() + capabilities).take(5) == participation_names(),
{
    let s = participation_names() + capabilities;
    assert(s.take(5) =~= participation_names());
    reveal_strlit("propose");
    reveal_strlit("deliberate");
    reveal_strlit("comment");
    reveal_strlit("accept");
    reveal_strlit("reject");
    assert(participation_names().no_duplicates()) by {
        let p = participation_names();
        assert forall|i: int, j: int| 0 <= i < 5 && 0 <= j < 5 && i != j implies p[i] != p[j] by {
            assert(p[i][0] != p[j][0] || p[i].len() != p[j].len() || p[i][1] != p[j][1]);
        }
    }
    lemma_first_occurrences_prefix(s, 5);
}

/// Expanding a list that was already expanded, without `participate`,
/// leaves it as it is.
pub proof fn law_expansion_is_idempotent(capabilities: Seq<Seq<char>>, participate: bool)
    ensures
        expanded_optional_spec(expanded_optional_spec(capabilities, participate), false)
            == expanded_optional_spec(capabilities, participate),
{
    let e = expanded_optional_spec(capabilities, participate);
    law_expanded_capabilities_are_distinct(capabilities, participate);
    lemma_first_occurrences_prefix(e, e.len() as int);
    assert(e.take(e.len() as int) =~= e);
    assert(first_occurrences(e).take(e.len() as int) =~= first_occurrences(e)) by {
        lemma_first_occurrences_len(e);
    }
}

proof fn lemma_first_occurrences_len(s: Seq<Seq<char>>)
    ensures
        first_occurrences(s).len() <= s.len(),
    decreases s.len(),
{
    if s.len() > 0 {
        lemma_first_occurrences_len(s.drop_last());
    }
}

/// The texts of an array's elements when all are strings.
pub open spec fn all_strings(items: Seq<JsonValue>) -> Option<Seq<Seq<char>>>
    decreases items.len(),
{
    if items.len() == 0 {
        Some(Seq::empty())
    } else {
        match (all_strings(items.drop_last()), items.last()) {
            (Some(front), JsonValue::Str(s)) => Some(front.push(s)),
            _ => None,
        }
    }
}

/// The capabilities an authorization grant's payload lists: the string
/// array `body.capabilities`.
pub open spec fn grant_payload_spec(payload: Seq<u8>) -> Result<Seq<Seq<char>>, Failure> {
    match json_bytes_parse(payload) {
        Err(e) => Err(Failure::Json(e)),
        Ok(v) => match member(v, "body"@) {
            Some(body) => match member(body, "capabilities"@) {
                Some(JsonValue::Array(items)) => match all_strings(items) {
                    Some(list) => Ok(list),
                    None => Err(Failure::User("authorization grant capability is not a string"@)),
                },
                _ => Err(Failure::User("authorization grant has no capabilities"@)),
            },
            None => Err(Failure::User("authorization grant has no capabilities"@)),
        },
    }
}

/// The capabilities listed in an authorization grant's signed payload.
pub fn authorization_grant_capabilities(payload: &[u8]) -> (r: Result<Vec<String>, FactError>)
    ensures
        list_outcome(r) == grant_payload_spec(payload@),
{
    let value = match parse_json_bytes(payload) {
        Ok(v) => v,
        Err(e) => {
            return Err(FactError::Json(e));
        },
    };
    let body = match get(&value, "body") {
        Some(b) => b,
        None => {
            return Err(FactError::User("authorization grant has no capabilities".to_owned()));
        },
    };
    let items = match get(body, "capabilities") {
        Some(c) => match c {
            Json::Array(items) => {
                proof {
                    lemma_array_value(c, items);
                }
                items
            },
            _ => {
                return Err(FactError::User("authorization grant has no capabilities".to_owned()));
            },
        },
        None => {
            return Err(FactError::User("authorization grant has no capabilities".to_owned()));
        },
    };
    let ghost all = items@.map_values(|j: Json| j@);
    assert(all =~= array_items(member(body@, "capabilities"@).unwrap()));
    assert(grant_payload_spec(payload@) == match all_strings(all) {
        Some(list) => Ok(list),
        None => Err(Failure::User("authorization grant capability is not a string"@)),
    });
    let mut out: Vec<String> = Vec::new();
    let mut i: usize = 0;
    while i < items.len()
        invariant
            i <= items@.len(),
            grant_payload_spec(payload@) == match all_strings(all) {
                Some(list) => Ok(list),
                None => Err(Failure::User("authorization grant capability is not a string"@)),
            },
            all == items@.map_values(|j: Json| j@),
            all_strings(all.take(i as int)) == Some(texts(out@)),
        decreases items@.len() - i,
    {
        assert(all.take(i + 1).drop_last() =~= all.take(i as int));
        assert(all.take(i + 1).last() == items@[i as int]@);
        match &items[i] {
            Json::Str(s) => {
                let ghost before = texts(out@);
                out.push(s.clone());
                assert(texts(out@) =~= before.push(s@));
            },
            _ => {
                proof {
                    assert(!(items@[i as int]@ is Str));
                    assert(all_strings(all.take(i + 1)) is None);
                    lemma_all_strings_prefix(all, i as int + 1);
                }
                return Err(FactError::User("authorization grant capability is not a string".to_owned()));
            },
        }
        i = i + 1;
    }
    assert(all.take(items@.len() as int) =~= all);
    Ok(out)
}

proof fn lemma_all_strings_prefix(s: Seq<JsonValue>, n: int)
    requires
        0 <= n <= s.len(),
        all_strings(s.take(n)) is None,
    ensures
        all_strings(s) is None,
    decreases s.len(),
{
    if n < s.len() {
        assert(s.drop_last().take(n) =~= s.take(n));
        lemma_all_strings_prefix(s.drop_last(), n);
    } else {
        assert(s.take(n) =~= s);
    }
}

/// The descriptions of the grantable capabilities, in listing order.
pub open spec fn grantable_descriptions() -> Seq<Seq<char>> {
    seq![
        "create propositions"@,
        "join or participate in deliberations"@,
        "invite actors to deliberations"@,
        "comment on deliberations"@,
        "accept revisions as a participant"@,
        "reject revisions as a participant"@,
        "withdraw propositions while preserving history"@,
        "archive propositions while preserving history"@,
        "grant or revoke permissions"@,
    ]
}

/// `format!("{:<12}", text)`: the text padded with spaces to 12 characters.
pub open spec fn padded12(text: Seq<char>) -> Seq<char> {
    if text.len() >= 12 {
        text
    } else {
        text + Seq::new((12 - text.len()) as nat, |i: int| ' ')
    }
}

/// One line of the capability listing: a `*` marks a held capability.
pub open spec fn listing_line(name: Seq<char>, description: Seq<char>, held: bool) -> Seq<char> {
    "  "@ + (if held {
        "*"@
    } else {
        " "@
    }) + " "@ + padded12(name) + description
}

fn pad12(text: &str) -> (r: String)
    ensures
        r@ == padded12(text@),
{
    let n = char_len(text);
    let mut r = text.to_owned();
    if n >= 12 {
        return r;
    }
    let mut k: usize = n;
    while k < 12
        invariant
            n <= k <= 12,
            n == text@.len(),
            r@ == text@ + Seq::new((k - n) as nat, |i: int| ' '),
        decreases 12 - k,
    {
        push_char(&mut r, ' ');
        assert(r@ =~= text@ + Seq::new((k + 1 - n) as nat, |i: int| ' '));
        k = k + 1;
    }
    r
}

/// The lines listing the grantable capabilities, in order, each marked when
/// it is among `held`.
pub fn capability_listing(held: &Vec<String>) -> (lines: Vec<String>)
    ensures
        lines@.len() == grantable_names().len(),
        forall|i: int|
            0 <= i < lines@.len() ==> (#[trigger] lines@[i])@ == listing_line(
                grantable_names()[i],
                grantable_descriptions()[i],
                texts(held@).contains(grantable_names()[i]),
            ),
{
    let table = grantable_capabilities();
    let mut lines: Vec<String> = Vec::new();
    let mut i: usize = 0;
    while i < table.len()
        invariant
            i <= table@.len(),
            table@.len() == grantable_names().len(),
            forall|j: int| 0 <= j < table@.len() ==> (#[trigger] table@[j]).name@ == grantable_names()[j],
            forall|j: int|
                0 <= j < table@.len() ==> (#[trigger] table@[j]).description@
                    == grantable_descriptions()[j],
            lines@.len() == i,
            forall|j: int|
                0 <= j < i ==> (#[trigger] lines@[j])@ == listing_line(
                    grantable_names()[j],
                    grantable_descriptions()[j],
                    texts(held@).contains(grantable_names()[j]),
                ),
        decreases table@.len() - i,
    {
        let info = &table[i];
        let name = info.name.to_owned();
        let is_held = contains_text(held, &name);
        let mut line = "  ".to_owned();
        if is_held {
            push_str(&mut line, "*");
        } else {
            push_str(&mut line, " ");
        }
        push_str(&mut line, " ");
        push_str(&mut line, pad12(info.name).as_str());
        push_str(&mut line, info.description);
        proof {
            assert(line@ =~= listing_line(
                grantable_names()[i as int],
                grantable_descriptions()[i as int],
                texts(held@).contains(grantable_names()[i as int]),
            ));
        }
        lines.push(line);
        i = i + 1;
    }
    lines
}

/// A list of capabilities as a JSON array of strings.
pub fn capability_list_json(capabilities: &Vec<String>) -> (j: Json)
    ensures
        j@ == crate::actor_exchange::texts_json(texts(capabilities@)),
{
    crate::actor_exchange::texts_to_json(capabilities)
}

} // verus!
