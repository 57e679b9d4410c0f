//! `fact permissions revoke --participate`: which grants to revoke so that
//! an actor loses the participation capabilities, and when to refuse.
//!
//! The store lists the grant rows capability by capability; a grant that
//! holds several of them is listed once for each. Each grant is read from
//! the first row that lists it. A grant that also holds a capability beyond
//! participation is not revoked on this path: the user must revoke it by
//! name.

use vstd::prelude::*;
use crate::capabilities::{authorization_grant_capabilities, grant_payload_spec, participation_names};
use crate::errors::{FactError, Failure};
use crate::ids::{uuid_hyphenated, uuid_text};
use crate::resolve::{insert_sorted, strictly_increasing};
use crate::text::{concat, str_eq, texts};

verus! {

/// A grant row as the store lists it: the grant's object ID and its signed
/// payload.
pub struct GrantRow {
    pub object_id: u128,
    pub payload: Vec<u8>,
}

/// Row `i` is the first that lists its grant.
pub open spec fn first_seen(rows: Seq<GrantRow>, i: int) -> bool {
    forall|k: int| 0 <= k < i ==> #[trigger] rows[k].object_id != rows[i].object_id
}

/// Row `i` first lists its grant, and its payload cannot be read.
pub open spec fn unreadable(rows: Seq<GrantRow>, i: int) -> bool {
    &&& 0 <= i < rows.len()
    &&& first_seen(rows, i)
    &&& grant_payload_spec(rows[i].payload@) is Err
}

/// Some capability of the list is not a participation capability.
pub open spec fn beyond_participation(caps: Seq<Seq<char>>) -> bool {
    exists|j: int| 0 <= j < caps.len() && !participation_names().contains(#[trigger] caps[j])
}

/// Row `i` first lists its grant, and that grant holds a capability beyond
/// participation.
pub open spec fn mixes(rows: Seq<GrantRow>, i: int) -> bool {
    &&& 0 <= i < rows.len()
    &&& first_seen(rows, i)
    &&& match grant_payload_spec(rows[i].payload@) {
        Ok(caps) => beyond_participation(caps),
        Err(_) => false,
    }
}

/// The grant with this ID mixes participation with other capabilities.
pub open spec fn mixed_grant(rows: Seq<GrantRow>, id: u128) -> bool {
    exists|i: int| #[trigger] mixes(rows, i) && rows[i].object_id == id
}

/// The IDs of the grants listed.
pub open spec fn grant_ids(rows: Seq<GrantRow>) -> Set<u128> {
    rows.map_values(|r: GrantRow| r.object_id).to_set()
}

/// The refusal for a grant that mixes participation with other capabilities.
pub open spec fn mixed_grant_message(id: u128) -> Seq<char> {
    "grant "@ + uuid_hyphenated(id)
        + " mixes participation and non-participation capabilities; revoke it explicitly"@
}

/// Whether a capability is one of those `--participate` stands for.
fn is_participation_capability(capability: &str) -> (r: bool)
    ensures
        r == participation_names().contains(capability@),
{
    let r = str_eq(capability, "propose") || str_eq(capability, "deliberate") || str_eq(
        capability,
        "comment",
    ) || str_eq(capability, "accept") || str_eq(capability, "reject");
    proof {
        let names = participation_names();
        if r {
            if capability@ == "propose"@ {
                assert(names[0] == capability@);
            } else if capability@ == "deliberate"@ {
                assert(names[1] == capability@);
            } else if capability@ == "comment"@ {
                assert(names[2] == capability@);
            } else if capability@ == "accept"@ {
                assert(names[3] == capability@);
            } else {
                assert(names[4] == capability@);
            }
        } else {
            assert forall|i: int| 0 <= i < names.len() implies names[i] != capability@ by {}
        }
    }
    r
}

/// Whether a grant's capabilities go beyond participation.
fn exceeds_participation(caps: &Vec<String>) -> (r: bool)
    ensures
        r == beyond_participation(texts(caps@)),
{
    let ghost t = texts(caps@);
    let mut i: usize = 0;
    while i < caps.len()
        invariant
            i <= caps@.len(),
            t == texts(caps@),
            forall|j: int| 0 <= j < i ==> participation_names().contains(#[trigger] t[j]),
        decreases caps@.len() - i,
    {
        if !is_participation_capability(caps[i].as_str()) {
            assert(!participation_names().contains(t[i as int]));
            return true;
        }
        i = i + 1;
    }
    false
}

proof fn lemma_first_seen_unique(rows: Seq<GrantRow>, a: int, b: int)
    requires
        0 <= a < rows.len(),
        0 <= b < rows.len(),
        first_seen(rows, a),
        first_seen(rows, b),
        rows[a].object_id == rows[b].object_id,
    ensures
        a == b,
{
    if a < b {
        assert(rows[a].object_id != rows[b].object_id);
    } else if b < a {
        assert(rows[b].object_id != rows[a].object_id);
    }
}

/// The grants to revoke, in ascending ID order: every grant listed, when
/// all can be read and none holds a capability beyond participation.
/// Otherwise the error of the first row whose grant cannot be read, or
/// else the refusal naming the lowest grant ID that mixes capabilities.
pub fn participation_grants_to_revoke(rows: &Vec<GrantRow>) -> (r: Result<Vec<u128>, FactError>)
    ensures
        match r {
            Ok(ids) => {
                &&& forall|i: int| !unreadable(rows@, i)
                &&& forall|id: u128| !mixed_grant(rows@, id)
                &&& strictly_increasing(ids@)
                &&& ids@.to_set() == grant_ids(rows@)
            },
            Err(e) => {
                ||| exists|i: int|
                    {
                        &&& #[trigger] unreadable(rows@, i)
                        &&& forall|k: int| k < i ==> !unreadable(rows@, k)
                        &&& grant_payload_spec(rows@[i].payload@) == Err::<Seq<Seq<char>>, Failure>(
                            e@,
                        )
                    }
                ||| {
                    &&& forall|i: int| !unreadable(rows@, i)
                    &&& exists|id: u128|
                        {
                            &&& #[trigger] mixed_grant(rows@, id)
                            &&& forall|other: u128| other < id ==> !mixed_grant(rows@, other)
                            &&& e@ == Failure::User(mixed_grant_message(id))
                        }
                }
            },
        },
{
    let ghost rs = rows@;
    // Each grant with its capabilities, read from the first row that lists
    // it; `at[j]` is that row, and `entry_of[k]` the entry of row `k`'s grant.
    let mut firsts: Vec<(u128, Vec<String>)> = Vec::new();
    let ghost mut at: Seq<int> = Seq::empty();
    let ghost mut entry_of: Seq<int> = Seq::empty();
    let mut i: usize = 0;
    while i < rows.len()
        invariant
            i <= rs.len(),
            rs == rows@,
            forall|k: int| k < i ==> !unreadable(rs, k),
            at.len() == firsts@.len(),
            entry_of.len() == i,
            forall|j: int|
                0 <= j < at.len() ==> {
                    &&& 0 <= #[trigger] at[j] < i
                    &&& first_seen(rs, at[j])
                    &&& rs[at[j]].object_id == firsts@[j].0
                    &&& grant_payload_spec(rs[at[j]].payload@) == Ok::<Seq<Seq<char>>, Failure>(
                        texts(firsts@[j].1@),
                    )
                },
            forall|k: int|
                0 <= k < i ==> {
                    &&& 0 <= #[trigger] entry_of[k] < firsts@.len()
                    &&& firsts@[entry_of[k]].0 == rs[k].object_id
                },
        decreases rs.len() - i,
    {
        let id = rows[i].object_id;
        let mut seen = false;
        let mut k: usize = 0;
        let ghost mut witness: int = 0;
        while k < i
            invariant
                k <= i < rs.len(),
                rs == rows@,
                id == rs[i as int].object_id,
                seen ==> 0 <= witness < i && rs[witness].object_id == id,
                !seen ==> forall|q: int| 0 <= q < k ==> #[trigger] rs[q].object_id != id,
            decreases i - k,
        {
            if rows[k].object_id == id {
                seen = true;
                proof {
                    witness = k as int;
                }
            }
            k = k + 1;
        }
        if seen {
            proof {
                entry_of = entry_of.push(entry_of[witness]);
            }
        } else {
            assert(first_seen(rs, i as int));
            let caps = match authorization_grant_capabilities(rows[i].payload.as_slice()) {
                Ok(c) => c,
                Err(e) => {
                    assert(unreadable(rs, i as int));
                    return Err(e);
                },
            };
            proof {
                entry_of = entry_of.push(firsts@.len() as int);
                at = at.push(i as int);
            }
            firsts.push((id, caps));
        }
        i = i + 1;
    }
    // The lowest grant ID that mixes capabilities, if any, and its entry.
    let mut lowest: Option<u128> = None;
    let ghost mut lowest_at: int = 0;
    let mut j: usize = 0;
    while j < firsts.len()
        invariant
            j <= firsts@.len(),
            forall|a: int|
                0 <= a < j && beyond_participation(texts((#[trigger] firsts@[a]).1@)) ==> (
                lowest matches Some(m) && m <= firsts@[a].0),
            lowest matches Some(m) ==> 0 <= lowest_at < j && firsts@[lowest_at].0 == m
                && beyond_participation(texts(firsts@[lowest_at].1@)),
        decreases firsts@.len() - j,
    {
        if exceeds_participation(&firsts[j].1) {
            let id = firsts[j].0;
            let replace = match lowest {
                Some(m) => id < m,
                None => true,
            };
            if replace {
                lowest = Some(id);
                proof {
                    lowest_at = j as int;
                }
            }
        }
        j = j + 1;
    }
    proof {
        // A row that mixes capabilities is the row of its entry.
        assert forall|i2: int| #[trigger] mixes(rs, i2) implies {
            &&& 0 <= entry_of[i2] < firsts@.len()
            &&& firsts@[entry_of[i2]].0 == rs[i2].object_id
            &&& beyond_participation(texts(firsts@[entry_of[i2]].1@))
        } by {
            let a = entry_of[i2];
            lemma_first_seen_unique(rs, at[a], i2);
        }
    }
    match lowest {
        Some(id) => {
            proof {
                assert(mixes(rs, at[lowest_at]));
                assert(mixed_grant(rs, id));
                assert forall|other: u128| other < id implies !mixed_grant(rs, other) by {
                    if mixed_grant(rs, other) {
                        let i2 = choose|i2: int| #[trigger] mixes(rs, i2) && rs[i2].object_id == other;
                        assert(beyond_participation(texts(firsts@[entry_of[i2]].1@)));
                    }
                }
            }
            let shown = uuid_text(id);
            let head = concat("grant ", shown.as_str());
            Err(
                FactError::User(
                    concat(
                        head.as_str(),
                        " mixes participation and non-participation capabilities; revoke it explicitly",
                    ),
                ),
            )
        },
        None => {
            proof {
                assert forall|id: u128| !mixed_grant(rs, id) by {
                    if mixed_grant(rs, id) {
                        let i2 = choose|i2: int| #[trigger] mixes(rs, i2) && rs[i2].object_id == id;
                        assert(beyond_participation(texts(firsts@[entry_of[i2]].1@)));
                    }
                }
            }
            let mut out: Vec<u128> = Vec::new();
            let mut t: usize = 0;
            while t < firsts.len()
                invariant
                    t <= firsts@.len(),
                    strictly_increasing(out@),
                    forall|x: u128|
                        out@.to_set().contains(x) <==> exists|a: int|
                            0 <= a < t && (#[trigger] firsts@[a]).0 == x,
                decreases firsts@.len() - t,
            {
                let ghost before = out@;
                insert_sorted(&mut out, firsts[t].0);
                proof {
                    assert forall|x: u128|
                        out@.to_set().contains(x) <==> exists|a: int|
                            0 <= a < t + 1 && (#[trigger] firsts@[a]).0 == x by {
                        if out@.to_set().contains(x) && x != firsts@[t as int].0 {
                            assert(before.to_set().contains(x));
                        }
                        if x == firsts@[t as int].0 {
                            assert(out@.to_set().contains(x));
                        }
                    }
                }
                t = t + 1;
            }
            proof {
                let g = rs.map_values(|r: GrantRow| r.object_id);
                assert forall|x: u128| out@.to_set().contains(x) <==> grant_ids(rs).contains(x) by {
                    if out@.to_set().contains(x) {
                        let a = choose|a: int| 0 <= a < firsts@.len() && (#[trigger] firsts@[a]).0 == x;
                        assert(g[at[a]] == x);
                    }
                    if grant_ids(rs).contains(x) {
                        let k = choose|k: int| 0 <= k < g.len() && g[k] == x;
                        assert(rs[k].object_id == x);
                        assert(firsts@[entry_of[k]].0 == x);
                    }
                }
                assert(out@.to_set() =~= grant_ids(rs));
            }
            Ok(out)
        },
    }
}

} // verus!
