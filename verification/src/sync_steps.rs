//! The parts of `fact sync` that are decided locally: the endpoints of a
//! remote ledger, which files may be pushed, how pulled pages are merged,
//! where a paged pull goes on, and what is reported.
//!
//! Content hashes are held as their bytes.

use vstd::prelude::*;
use crate::book::opt_view;
use crate::errors::{FactError, Failure};
use crate::ids::{uuid_hyphenated, uuid_text};
use crate::json::{Json, JsonValue, get, get_str, member, str_member};
use crate::names::{trim_char, trim_end_matches};
use crate::text::{concat, decimal, decimal_text, push_str};

verus! {

/// The ledger list of a remote: `{url}/facts/ledgers`, the URL's trailing
/// slashes removed.
pub fn ledgers_endpoint(url: &str) -> (s: String)
    ensures
        s@ == trim_end_matches(url@, '/') + "/facts/ledgers"@,
{
    let mut s = trim_char(url, '/', false);
    push_str(&mut s, "/facts/ledgers");
    s
}

/// An endpoint of one ledger of a remote:
/// `{url}/facts/ledgers/{ledger}/{action}`.
pub open spec fn ledger_endpoint_spec(url: Seq<char>, ledger: u128, action: Seq<char>) -> Seq<char> {
    trim_end_matches(url, '/') + "/facts/ledgers/"@ + uuid_hyphenated(ledger) + "/"@ + action
}

/// Builds an endpoint of one ledger of a remote.
pub fn ledger_endpoint(url: &str, ledger: u128, action: &str) -> (s: String)
    ensures
        s@ == ledger_endpoint_spec(url@, ledger, action@),
{
    let mut s = trim_char(url, '/', false);
    push_str(&mut s, "/facts/ledgers/");
    push_str(&mut s, uuid_text(ledger).as_str());
    push_str(&mut s, "/");
    push_str(&mut s, action);
    s
}

/// Whether bytes begin as a bundle or a snapshot does.
pub open spec fn sync_file(bytes: Seq<u8>) -> bool {
    bytes.len() >= 8 && (bytes.take(8) == seq![70u8, 65, 67, 84, 66, 78, 68, 76] || bytes.take(8)
        == seq![70u8, 65, 67, 84, 83, 78, 65, 80])
}

/// Whether a file can be pushed: it begins with `FACTBNDL` or `FACTSNAP`.
pub fn is_sync_file(bytes: &[u8]) -> (r: bool)
    ensures
        r == sync_file(bytes@),
{
    if bytes.len() < 8 {
        return false;
    }
    let bundle: [u8; 8] = [70u8, 65, 67, 84, 66, 78, 68, 76];
    let snapshot: [u8; 8] = [70u8, 65, 67, 84, 83, 78, 65, 80];
    let mut is_bundle = true;
    let mut is_snapshot = true;
    let mut i: usize = 0;
    while i < 8
        invariant
            i <= 8,
            bytes@.len() >= 8,
            bundle@ == seq![70u8, 65, 67, 84, 66, 78, 68, 76],
            snapshot@ == seq![70u8, 65, 67, 84, 83, 78, 65, 80],
            is_bundle == (forall|k: int| 0 <= k < i ==> bytes@[k] == bundle@[k]),
            is_snapshot == (forall|k: int| 0 <= k < i ==> bytes@[k] == snapshot@[k]),
        decreases 8 - i,
    {
        if bytes[i] != bundle[i] {
            is_bundle = false;
        }
        if bytes[i] != snapshot[i] {
            is_snapshot = false;
        }
        i = i + 1;
    }
    proof {
        if is_bundle {
            assert(bytes@.take(8) =~= seq![70u8, 65, 67, 84, 66, 78, 68, 76]);
        } else {
            if bytes@.take(8) == seq![70u8, 65, 67, 84, 66, 78, 68, 76] {
                assert forall|k: int| 0 <= k < 8 implies bytes@[k] == bundle@[k] by {
                    assert(bytes@.take(8)[k] == bytes@[k]);
                }
            }
        }
        if is_snapshot {
            assert(bytes@.take(8) =~= seq![70u8, 65, 67, 84, 83, 78, 65, 80]);
        } else {
            if bytes@.take(8) == seq![70u8, 65, 67, 84, 83, 78, 65, 80] {
                assert forall|k: int| 0 <= k < 8 implies bytes@[k] == snapshot@[k] by {
                    assert(bytes@.take(8)[k] == bytes@[k]);
                }
            }
        }
    }
    is_bundle || is_snapshot
}

/// Checks a file for `fact sync push`.
pub fn check_sync_file(bytes: &[u8]) -> (r: Result<(), FactError>)
    ensures
        match r {
            Ok(()) => sync_file(bytes@),
            Err(e) => !sync_file(bytes@) && e@ == Failure::User(
                "sync push requires a FACTBNDL or FACTSNAP file"@,
            ),
        },
{
    if is_sync_file(bytes) {
        Ok(())
    } else {
        Err(FactError::User("sync push requires a FACTBNDL or FACTSNAP file".to_owned()))
    }
}

/// The ledger a remote push goes to, which must be named.
pub fn remote_push_ledger(ledger: Option<String>) -> (r: Result<String, FactError>)
    ensures
        match r {
            Ok(l) => opt_view(ledger) == Some(l@),
            Err(e) => ledger is None && e@ == Failure::User("--ledger is required with --remote"@),
        },
{
    match ledger {
        Some(l) => Ok(l),
        None => Err(FactError::User("--ledger is required with --remote".to_owned())),
    }
}

/// A remote pull takes no paging limits.
pub fn check_remote_pull_options(limit: Option<usize>, max_object_bytes: Option<usize>) -> (r: Result<
    (),
    FactError,
>)
    ensures
        match r {
            Ok(()) => limit is None && max_object_bytes is None,
            Err(e) => (limit is Some || max_object_bytes is Some) && e@ == Failure::User(
                "--limit and --max-object-bytes are only supported for local pull"@,
            ),
        },
{
    if limit.is_some() || max_object_bytes.is_some() {
        return Err(
            FactError::User(
                "--limit and --max-object-bytes are only supported for local pull".to_owned(),
            ),
        );
    }
    Ok(())
}

/// Whether an object with this hash is among the objects.
pub open spec fn has_hash(objects: Seq<(Seq<u8>, Seq<u8>)>, hash: Seq<u8>) -> bool {
    exists|k: int| 0 <= k < objects.len() && #[trigger] objects[k].0 == hash
}

/// The objects after a pulled page: each object of the page whose hash is
/// not there yet is added, in order.
pub open spec fn merged(objects: Seq<(Seq<u8>, Seq<u8>)>, page: Seq<(Seq<u8>, Seq<u8>)>) -> Seq<
    (Seq<u8>, Seq<u8>),
>
    decreases page.len(),
{
    if page.len() == 0 {
        objects
    } else {
        let before = merged(objects, page.drop_last());
        if has_hash(before, page.last().0) {
            before
        } else {
            before.push(page.last())
        }
    }
}

/// The hashes of the objects are distinct.
pub open spec fn distinct_hashes(objects: Seq<(Seq<u8>, Seq<u8>)>) -> bool {
    forall|a: int, b: int|
        0 <= a < b < objects.len() ==> #[trigger] objects[a].0 != #[trigger] objects[b].0
}

pub open spec fn pair_views(v: Seq<(Vec<u8>, Vec<u8>)>) -> Seq<(Seq<u8>, Seq<u8>)> {
    v.map_values(|p: (Vec<u8>, Vec<u8>)| (p.0@, p.1@))
}

fn same_bytes(a: &Vec<u8>, b: &Vec<u8>) -> (r: bool)
    ensures
        r == (a@ == b@),
{
    if a.len() != b.len() {
        return false;
    }
    let mut i: usize = 0;
    while i < a.len()
        invariant
            i <= a@.len(),
            a@.len() == b@.len(),
            forall|k: int| 0 <= k < i ==> a@[k] == b@[k],
        decreases a@.len() - i,
    {
        if a[i] != b[i] {
            return false;
        }
        i = i + 1;
    }
    assert(a@ =~= b@);
    true
}

fn holds_hash(objects: &Vec<(Vec<u8>, Vec<u8>)>, hash: &Vec<u8>) -> (r: bool)
    ensures
        r == has_hash(pair_views(objects@), hash@),
{
    let ghost v = pair_views(objects@);
    let mut i: usize = 0;
    while i < objects.len()
        invariant
            i <= objects@.len(),
            v == pair_views(objects@),
            forall|k: int| 0 <= k < i ==> (#[trigger] v[k]).0 != hash@,
        decreases objects@.len() - i,
    {
        if same_bytes(&objects[i].0, hash) {
            assert(v[i as int].0 == hash@);
            return true;
        }
        i = i + 1;
    }
    false
}

/// Adds the objects of a pulled page whose hashes are new.
pub fn merge_pulled_page(objects: &mut Vec<(Vec<u8>, Vec<u8>)>, page: Vec<(Vec<u8>, Vec<u8>)>)
    ensures
        pair_views(final(objects)@) == merged(pair_views(old(objects)@), pair_views(page@)),
{
    let ghost start = pair_views(objects@);
    let ghost pv = pair_views(page@);
    let n = page.len();
    let mut rest = page;
    let mut i: usize = 0;
    assert(pv.take(0) =~= Seq::<(Seq<u8>, Seq<u8>)>::empty());
    while rest.len() > 0
        invariant
            i + rest@.len() == n,
            n == pv.len(),
            forall|k: int| 0 <= k < rest@.len() ==> (#[trigger] rest@[k].0)@ == pv[i + k].0 && rest@[k].1@ == pv[i + k].1,
            pair_views(objects@) == merged(start, pv.take(i as int)),
        decreases rest@.len(),
    {
        let ghost before = rest@;
        let item = rest.remove(0);
        assert(rest@ =~= before.drop_first());
        assert(item.0@ == pv[i as int].0 && item.1@ == pv[i as int].1) by {
            assert(before[0] == item);
            assert(before[0].0@ == pv[i + 0].0);
        }
        assert forall|k: int| 0 <= k < rest@.len() implies (#[trigger] rest@[k].0)@ == pv[(i + 1) + k].0
            && rest@[k].1@ == pv[(i + 1) + k].1 by {
            assert(rest@[k] == before[k + 1]);
        }
        assert(pv.take(i + 1).drop_last() =~= pv.take(i as int));
        assert(pv.take(i + 1).last() == pv[i as int]);
        let ghost prev = pair_views(objects@);
        if !holds_hash(objects, &item.0) {
            objects.push(item);
            assert(pair_views(objects@) =~= prev.push(pv[i as int]));
        }
        i = i + 1;
    }
    assert(pv.take(n as int) =~= pv);
}

/// Merging a pulled page keeps the hashes of the objects distinct, and
/// loses none of the hashes pulled.
pub proof fn law_pulled_hashes_stay_distinct(
    objects: Seq<(Seq<u8>, Seq<u8>)>,
    page: Seq<(Seq<u8>, Seq<u8>)>,
)
    requires
        distinct_hashes(objects),
    ensures
        distinct_hashes(merged(objects, page)),
        forall|k: int| 0 <= k < page.len() ==> has_hash(merged(objects, page), #[trigger] page[k].0),
        merged(objects, page).len() >= objects.len(),
        forall|k: int|
            0 <= k < objects.len() ==> #[trigger] merged(objects, page)[k] == objects[k],
    decreases page.len(),
{
    if page.len() > 0 {
        let rest = page.drop_last();
        law_pulled_hashes_stay_distinct(objects, rest);
        let before = merged(objects, rest);
        let x = page.last();
        let after = merged(objects, page);
        if !has_hash(before, x.0) {
            assert(after == before.push(x));
            assert forall|a: int, b: int| 0 <= a < b < after.len() implies #[trigger] after[a].0
                != #[trigger] after[b].0 by {
                if b == before.len() {
                    assert(after[a] == before[a]);
                } else {
                    assert(after[a] == before[a] && after[b] == before[b]);
                }
            }
            assert(has_hash(after, x.0)) by {
                assert(after[before.len() as int].0 == x.0);
            }
        }
        assert forall|k: int| 0 <= k < page.len() implies has_hash(after, #[trigger] page[k].0) by {
            if k < rest.len() {
                assert(rest[k] == page[k]);
                assert(has_hash(before, rest[k].0));
                let j = choose|j: int| 0 <= j < before.len() && #[trigger] before[j].0 == rest[k].0;
                assert(after[j] == before[j]);
            } else {
                assert(page[k] == x);
                if has_hash(before, x.0) {
                    let j = choose|j: int| 0 <= j < before.len() && #[trigger] before[j].0 == x.0;
                    assert(after[j] == before[j]);
                }
            }
        }
        assert forall|k: int| 0 <= k < objects.len() implies #[trigger] after[k] == objects[k] by {
            assert(before[k] == objects[k]);
            assert(after[k] == before[k]);
        }
    }
}

/// Merging never drops or reorders the objects already there.
pub proof fn lemma_merged_extends(objects: Seq<(Seq<u8>, Seq<u8>)>, page: Seq<(Seq<u8>, Seq<u8>)>)
    ensures
        merged(objects, page).len() >= objects.len(),
        merged(objects, page).take(objects.len() as int) == objects,
    decreases page.len(),
{
    if page.len() > 0 {
        lemma_merged_extends(objects, page.drop_last());
        let before = merged(objects, page.drop_last());
        if !has_hash(before, page.last().0) {
            assert(before.push(page.last()).take(objects.len() as int) =~= before.take(
                objects.len() as int,
            ));
        }
    }
}

pub open spec fn byte_views(v: Seq<Vec<u8>>) -> Seq<Seq<u8>> {
    v.map_values(|b: Vec<u8>| b@)
}

/// The signed bytes of the objects from position `from` on.
pub open spec fn bytes_from(objects: Seq<(Seq<u8>, Seq<u8>)>, from: int) -> Seq<Seq<u8>> {
    objects.skip(from).map_values(|p: (Seq<u8>, Seq<u8>)| p.1)
}

/// One round of fetching missing dependencies: the fetched objects whose
/// hashes are new join the objects, and their signed bytes are queued to be
/// inspected for dependencies of their own.
pub fn absorb_fetched_objects(
    objects: &mut Vec<(Vec<u8>, Vec<u8>)>,
    pending: &mut Vec<Vec<u8>>,
    fetched: Vec<(Vec<u8>, Vec<u8>)>,
)
    ensures
        pair_views(final(objects)@) == merged(pair_views(old(objects)@), pair_views(fetched@)),
        byte_views(final(pending)@) == byte_views(old(pending)@) + bytes_from(
            pair_views(final(objects)@),
            old(objects)@.len() as int,
        ),
{
    let n0 = objects.len();
    let ghost start = pair_views(objects@);
    merge_pulled_page(objects, fetched);
    proof {
        lemma_merged_extends(start, pair_views(fetched@));
        assert(pair_views(objects@).len() == objects@.len());
    }
    let ghost pending0 = byte_views(pending@);
    let ghost all = pair_views(objects@);
    let mut t: usize = n0;
    while t < objects.len()
        invariant
            n0 <= t <= objects@.len(),
            all == pair_views(objects@),
            byte_views(pending@) == pending0 + bytes_from(all, n0 as int).take(t - n0),
        decreases objects@.len() - t,
    {
        let bytes = objects[t].1.clone();
        let ghost before = byte_views(pending@);
        pending.push(bytes);
        proof {
            assert(bytes@ == all[t as int].1);
            assert(bytes_from(all, n0 as int).take(t + 1 - n0) =~= bytes_from(all, n0 as int).take(
                t - n0,
            ).push(all[t as int].1));
            assert(byte_views(pending@) =~= before.push(bytes@));
        }
        t = t + 1;
    }
    assert(bytes_from(all, n0 as int).take(objects@.len() - n0) =~= bytes_from(all, n0 as int));
}

/// Where a paged remote pull goes on: the `next_cursor` of the response
/// body, when there is one.
pub open spec fn next_cursor_spec(response: JsonValue) -> Option<Seq<char>> {
    match member(response, "body"@) {
        Some(b) => str_member(b, "next_cursor"@),
        None => None,
    }
}

/// Reads the cursor a paged pull goes on from.
pub fn next_pull_cursor(response: &Json) -> (r: Option<String>)
    ensures
        opt_view(r) == next_cursor_spec(response@),
{
    match get(response, "body") {
        Some(b) => get_str(b, "next_cursor"),
        None => None,
    }
}

/// What a local pull reports.
pub fn local_pull_message(pulled: usize, next_cursor: &Option<String>) -> (s: String)
    ensures
        s@ == "pulled "@ + decimal(pulled as nat) + " object(s)"@ + match opt_view(*next_cursor) {
            Some(c) => "; next cursor "@ + c,
            None => Seq::empty(),
        },
{
    let mut s = concat("pulled ", decimal_text(pulled).as_str());
    push_str(&mut s, " object(s)");
    match next_cursor {
        Some(c) => {
            push_str(&mut s, "; next cursor ");
            push_str(&mut s, c.as_str());
        },
        None => {},
    }
    s
}

} // verus!
