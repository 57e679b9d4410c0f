//! The remotes saved in a local environment: which one a command uses, and
//! how each is listed.

use vstd::prelude::*;
use crate::errors::{FactError, Failure};
use crate::names::{same_remote_url, trim_end_matches};
use crate::text::{concat, push_str, str_eq};

verus! {

/// A remote saved in the environment, under its name.
#[derive(Debug)]
pub struct RemoteEntry {
    pub name: String,
    pub url: String,
    /// The ledger the remote is scoped to, if it is.
    pub ledger: Option<String>,
    pub genesis_hash: Option<String>,
    pub bearer_token: Option<String>,
}

/// Where a command sends its requests.
#[derive(Debug)]
pub struct ConfiguredRemote {
    pub url: String,
    pub ledger: Option<String>,
    pub genesis_hash: Option<String>,
    pub bearer_token: Option<String>,
}

pub struct EntryView {
    pub name: Seq<char>,
    pub url: Seq<char>,
    pub ledger: Option<Seq<char>>,
    pub genesis_hash: Option<Seq<char>>,
    pub bearer_token: Option<Seq<char>>,
}

pub open spec fn ov(o: Option<String>) -> Option<Seq<char>> {
    match o {
        Some(s) => Some(s@),
        None => None,
    }
}

impl View for RemoteEntry {
    type V = EntryView;

    open spec fn view(&self) -> EntryView {
        EntryView {
            name: self.name@,
            url: self.url@,
            ledger: ov(self.ledger),
            genesis_hash: ov(self.genesis_hash),
            bearer_token: ov(self.bearer_token),
        }
    }
}

/// A configured remote as values: URL, ledger, genesis hash, token.
pub type TargetView = (Seq<char>, Option<Seq<char>>, Option<Seq<char>>, Option<Seq<char>>);

pub open spec fn target_view(c: ConfiguredRemote) -> TargetView {
    (c.url@, ov(c.ledger), ov(c.genesis_hash), ov(c.bearer_token))
}

pub open spec fn target_of(e: EntryView) -> TargetView {
    (e.url, e.ledger, e.genesis_hash, e.bearer_token)
}

pub open spec fn entry_views(v: Seq<RemoteEntry>) -> Seq<EntryView> {
    v.map_values(|e: RemoteEntry| e@)
}

/// The first remote with the given name.
pub open spec fn named(remotes: Seq<EntryView>, name: Seq<char>) -> Option<int>
    decreases remotes.len(),
{
    if remotes.len() == 0 {
        None
    } else if remotes[0].name == name {
        Some(0)
    } else {
        match named(remotes.drop_first(), name) {
            Some(k) => Some(k + 1),
            None => None,
        }
    }
}

/// The remote a command uses: the one named (or, when none has that name,
/// the text taken as a URL), else the only one saved.
pub open spec fn configured_spec(remotes: Seq<EntryView>, requested: Option<Seq<char>>) -> Result<
    TargetView,
    Failure,
> {
    match requested {
        Some(r) => match named(remotes, r) {
            Some(k) => Ok(target_of(remotes[k])),
            None => Ok((r, None, None, None)),
        },
        None => if remotes.len() == 1 {
            Ok(target_of(remotes[0]))
        } else if remotes.len() == 0 {
            Err(Failure::User("no remote is configured; add one with fact ledger remote add NAME URL"@))
        } else {
            Err(Failure::User("multiple remotes are configured; pass --remote NAME or URL"@))
        },
    }
}

pub open spec fn target_outcome(r: Result<ConfiguredRemote, FactError>) -> Result<TargetView, Failure> {
    match r {
        Ok(c) => Ok(target_view(c)),
        Err(e) => Err(e@),
    }
}

fn target_from(e: &RemoteEntry) -> (c: ConfiguredRemote)
    ensures
        target_view(c) == target_of(e@),
{
    ConfiguredRemote {
        url: e.url.clone(),
        ledger: e.ledger.clone(),
        genesis_hash: e.genesis_hash.clone(),
        bearer_token: e.bearer_token.clone(),
    }
}

fn position_named(remotes: &Vec<RemoteEntry>, name: &str) -> (r: Option<usize>)
    ensures
        match r {
            Some(k) => named(entry_views(remotes@), name@) == Some(k as int) && k < remotes@.len(),
            None => named(entry_views(remotes@), name@) is None,
        },
{
    let ghost es = entry_views(remotes@);
    let mut i: usize = 0;
    assert(es.skip(0) =~= es);
    while i < remotes.len()
        invariant
            i <= remotes@.len(),
            es == entry_views(remotes@),
            named(es, name@) == match named(es.skip(i as int), name@) {
                Some(k) => Some(k + i),
                None => None,
            },
        decreases remotes@.len() - i,
    {
        assert(es.skip(i as int).drop_first() =~= es.skip(i + 1));
        assert(es.skip(i as int)[0] == remotes@[i as int]@);
        if str_eq(remotes[i].name.as_str(), name) {
            return Some(i);
        }
        i = i + 1;
    }
    None
}

/// Picks the remote a command uses, from the saved remotes (in name order).
pub fn configured_remote(remotes: &Vec<RemoteEntry>, requested: Option<&str>) -> (r: Result<
    ConfiguredRemote,
    FactError,
>)
    ensures
        target_outcome(r) == configured_spec(
            entry_views(remotes@),
            match requested {
                Some(q) => Some(q@),
                None => None,
            },
        ),
{
    match requested {
        Some(q) => match position_named(remotes, q) {
            Some(k) => {
                assert(entry_views(remotes@)[k as int] == remotes@[k as int]@);
                Ok(target_from(&remotes[k]))
            },
            None => Ok(
                ConfiguredRemote { url: q.to_owned(), ledger: None, genesis_hash: None, bearer_token: None },
            ),
        },
        None => {
            if remotes.len() == 1 {
                assert(entry_views(remotes@)[0] == remotes@[0]@);
                Ok(target_from(&remotes[0]))
            } else if remotes.len() == 0 {
                Err(
                    FactError::User(
                        "no remote is configured; add one with fact ledger remote add NAME URL".to_owned(),
                    ),
                )
            } else {
                Err(FactError::User("multiple remotes are configured; pass --remote NAME or URL".to_owned()))
            }
        },
    }
}

/// The remotes scoped to a ledger, in order.
pub open spec fn scoped(remotes: Seq<EntryView>, ledger: Seq<char>) -> Seq<EntryView>
    decreases remotes.len(),
{
    if remotes.len() == 0 {
        Seq::empty()
    } else if remotes.last().ledger == Some(ledger) {
        scoped(remotes.drop_last(), ledger).push(remotes.last())
    } else {
        scoped(remotes.drop_last(), ledger)
    }
}

/// The remote a command on a ledger uses: the one asked for, which must not
/// be scoped to another ledger; else the one scoped to this ledger; else the
/// only remote, when it is scoped to none.
pub open spec fn for_ledger_spec(
    remotes: Seq<EntryView>,
    requested: Option<Seq<char>>,
    ledger_id: Seq<char>,
) -> Result<TargetView, Failure> {
    match requested {
        Some(q) => match configured_spec(remotes, Some(q)) {
            Err(e) => Err(e),
            Ok(t) => match t.1 {
                Some(l) => if l != ledger_id {
                    Err(
                        Failure::User(
                            "remote "@ + q + " points to ledger "@ + l + ", not active ledger "@
                                + ledger_id,
                        ),
                    )
                } else {
                    Ok(t)
                },
                None => Ok(t),
            },
        },
        None => {
            let matches = scoped(remotes, ledger_id);
            if matches.len() == 1 {
                Ok(target_of(matches[0]))
            } else if matches.len() == 0 {
                if remotes.len() == 1 && remotes[0].ledger is None {
                    Ok(target_of(remotes[0]))
                } else if remotes.len() == 0 {
                    Err(Failure::User("no remote is configured; add one with fact remote add NAME URL"@))
                } else {
                    Err(
                        Failure::User(
                            "no remote is configured for ledger "@ + ledger_id
                                + "; pass --remote NAME or add a ledger-scoped remote"@,
                        ),
                    )
                }
            } else {
                Err(
                    Failure::User(
                        "multiple remotes are configured for ledger "@ + ledger_id
                            + "; pass --remote NAME"@,
                    ),
                )
            }
        },
    }
}

fn copy_entry(e: &RemoteEntry) -> (r: RemoteEntry)
    ensures
        r@ == e@,
{
    RemoteEntry {
        name: e.name.clone(),
        url: e.url.clone(),
        ledger: e.ledger.clone(),
        genesis_hash: e.genesis_hash.clone(),
        bearer_token: e.bearer_token.clone(),
    }
}

/// The remotes scoped to a ledger.
pub fn scoped_remotes(remotes: &Vec<RemoteEntry>, ledger: &str) -> (r: Vec<RemoteEntry>)
    ensures
        entry_views(r@) == scoped(entry_views(remotes@), ledger@),
{
    let ghost es = entry_views(remotes@);
    let mut out: Vec<RemoteEntry> = Vec::new();
    let mut i: usize = 0;
    while i < remotes.len()
        invariant
            i <= remotes@.len(),
            es == entry_views(remotes@),
            entry_views(out@) == scoped(es.take(i as int), ledger@),
        decreases remotes@.len() - i,
    {
        assert(es.take(i + 1).drop_last() =~= es.take(i as int));
        assert(es.take(i + 1).last() == remotes@[i as int]@);
        let in_scope = match &remotes[i].ledger {
            Some(l) => str_eq(l.as_str(), ledger),
            None => false,
        };
        if in_scope {
            let ghost before = entry_views(out@);
            out.push(copy_entry(&remotes[i]));
            assert(entry_views(out@) =~= before.push(remotes@[i as int]@));
        }
        i = i + 1;
    }
    assert(es.take(remotes@.len() as int) =~= es);
    out
}

/// Picks the remote a command on a ledger uses.
pub fn configured_remote_for_ledger(
    remotes: &Vec<RemoteEntry>,
    requested: Option<&str>,
    ledger_id: &str,
) -> (r: Result<ConfiguredRemote, FactError>)
    ensures
        target_outcome(r) == for_ledger_spec(
            entry_views(remotes@),
            match requested {
                Some(q) => Some(q@),
                None => None,
            },
            ledger_id@,
        ),
{
    match requested {
        Some(q) => {
            let remote = configured_remote(remotes, Some(q))?;
            match &remote.ledger {
                Some(l) => {
                    if !str_eq(l.as_str(), ledger_id) {
                        let mut message = concat("remote ", q);
                        push_str(&mut message, " points to ledger ");
                        push_str(&mut message, l.as_str());
                        push_str(&mut message, ", not active ledger ");
                        push_str(&mut message, ledger_id);
                        return Err(FactError::User(message));
                    }
                },
                None => {},
            }
            Ok(remote)
        },
        None => {
            let matches = scoped_remotes(remotes, ledger_id);
            if matches.len() == 1 {
                assert(entry_views(matches@)[0] == matches@[0]@);
                Ok(target_from(&matches[0]))
            } else if matches.len() == 0 {
                if remotes.len() == 1 && remotes[0].ledger.is_none() {
                    assert(entry_views(remotes@)[0] == remotes@[0]@);
                    Ok(target_from(&remotes[0]))
                } else if remotes.len() == 0 {
                    Err(
                        FactError::User(
                            "no remote is configured; add one with fact remote add NAME URL".to_owned(),
                        ),
                    )
                } else {
                    let mut message = concat("no remote is configured for ledger ", ledger_id);
                    push_str(&mut message, "; pass --remote NAME or add a ledger-scoped remote");
                    Err(FactError::User(message))
                }
            } else {
                let mut message = concat("multiple remotes are configured for ledger ", ledger_id);
                push_str(&mut message, "; pass --remote NAME");
                Err(FactError::User(message))
            }
        },
    }
}

/// The first remote whose URL is the given one up to trailing slashes.
pub open spec fn matching_spec(remotes: Seq<EntryView>, url: Seq<char>) -> Option<int>
    decreases remotes.len(),
{
    if remotes.len() == 0 {
        None
    } else if trim_end_matches(remotes[0].url, '/') == trim_end_matches(url, '/') {
        Some(0)
    } else {
        match matching_spec(remotes.drop_first(), url) {
            Some(k) => Some(k + 1),
            None => None,
        }
    }
}

/// The saved remote for a URL, by its position.
pub fn matching_remote(remotes: &Vec<RemoteEntry>, url: &str) -> (r: Option<usize>)
    ensures
        match r {
            Some(k) => matching_spec(entry_views(remotes@), url@) == Some(k as int) && k
                < remotes@.len(),
            None => matching_spec(entry_views(remotes@), url@) is None,
        },
{
    let ghost es = entry_views(remotes@);
    let mut i: usize = 0;
    assert(es.skip(0) =~= es);
    while i < remotes.len()
        invariant
            i <= remotes@.len(),
            es == entry_views(remotes@),
            matching_spec(es, url@) == match matching_spec(es.skip(i as int), url@) {
                Some(k) => Some(k + i),
                None => None,
            },
        decreases remotes@.len() - i,
    {
        assert(es.skip(i as int).drop_first() =~= es.skip(i + 1));
        assert(es.skip(i as int)[0] == remotes@[i as int]@);
        if same_remote_url(remotes[i].url.as_str(), url) {
            return Some(i);
        }
        i = i + 1;
    }
    None
}

/// How a saved remote is listed: name, URL, and its ledger and genesis hash
/// when it has them.
pub open spec fn remote_line_spec(e: EntryView) -> Seq<char> {
    match e.ledger {
        Some(l) => match e.genesis_hash {
            Some(g) => e.name + "  "@ + e.url + "  "@ + l + "  "@ + g,
            None => e.name + "  "@ + e.url + "  "@ + l,
        },
        None => e.name + "  "@ + e.url,
    }
}

/// The line listing a saved remote.
pub fn remote_line(remote: &RemoteEntry) -> (s: String)
    ensures
        s@ == remote_line_spec(remote@),
{
    let mut s = remote.name.clone();
    push_str(&mut s, "  ");
    push_str(&mut s, remote.url.as_str());
    match &remote.ledger {
        Some(l) => {
            push_str(&mut s, "  ");
            push_str(&mut s, l.as_str());
            match &remote.genesis_hash {
                Some(g) => {
                    push_str(&mut s, "  ");
                    push_str(&mut s, g.as_str());
                },
                None => {},
            }
        },
        None => {},
    }
    s
}

} // verus!
