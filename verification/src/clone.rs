//! `fact clone`: where a clone comes from, and how a remote ledger is pulled
//! for it.

use vstd::prelude::*;
use crate::actor_exchange::{ActorClaims, ClaimsView};
use crate::errors::{FactError, Failure};
use crate::remotes::{ConfiguredRemote, RemoteEntry};
use crate::book::opt_view;
use crate::text::{concat, push_str, texts};
use crate::actor_exchange::payload_views;
use crate::bundles::{clone_dependency_diagnostic, clone_diagnostic_ok, readable_infos};
use crate::faults::{ReportedError, SdkError, StoreError};
use crate::names::{same_remote_url, trim_end_matches};
use crate::text::str_eq;

verus! {

/// Which of its sources `fact clone` was given.
pub enum CloneSourceKind {
    /// A URL or a bundle file.
    Source(String),
    /// A configured remote, by name.
    Remote(String),
    /// A remote descriptor file.
    Descriptor(String),
}

pub open spec fn missing_source_error() -> Failure {
    Failure::User("fact clone requires SOURCE, --remote NAME, or --from FILE"@)
}

pub open spec fn several_sources_error() -> Failure {
    Failure::User("fact clone accepts only one of SOURCE, --remote NAME, or --from FILE"@)
}

/// Exactly one of SOURCE, `--remote` and `--from` must be given.
pub fn clone_source_choice(
    source: Option<String>,
    remote: Option<String>,
    descriptor: Option<String>,
) -> (r: Result<CloneSourceKind, FactError>)
    ensures
        match r {
            Ok(CloneSourceKind::Source(s)) => opt_view(source) == Some(s@) && remote is None
                && descriptor is None,
            Ok(CloneSourceKind::Remote(n)) => source is None && opt_view(remote) == Some(n@)
                && descriptor is None,
            Ok(CloneSourceKind::Descriptor(p)) => source is None && remote is None && opt_view(
                descriptor,
            ) == Some(p@),
            Err(e) => if source is None && remote is None && descriptor is None {
                e@ == missing_source_error()
            } else {
                e@ == several_sources_error()
            },
        },
{
    match (source, remote, descriptor) {
        (Some(s), None, None) => Ok(CloneSourceKind::Source(s)),
        (None, Some(n), None) => Ok(CloneSourceKind::Remote(n)),
        (None, None, Some(p)) => Ok(CloneSourceKind::Descriptor(p)),
        (None, None, None) => Err(
            FactError::User("fact clone requires SOURCE, --remote NAME, or --from FILE".to_owned()),
        ),
        _ => Err(
            FactError::User(
                "fact clone accepts only one of SOURCE, --remote NAME, or --from FILE".to_owned(),
            ),
        ),
    }
}

/// Where a clone comes from.
pub struct CloneSource {
    pub url: String,
    pub name_source: String,
    pub remote_name: Option<String>,
    pub ledger: Option<String>,
    pub genesis_hash: Option<String>,
    pub bearer_token: Option<String>,
    pub actor: Option<String>,
    pub claims: Option<ActorClaims>,
    pub is_remote_url: bool,
    pub from_descriptor: bool,
}

fn clone_opt(o: &Option<String>) -> (r: Option<String>)
    ensures
        opt_view(r) == opt_view(*o),
{
    match o {
        Some(s) => Some(s.clone()),
        None => None,
    }
}

/// A source named directly: a URL (matched against the configured remotes,
/// whose ledger, genesis hash and token it then takes) or a bundle file.
pub fn clone_source_from_url(source: String, is_remote_url: bool, matched: Option<&RemoteEntry>) -> (c: CloneSource)
    ensures
        c.url@ == source@,
        c.name_source@ == source@,
        c.is_remote_url == is_remote_url,
        !c.from_descriptor,
        c.actor is None,
        c.claims is None,
        match matched {
            Some(m) => opt_view(c.remote_name) == Some(m.name@) && opt_view(c.ledger) == opt_view(
                m.ledger,
            ) && opt_view(c.genesis_hash) == opt_view(m.genesis_hash) && opt_view(c.bearer_token)
                == opt_view(m.bearer_token),
            None => c.remote_name is None && c.ledger is None && c.genesis_hash is None
                && c.bearer_token is None,
        },
{
    let (remote_name, ledger, genesis_hash, bearer_token) = match matched {
        Some(m) => (Some(m.name.clone()), clone_opt(&m.ledger), clone_opt(&m.genesis_hash), clone_opt(&m.bearer_token)),
        None => (None, None, None, None),
    };
    CloneSource {
        url: source.clone(),
        name_source: source,
        remote_name,
        ledger,
        genesis_hash,
        bearer_token,
        actor: None,
        claims: None,
        is_remote_url,
        from_descriptor: false,
    }
}

/// A source given as a configured remote: its URL, ledger, genesis hash and
/// token, under the remote's name.
pub fn clone_source_from_remote(remote_name: String, remote: ConfiguredRemote) -> (c: CloneSource)
    ensures
        c.url@ == remote.url@,
        c.name_source@ == remote_name@,
        opt_view(c.remote_name) == Some(remote_name@),
        opt_view(c.ledger) == opt_view(remote.ledger),
        opt_view(c.genesis_hash) == opt_view(remote.genesis_hash),
        opt_view(c.bearer_token) == opt_view(remote.bearer_token),
        c.actor is None,
        c.claims is None,
        c.is_remote_url,
        !c.from_descriptor,
{
    CloneSource {
        url: remote.url,
        name_source: remote_name.clone(),
        remote_name: Some(remote_name),
        ledger: remote.ledger,
        genesis_hash: remote.genesis_hash,
        bearer_token: remote.bearer_token,
        actor: None,
        claims: None,
        is_remote_url: true,
        from_descriptor: false,
    }
}

/// A source given as a remote descriptor, once the descriptor's remote is
/// saved: that remote, with the actor and claims the descriptor carries.
pub fn clone_source_from_descriptor(
    saved: RemoteEntry,
    actor: Option<String>,
    claims: Option<ActorClaims>,
) -> (c: CloneSource)
    ensures
        c.url@ == saved.url@,
        c.name_source@ == saved.name@,
        opt_view(c.remote_name) == Some(saved.name@),
        opt_view(c.ledger) == opt_view(saved.ledger),
        opt_view(c.genesis_hash) == opt_view(saved.genesis_hash),
        opt_view(c.bearer_token) == opt_view(saved.bearer_token),
        opt_view(c.actor) == opt_view(actor),
        c.claims == claims,
        c.is_remote_url,
        c.from_descriptor,
{
    CloneSource {
        url: saved.url,
        name_source: saved.name.clone(),
        remote_name: Some(saved.name),
        ledger: saved.ledger,
        genesis_hash: saved.genesis_hash,
        bearer_token: saved.bearer_token,
        actor,
        claims,
        is_remote_url: true,
        from_descriptor: true,
    }
}

/// The arguments of the `fact sync pull` run that fetches a remote ledger
/// for a clone into a scratch database and bundle.
pub open spec fn pull_args(
    url: Seq<char>,
    token: Option<Seq<char>>,
    database: Seq<char>,
    ledger: Seq<char>,
    bundle: Seq<char>,
) -> Seq<Seq<char>> {
    seq!["sync"@, "pull"@, "--remote"@, url] + match token {
        Some(t) => seq!["--bearer-token="@ + t],
        None => Seq::empty(),
    } + seq!["--"@, database, ledger, bundle]
}

/// Builds the arguments of the pull run.
pub fn clone_pull_args(
    url: &str,
    bearer_token: &Option<String>,
    database: &str,
    ledger: &str,
    bundle: &str,
) -> (args: Vec<String>)
    ensures
        texts(args@) == pull_args(url@, opt_view(*bearer_token), database@, ledger@, bundle@),
{
    let mut args: Vec<String> = Vec::new();
    args.push("sync".to_owned());
    args.push("pull".to_owned());
    args.push("--remote".to_owned());
    args.push(url.to_owned());
    match bearer_token {
        Some(t) => args.push(concat("--bearer-token=", t.as_str())),
        None => {},
    }
    args.push("--".to_owned());
    args.push(database.to_owned());
    args.push(ledger.to_owned());
    args.push(bundle.to_owned());
    assert(texts(args@) =~= pull_args(url@, opt_view(*bearer_token), database@, ledger@, bundle@));
    args
}

/// The directory claims a clone records for its own actor: only a writable
/// clone bound to the actor the descriptor was issued for, and only when the
/// descriptor's claims name it.
pub open spec fn claims_to_apply(
    read_only: bool,
    source_actor: Option<Seq<char>>,
    entry_actor: Seq<char>,
    claims: Option<ClaimsView>,
) -> Option<ClaimsView> {
    if read_only || source_actor != Some(entry_actor) {
        None
    } else {
        match claims {
            Some(c) => if c.display_name is Some {
                Some(c)
            } else {
                None
            },
            None => None,
        }
    }
}

/// Decides which claims a clone records for its actor.
pub fn clone_claims_to_apply<'a>(
    read_only: bool,
    source: &'a CloneSource,
    entry_actor: &str,
) -> (r: Option<&'a ActorClaims>)
    ensures
        match r {
            Some(c) => claims_to_apply(
                read_only,
                opt_view(source.actor),
                entry_actor@,
                match source.claims {
                    Some(c) => Some(c@),
                    None => None,
                },
            ) == Some(c@),
            None => claims_to_apply(
                read_only,
                opt_view(source.actor),
                entry_actor@,
                match source.claims {
                    Some(c) => Some(c@),
                    None => None,
                },
            ) is None,
        },
{
    if read_only {
        return None;
    }
    match &source.actor {
        Some(a) => {
            if !crate::text::str_eq(a.as_str(), entry_actor) {
                return None;
            }
        },
        None => {
            return None;
        },
    }
    match &source.claims {
        Some(c) => if c.display_name.is_some() {
            Some(c)
        } else {
            None
        },
        None => None,
    }
}

/// An import failure that may come from ledger data missing locally.
pub open spec fn dependency_related(e: SdkError) -> bool {
    match e {
        SdkError::Store(s) => match s {
            StoreError::MissingDependency => true,
            StoreError::MissingKey => true,
            StoreError::MissingLedger => true,
            StoreError::InvalidLineage => true,
            _ => false,
        },
        _ => false,
    }
}

fn is_dependency_related(e: &SdkError) -> (r: bool)
    ensures
        r == dependency_related(*e),
{
    match e {
        SdkError::Store(s) => match s {
            StoreError::MissingDependency => true,
            StoreError::MissingKey => true,
            StoreError::MissingLedger => true,
            StoreError::InvalidLineage => true,
            _ => false,
        },
        _ => false,
    }
}

/// The failure reported when importing cloned objects fails: where the
/// failure may come from missing ledger data and the objects show what is
/// missing, the failure's text (`error_text`) followed by that diagnostic;
/// else the failure as it is. `payloads` holds, per object, its payload or
/// the error met opening its envelope.
pub fn contextualize_clone_import_error(
    error: SdkError,
    error_text: &str,
    payloads: &Vec<Result<Vec<u8>, String>>,
) -> (r: ReportedError)
    ensures
        !dependency_related(error) ==> r == ReportedError::Sdk(error),
        dependency_related(error) ==> {
            let infos = readable_infos(payload_views(payloads@));
            ||| r == ReportedError::Sdk(error) && clone_diagnostic_ok(infos, None)
            ||| exists|d: Seq<char>|
                {
                    &&& #[trigger] clone_diagnostic_ok(infos, Some(d))
                    &&& r matches ReportedError::Fact(FactError::User(m))
                    &&& m@ == error_text@ + "; "@ + d
                }
        },
{
    if !is_dependency_related(&error) {
        return ReportedError::Sdk(error);
    }
    match clone_dependency_diagnostic(payloads) {
        Some(diagnostic) => {
            let mut m = concat(error_text, "; ");
            push_str(&mut m, diagnostic.as_str());
            let r = ReportedError::Fact(FactError::User(m));
            assert(clone_diagnostic_ok(readable_infos(payload_views(payloads@)), Some(diagnostic@)));
            r
        },
        None => ReportedError::Sdk(error),
    }
}

/// Some saved remote has this URL, up to trailing slashes.
pub open spec fn url_saved(remotes: Seq<RemoteEntry>, url: Seq<char>) -> bool {
    exists|i: int|
        0 <= i < remotes.len() && trim_end_matches((#[trigger] remotes[i]).url@, '/')
            == trim_end_matches(url, '/')
}

/// Some saved remote has this name.
pub open spec fn name_saved(remotes: Seq<RemoteEntry>, name: Seq<char>) -> bool {
    exists|i: int| 0 <= i < remotes.len() && (#[trigger] remotes[i]).name@ == name
}

/// The remote a clone from a remote URL saves under the clone's name: none
/// when the clone names a saved remote, does not come from a remote URL, or
/// a saved remote already has that URL; refused when another remote
/// already has the name.
pub fn clone_remote_to_create(name: &str, source: &CloneSource, remotes: &Vec<RemoteEntry>) -> (r:
    Result<Option<String>, FactError>)
    ensures
        match r {
            Ok(Some(n)) => {
                &&& source.is_remote_url && source.remote_name is None
                &&& !url_saved(remotes@, source.url@)
                &&& !name_saved(remotes@, name@)
                &&& n@ == name@
            },
            Ok(None) => !source.is_remote_url || source.remote_name is Some || url_saved(
                remotes@,
                source.url@,
            ),
            Err(e) => {
                &&& source.is_remote_url && source.remote_name is None
                &&& !url_saved(remotes@, source.url@)
                &&& name_saved(remotes@, name@)
                &&& e@ == Failure::User(
                    "remote already exists: "@ + name@
                        + "; pass --remote NAME to reuse it or choose another clone name"@,
                )
            },
        },
{
    if !source.is_remote_url || source.remote_name.is_some() {
        return Ok(None);
    }
    let mut i: usize = 0;
    while i < remotes.len()
        invariant
            i <= remotes@.len(),
            source.is_remote_url && source.remote_name is None,
            forall|k: int|
                0 <= k < i ==> trim_end_matches((#[trigger] remotes@[k]).url@, '/')
                    != trim_end_matches(source.url@, '/'),
        decreases remotes@.len() - i,
    {
        if same_remote_url(remotes[i].url.as_str(), source.url.as_str()) {
            assert(url_saved(remotes@, source.url@)) by {
                assert(trim_end_matches(remotes@[i as int].url@, '/') == trim_end_matches(
                    source.url@,
                    '/',
                ));
            }
            return Ok(None);
        }
        i = i + 1;
    }
    let mut j: usize = 0;
    while j < remotes.len()
        invariant
            j <= remotes@.len(),
            source.is_remote_url && source.remote_name is None,
            !url_saved(remotes@, source.url@),
            forall|k: int| 0 <= k < j ==> (#[trigger] remotes@[k]).name@ != name@,
        decreases remotes@.len() - j,
    {
        if str_eq(remotes[j].name.as_str(), name) {
            assert(name_saved(remotes@, name@)) by {
                assert(remotes@[j as int].name@ == name@);
            }
            let mut m = concat("remote already exists: ", name);
            push_str(&mut m, "; pass --remote NAME to reuse it or choose another clone name");
            return Err(FactError::User(m));
        }
        j = j + 1;
    }
    Ok(Some(name.to_owned()))
}

} // verus!
