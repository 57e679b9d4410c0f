//! The decisions of `fact actor send`, `fact actor admit` and `fact actor
//! revoke` that do not touch a ledger: which claims an artifact carries,
//! which file is read, how a token is labelled, and what is reported.

use vstd::prelude::*;
use crate::actor_exchange::{ActorClaims, ClaimsView};
use crate::capabilities::{capability_list_text, format_capability_list};
use crate::display::{claims_text, format_actor_claims};
use crate::errors::{FactError, Failure};
use crate::fact_as::ActorProfile;
use crate::identity_display::{ActorRequestReview, format_actor_request_review, review_lines};
use crate::ids::{uuid_hyphenated, uuid_text};
use crate::text::{concat, join, push_str, texts};

verus! {

pub open spec fn opt_view(o: Option<String>) -> Option<Seq<char>> {
    match o {
        Some(s) => Some(s@),
        None => None,
    }
}

/// The first of two optional texts that is given.
pub open spec fn first_given(a: Option<Seq<char>>, b: Option<Seq<char>>) -> Option<Seq<char>> {
    match a {
        Some(x) => Some(x),
        None => b,
    }
}

fn clone_opt(o: &Option<String>) -> (r: Option<String>)
    ensures
        opt_view(r) == opt_view(*o),
{
    match o {
        Some(s) => Some(s.clone()),
        None => None,
    }
}

fn either(a: Option<String>, b: &Option<String>) -> (r: Option<String>)
    ensures
        opt_view(r) == first_given(opt_view(a), opt_view(*b)),
{
    match a {
        Some(x) => Some(x),
        None => clone_opt(b),
    }
}

/// Who an actor request is made for.
pub struct SendIdentity {
    pub name: String,
    pub alias: Option<String>,
    pub actor_type: String,
}

pub open spec fn send_name_error() -> Failure {
    Failure::User("fact actor send requires a name or --profile"@)
}

/// The identity `fact actor send` asks for: each flag given, else the
/// profile's value; the type defaults to `human`. A name is required, from
/// the flag or the profile.
pub fn send_identity(
    name: Option<String>,
    alias: Option<String>,
    actor_type: Option<String>,
    profile: Option<&ActorProfile>,
) -> (r: Result<SendIdentity, FactError>)
    ensures
        match r {
            Ok(id) => {
                &&& Some(id.name@) == first_given(
                    opt_view(name),
                    match profile {
                        Some(p) => Some(p.display_name@),
                        None => None,
                    },
                )
                &&& opt_view(id.alias) == first_given(
                    opt_view(alias),
                    match profile {
                        Some(p) => opt_view(p.alias),
                        None => None,
                    },
                )
                &&& id.actor_type@ == match first_given(
                    opt_view(actor_type),
                    match profile {
                        Some(p) => Some(p.actor_type@),
                        None => None,
                    },
                ) {
                    Some(t) => t,
                    None => "human"@,
                }
            },
            Err(e) => name is None && profile is None && e@ == send_name_error(),
        },
{
    let name = match name {
        Some(n) => n,
        None => match profile {
            Some(p) => p.display_name.clone(),
            None => {
                return Err(FactError::User("fact actor send requires a name or --profile".to_owned()));
            },
        },
    };
    let alias = match alias {
        Some(a) => Some(a),
        None => match profile {
            Some(p) => clone_opt(&p.alias),
            None => None,
        },
    };
    let actor_type = match actor_type {
        Some(t) => t,
        None => match profile {
            Some(p) => p.actor_type.clone(),
            None => "human".to_owned(),
        },
    };
    Ok(SendIdentity { name, alias, actor_type })
}

pub open spec fn admit_path_error() -> Failure {
    Failure::User("fact actor admit requires FILE or --input FILE; use --input - for stdin"@)
}

/// The request file `fact actor admit` reads: `--input`, else the
/// positional file.
pub fn admit_request_path(input: Option<String>, file: Option<String>) -> (r: Result<String, FactError>)
    ensures
        match r {
            Ok(p) => Some(p@) == first_given(opt_view(input), opt_view(file)),
            Err(e) => input is None && file is None && e@ == admit_path_error(),
        },
{
    match input {
        Some(p) => Ok(p),
        None => match file {
            Some(p) => Ok(p),
            None => Err(
                FactError::User(
                    "fact actor admit requires FILE or --input FILE; use --input - for stdin".to_owned(),
                ),
            ),
        },
    }
}

/// The claims an admission records: each flag given, else the request's
/// claim; the name falls back to the actor's UUID and the type to `human`.
pub open spec fn admitted_claims(
    name: Option<Seq<char>>,
    alias: Option<Seq<char>>,
    actor_type: Option<Seq<char>>,
    claims: ClaimsView,
    actor: u128,
) -> ClaimsView {
    ClaimsView {
        display_name: Some(
            match first_given(name, claims.display_name) {
                Some(n) => n,
                None => uuid_hyphenated(actor),
            },
        ),
        alias: first_given(alias, claims.alias),
        actor_type: Some(
            match first_given(actor_type, claims.actor_type) {
                Some(t) => t,
                None => "human"@,
            },
        ),
    }
}

/// Decides the claims an admission records.
pub fn admit_claims(
    name: Option<String>,
    alias: Option<String>,
    actor_type: Option<String>,
    claims: &ActorClaims,
    actor: u128,
) -> (c: ActorClaims)
    ensures
        c@ == admitted_claims(opt_view(name), opt_view(alias), opt_view(actor_type), claims@, actor),
{
    let display_name = match either(name, &claims.display_name) {
        Some(n) => n,
        None => uuid_text(actor),
    };
    let alias = either(alias, &claims.alias);
    let actor_type = match either(actor_type, &claims.actor_type) {
        Some(t) => t,
        None => "human".to_owned(),
    };
    ActorClaims { display_name: Some(display_name), alias, actor_type: Some(actor_type) }
}

/// The label of a token issued on admission: `--token-label`, else the
/// alias, else the display name.
pub fn admit_token_label(
    token_label: Option<String>,
    alias: &Option<String>,
    display_name: &String,
) -> (r: String)
    ensures
        Some(r@) == first_given(first_given(opt_view(token_label), opt_view(*alias)), Some(display_name@)),
{
    match either(token_label, alias) {
        Some(l) => l,
        None => display_name.clone(),
    }
}

/// The reason recorded for a revocation: the one given, or the standard one.
pub fn revoke_reason(reason: Option<String>) -> (r: String)
    ensures
        r@ == match opt_view(reason) {
            Some(x) => x,
            None => "authority revoked by ledger administrator"@,
        },
{
    match reason {
        Some(x) => x,
        None => "authority revoked by ledger administrator".to_owned(),
    }
}

/// What `fact actor send` reports.
pub open spec fn send_report(
    output: Seq<char>,
    actor_ref: Seq<char>,
    claims: ClaimsView,
    requests: Seq<Seq<char>>,
    fingerprint: Seq<char>,
) -> Seq<char> {
    "wrote "@ + output + "\nactor      "@ + actor_ref + "\nclaims     "@ + claims_text(claims)
        + "\nrequests   "@ + capability_list_text(requests) + "\nkey        "@ + fingerprint
}

/// Reports a written actor request.
pub fn send_human_output(
    output: &str,
    actor_ref: &str,
    claims: &ActorClaims,
    requests: &Vec<String>,
    fingerprint: &str,
) -> (s: String)
    ensures
        s@ == send_report(output@, actor_ref@, claims@, texts(requests@), fingerprint@),
{
    let mut s = concat("wrote ", output);
    push_str(&mut s, "\nactor      ");
    push_str(&mut s, actor_ref);
    push_str(&mut s, "\nclaims     ");
    push_str(&mut s, format_actor_claims(claims).as_str());
    push_str(&mut s, "\nrequests   ");
    push_str(&mut s, format_capability_list(requests).as_str());
    push_str(&mut s, "\nkey        ");
    push_str(&mut s, fingerprint);
    assert(s@ =~= send_report(output@, actor_ref@, claims@, texts(requests@), fingerprint@));
    s
}

/// What `fact actor admit` reports: the review of the request, then whom it
/// recognized, what it granted and where the response went.
pub open spec fn admit_report(
    review: ActorRequestReview,
    claims: ClaimsView,
    capabilities: Seq<Seq<char>>,
    output: Seq<char>,
) -> Seq<char> {
    join(review_lines(review), "\n"@) + "\n"@ + "recognized "@ + review.actor_ref@ + " as "@
        + claims_text(claims) + "\ngranted "@ + capability_list_text(capabilities) + "\nwrote "@
        + output
}

/// Reports an admission.
pub fn admit_human_output(
    review: &ActorRequestReview,
    claims: &ActorClaims,
    capabilities: &Vec<String>,
    output: &str,
) -> (s: String)
    ensures
        s@ == admit_report(*review, claims@, texts(capabilities@), output@),
{
    let mut s = format_actor_request_review(review);
    push_str(&mut s, "\n");
    push_str(&mut s, "recognized ");
    push_str(&mut s, review.actor_ref.as_str());
    push_str(&mut s, " as ");
    push_str(&mut s, format_actor_claims(claims).as_str());
    push_str(&mut s, "\ngranted ");
    push_str(&mut s, format_capability_list(capabilities).as_str());
    push_str(&mut s, "\nwrote ");
    push_str(&mut s, output);
    assert(s@ =~= admit_report(*review, claims@, texts(capabilities@), output@));
    s
}

} // verus!
