//! Decisions that commands take from their arguments alone: whether `fact
//! push` and `fact pull` forward to the low-level sync commands, where
//! `fact remote auth` reads a token, which result `fact find` picks, how a
//! page of a listing is cut, and what `fact permission revoke` revokes.

use vstd::prelude::*;
use crate::book::opt_view;
use crate::errors::{FactError, Failure};
use crate::text::{concat, decimal, decimal_text, debug_quoted, debug_text, push_str, texts};

verus! {

/// What a sync command does: forward to `fact sync` with these arguments,
/// or synchronize the active ledger with its remote.
pub enum SyncPlan {
    Forward(Vec<String>),
    Personal,
}

/// The value of a [`SyncPlan`].
pub enum SyncPlanView {
    Forward(Seq<Seq<char>>),
    Personal,
}

pub open spec fn sync_view(p: SyncPlan) -> SyncPlanView {
    match p {
        SyncPlan::Forward(a) => SyncPlanView::Forward(texts(a@)),
        SyncPlan::Personal => SyncPlanView::Personal,
    }
}

/// An optional flag with its value, as arguments.
pub open spec fn flag_args(flag: Seq<char>, value: Option<Seq<char>>) -> Seq<Seq<char>> {
    match value {
        Some(v) => seq![flag, v],
        None => Seq::empty(),
    }
}

fn push_flag(args: &mut Vec<String>, flag: &str, value: &Option<String>)
    ensures
        texts(final(args)@) == texts(old(args)@) + flag_args(flag@, opt_view(*value)),
{
    let ghost before = texts(args@);
    match value {
        Some(v) => {
            args.push(flag.to_owned());
            args.push(v.clone());
            assert(texts(args@) =~= before + flag_args(flag@, opt_view(*value)));
        },
        None => {
            assert(texts(args@) =~= before + flag_args(flag@, opt_view(*value)));
        },
    }
}

fn opt_decimal(v: Option<usize>) -> (r: Option<String>)
    ensures
        opt_view(r) == match v {
            Some(n) => Some(decimal(n as nat)),
            None => None,
        },
{
    match v {
        Some(n) => Some(decimal_text(n)),
        None => None,
    }
}

/// What `fact push` does: with DATABASE and FILE, forward to `fact sync
/// push`; with neither, push the active ledger; else refuse.
pub open spec fn push_spec(
    database: Option<Seq<char>>,
    file: Option<Seq<char>>,
    remote: Option<Seq<char>>,
    ledger: Option<Seq<char>>,
) -> Result<SyncPlanView, Failure> {
    match (database, file) {
        (Some(d), Some(f)) => Ok(
            SyncPlanView::Forward(
                seq!["sync"@, "push"@, d, f] + flag_args("--remote"@, remote) + flag_args(
                    "--ledger"@,
                    ledger,
                ),
            ),
        ),
        (None, None) => Ok(SyncPlanView::Personal),
        _ => Err(Failure::User("fact push requires both DATABASE and FILE, or neither"@)),
    }
}

/// Decides what `fact push` does.
pub fn push_plan(
    database: Option<String>,
    file: Option<String>,
    remote: Option<String>,
    ledger: Option<String>,
) -> (r: Result<SyncPlan, FactError>)
    ensures
        match r {
            Ok(p) => push_spec(opt_view(database), opt_view(file), opt_view(remote), opt_view(ledger))
                == Ok::<SyncPlanView, Failure>(sync_view(p)),
            Err(e) => push_spec(opt_view(database), opt_view(file), opt_view(remote), opt_view(ledger))
                == Err::<SyncPlanView, Failure>(e@),
        },
{
    match (&database, &file) {
        (Some(d), Some(f)) => {
            let mut args: Vec<String> = Vec::new();
            args.push("sync".to_owned());
            args.push("push".to_owned());
            args.push(d.clone());
            args.push(f.clone());
            let ghost head = texts(args@);
            assert(head =~= seq!["sync"@, "push"@, d@, f@]);
            push_flag(&mut args, "--remote", &remote);
            push_flag(&mut args, "--ledger", &ledger);
            proof {
                let want = seq!["sync"@, "push"@, d@, f@] + flag_args("--remote"@, opt_view(remote))
                    + flag_args("--ledger"@, opt_view(ledger));
                assert(texts(args@) =~= want);
            }
            Ok(SyncPlan::Forward(args))
        },
        (None, None) => Ok(SyncPlan::Personal),
        _ => Err(FactError::User("fact push requires both DATABASE and FILE, or neither".to_owned())),
    }
}

/// The options of `fact pull` that only the low-level pull takes.
pub struct PullOptions {
    pub known_hashes: Option<String>,
    pub after: Option<String>,
    pub limit: Option<usize>,
    pub max_object_bytes: Option<usize>,
    pub remote: Option<String>,
}

pub open spec fn no_active_ledger_error() -> Failure {
    Failure::User(
        "no local ledger is active; use `fact clone --remote NAME --ledger LEDGER` first"@,
    )
}

/// What `fact pull` does: with DATABASE, LEDGER and OUTPUT, forward to
/// `fact sync pull`; with none of them (and none of its options), pull the
/// active ledger, which must exist; else refuse.
pub open spec fn pull_spec(
    database: Option<Seq<char>>,
    ledger: Option<Seq<char>>,
    output: Option<Seq<char>>,
    o: PullOptions,
    has_active: bool,
) -> Result<SyncPlanView, Failure> {
    match (database, ledger, output) {
        (Some(d), Some(l), Some(out)) => Ok(
            SyncPlanView::Forward(
                seq!["sync"@, "pull"@, d, l, out] + flag_args(
                    "--known-hashes"@,
                    opt_view(o.known_hashes),
                ) + flag_args("--after"@, opt_view(o.after)) + flag_args(
                    "--limit"@,
                    match o.limit {
                        Some(n) => Some(decimal(n as nat)),
                        None => None,
                    },
                ) + flag_args(
                    "--max-object-bytes"@,
                    match o.max_object_bytes {
                        Some(n) => Some(decimal(n as nat)),
                        None => None,
                    },
                ) + flag_args("--remote"@, opt_view(o.remote)),
            ),
        ),
        (None, None, None) if o.known_hashes is None && o.after is None && o.limit is None
            && o.max_object_bytes is None => if !has_active {
            Err(no_active_ledger_error())
        } else {
            Ok(SyncPlanView::Personal)
        },
        _ => Err(Failure::User("fact pull requires DATABASE, LEDGER, and OUTPUT, or none"@)),
    }
}

/// Decides what `fact pull` does; `has_active` says whether a local ledger
/// is active.
pub fn pull_plan(
    database: Option<String>,
    ledger: Option<String>,
    output: Option<String>,
    options: &PullOptions,
    has_active: bool,
) -> (r: Result<SyncPlan, FactError>)
    ensures
        match r {
            Ok(p) => pull_spec(opt_view(database), opt_view(ledger), opt_view(output), *options, has_active)
                == Ok::<SyncPlanView, Failure>(sync_view(p)),
            Err(e) => pull_spec(opt_view(database), opt_view(ledger), opt_view(output), *options, has_active)
                == Err::<SyncPlanView, Failure>(e@),
        },
{
    match (&database, &ledger, &output) {
        (Some(d), Some(l), Some(out)) => {
            let mut args: Vec<String> = Vec::new();
            args.push("sync".to_owned());
            args.push("pull".to_owned());
            args.push(d.clone());
            args.push(l.clone());
            args.push(out.clone());
            assert(texts(args@) =~= seq!["sync"@, "pull"@, d@, l@, out@]);
            push_flag(&mut args, "--known-hashes", &options.known_hashes);
            push_flag(&mut args, "--after", &options.after);
            push_flag(&mut args, "--limit", &opt_decimal(options.limit));
            push_flag(&mut args, "--max-object-bytes", &opt_decimal(options.max_object_bytes));
            push_flag(&mut args, "--remote", &options.remote);
            proof {
                let o = *options;
                let want = seq!["sync"@, "pull"@, d@, l@, out@] + flag_args(
                    "--known-hashes"@,
                    opt_view(o.known_hashes),
                ) + flag_args("--after"@, opt_view(o.after)) + flag_args(
                    "--limit"@,
                    match o.limit {
                        Some(n) => Some(decimal(n as nat)),
                        None => None,
                    },
                ) + flag_args(
                    "--max-object-bytes"@,
                    match o.max_object_bytes {
                        Some(n) => Some(decimal(n as nat)),
                        None => None,
                    },
                ) + flag_args("--remote"@, opt_view(o.remote));
                assert(texts(args@) =~= want);
            }
            Ok(SyncPlan::Forward(args))
        },
        (None, None, None) => {
            if options.known_hashes.is_none() && options.after.is_none() && options.limit.is_none()
                && options.max_object_bytes.is_none() {
                if !has_active {
                    return Err(
                        FactError::User(
                            "no local ledger is active; use `fact clone --remote NAME --ledger LEDGER` first".to_owned(),
                        ),
                    );
                }
                Ok(SyncPlan::Personal)
            } else {
                Err(FactError::User("fact pull requires DATABASE, LEDGER, and OUTPUT, or none".to_owned()))
            }
        },
        _ => Err(FactError::User("fact pull requires DATABASE, LEDGER, and OUTPUT, or none".to_owned())),
    }
}

/// Where `fact remote auth` takes the token from.
pub enum AuthSource {
    Clear,
    File(String),
    Stdin,
    Token(String),
}

pub open spec fn auth_error() -> Failure {
    Failure::User("remote auth requires TOKEN, --input, --stdin, or --clear"@)
}

/// Decides where `fact remote auth` takes the token from: clearing wins,
/// then `--input`, then `--stdin`, then TOKEN.
pub fn remote_auth_source(
    clear: bool,
    input: Option<String>,
    stdin: bool,
    token: Option<String>,
) -> (r: Result<AuthSource, FactError>)
    ensures
        match r {
            Ok(AuthSource::Clear) => clear,
            Ok(AuthSource::File(f)) => !clear && opt_view(input) == Some(f@),
            Ok(AuthSource::Stdin) => !clear && input is None && stdin,
            Ok(AuthSource::Token(t)) => !clear && input is None && !stdin && opt_view(token) == Some(
                t@,
            ),
            Err(e) => !clear && input is None && !stdin && token is None && e@ == auth_error(),
        },
{
    if clear {
        return Ok(AuthSource::Clear);
    }
    match input {
        Some(f) => {
            return Ok(AuthSource::File(f));
        },
        None => {},
    }
    if stdin {
        return Ok(AuthSource::Stdin);
    }
    match token {
        Some(t) => Ok(AuthSource::Token(t)),
        None => Err(FactError::User("remote auth requires TOKEN, --input, --stdin, or --clear".to_owned())),
    }
}

/// What `fact remote auth` reports.
pub fn remote_auth_message(clear: bool, name: &str) -> (s: String)
    ensures
        s@ == if clear {
            "cleared auth for remote "@ + name@
        } else {
            "stored auth for remote "@ + name@
        },
{
    if clear {
        concat("cleared auth for remote ", name)
    } else {
        concat("stored auth for remote ", name)
    }
}

/// Why `fact find` did not pick a result: the message, and for an
/// ambiguous search the listing of the candidates printed before it.
#[derive(Debug)]
pub struct FindRefusal {
    pub listing: Option<String>,
    pub message: String,
}

/// A candidate of `fact find`.
pub struct FindHit {
    pub reference: String,
    pub summary: String,
}

/// The numbered listing of ambiguous candidates.
pub open spec fn candidates_text(text: Seq<char>, hits: Seq<FindHit>) -> Seq<char> {
    "multiple accepted propositions matched "@ + debug_text(text) + "\n"@ + crate::text::concat_all(
        Seq::new(
            hits.len(),
            |i: int| "  "@ + decimal((i + 1) as nat) + ". "@ + hits[i].reference@ + "  "@
                + hits[i].summary@ + "\n"@,
        ),
    )
}

/// Which of the results `fact find` picks: the only one, or the one
/// `--pick` numbers from 1.
pub open spec fn find_spec(text: Seq<char>, hits: Seq<FindHit>, pick: Option<usize>) -> Result<
    int,
    (Option<Seq<char>>, Seq<char>),
> {
    if hits.len() == 0 {
        Err((None, "no accepted propositions matched "@ + debug_text(text)))
    } else if hits.len() == 1 && pick is None {
        Ok(0)
    } else {
        match pick {
            Some(n) => if n == 0 {
                Err((None, "--pick starts at 1"@))
            } else if n <= hits.len() {
                Ok(n - 1)
            } else {
                Err(
                    (
                        None,
                        "--pick "@ + decimal(n as nat) + " is out of range; choose 1-"@ + decimal(
                            hits.len(),
                        ),
                    ),
                )
            },
            None => Err((Some(candidates_text(text, hits)), "provide --pick N to select one result"@)),
        }
    }
}

/// Picks the result of `fact find`.
pub fn find_selection(text: &str, hits: &Vec<FindHit>, pick: Option<usize>) -> (r: Result<
    usize,
    FindRefusal,
>)
    ensures
        match r {
            Ok(i) => find_spec(text@, hits@, pick) == Ok::<int, (Option<Seq<char>>, Seq<char>)>(
                i as int,
            ),
            Err(f) => find_spec(text@, hits@, pick) == Err::<int, (Option<Seq<char>>, Seq<char>)>(
                (opt_view(f.listing), f.message@),
            ),
        },
{
    if hits.len() == 0 {
        return Err(
            FindRefusal {
                listing: None,
                message: concat("no accepted propositions matched ", debug_quoted(text).as_str()),
            },
        );
    }
    if hits.len() == 1 && pick.is_none() {
        return Ok(0);
    }
    match pick {
        Some(n) => {
            if n == 0 {
                return Err(FindRefusal { listing: None, message: "--pick starts at 1".to_owned() });
            }
            if n <= hits.len() {
                return Ok(n - 1);
            }
            let mut m = concat("--pick ", decimal_text(n).as_str());
            push_str(&mut m, " is out of range; choose 1-");
            push_str(&mut m, decimal_text(hits.len()).as_str());
            Err(FindRefusal { listing: None, message: m })
        },
        None => {
            let mut listing = concat(
                "multiple accepted propositions matched ",
                debug_quoted(text).as_str(),
            );
            push_str(&mut listing, "\n");
            let ghost head = listing@;
            let ghost parts = Seq::new(
                hits@.len(),
                |i: int| "  "@ + decimal((i + 1) as nat) + ". "@ + hits@[i].reference@ + "  "@
                    + hits@[i].summary@ + "\n"@,
            );
            let mut i: usize = 0;
            assert(parts.take(0) =~= Seq::<Seq<char>>::empty());
            assert(listing@ =~= head + crate::text::concat_all(parts.take(0)));
            while i < hits.len()
                invariant
                    i <= hits@.len(),
                    parts == Seq::new(
                        hits@.len(),
                        |i: int| "  "@ + decimal((i + 1) as nat) + ". "@ + hits@[i].reference@
                            + "  "@ + hits@[i].summary@ + "\n"@,
                    ),
                    listing@ == head + crate::text::concat_all(parts.take(i as int)),
                decreases hits@.len() - i,
            {
                proof {
                    crate::text::lemma_concat_all_step(parts, i as int);
                }
                let mut line = "  ".to_owned();
                push_str(&mut line, decimal_text(i + 1).as_str());
                push_str(&mut line, ". ");
                push_str(&mut line, hits[i].reference.as_str());
                push_str(&mut line, "  ");
                push_str(&mut line, hits[i].summary.as_str());
                push_str(&mut line, "\n");
                assert(line@ =~= parts[i as int]);
                push_str(&mut listing, line.as_str());
                assert(listing@ =~= head + crate::text::concat_all(parts.take(i + 1)));
                i = i + 1;
            }
            assert(parts.take(hits@.len() as int) =~= parts);
            Err(
                FindRefusal {
                    listing: Some(listing),
                    message: "provide --pick N to select one result".to_owned(),
                },
            )
        },
    }
}

/// The page of a listing: skip `offset` items, then keep `limit` of them
/// (all of them when `limit` is zero).
pub open spec fn page_of<T>(items: Seq<T>, offset: usize, limit: usize) -> Seq<T> {
    let rest = if offset < items.len() {
        items.skip(offset as int)
    } else {
        Seq::empty()
    };
    if limit == 0 || limit >= rest.len() {
        rest
    } else {
        rest.take(limit as int)
    }
}

/// Cuts a page out of a listing.
pub fn paged<T>(items: Vec<T>, offset: usize, limit: usize) -> (r: Vec<T>)
    ensures
        r@ == page_of(items@, offset, limit),
{
    let ghost all = items@;
    let n = items.len();
    let mut rest = items;
    let mut out: Vec<T> = Vec::new();
    let mut i: usize = 0;
    while rest.len() > 0
        invariant
            i + rest@.len() == n,
            n == all.len(),
            forall|k: int| 0 <= k < rest@.len() ==> #[trigger] rest@[k] == all[i + k],
            out@ == (if i <= offset {
                Seq::empty()
            } else {
                let taken = all.subrange(offset as int, i as int);
                if limit == 0 || limit >= taken.len() {
                    taken
                } else {
                    taken.take(limit as int)
                }
            }),
        decreases rest@.len(),
    {
        let ghost before = rest@;
        let x = rest.remove(0);
        assert(rest@ =~= before.drop_first());
        assert(x == all[i as int]) by {
            assert(before[0] == all[i + 0]);
        }
        assert forall|k: int| 0 <= k < rest@.len() implies #[trigger] rest@[k] == all[(i + 1) + k] by {
            assert(rest@[k] == before[k + 1]);
        }
        let ghost prev = out@;
        if i >= offset && (limit == 0 || out.len() < limit) {
            out.push(x);
            proof {
                let taken = all.subrange(offset as int, i + 1);
                assert(taken =~= all.subrange(offset as int, i as int).push(x));
            }
        }
        proof {
            let taken = all.subrange(offset as int, i + 1);
            if i + 1 > offset {
                if i >= offset {
                    let t0 = all.subrange(offset as int, i as int);
                    assert(taken =~= t0.push(all[i as int]));
                    if !(limit == 0 || prev.len() < limit) {
                        assert(limit != 0 && limit <= t0.len());
                        assert(taken.take(limit as int) =~= t0.take(limit as int));
                    } else if limit != 0 && limit < taken.len() {
                        assert(prev.len() == t0.len());
                        assert(taken.take(limit as int) =~= taken);
                    }
                }
            }
            assert(out@ =~= (if i + 1 <= offset {
                Seq::empty()
            } else {
                if limit == 0 || limit >= taken.len() {
                    taken
                } else {
                    taken.take(limit as int)
                }
            }));
        }
        i = i + 1;
    }
    proof {
        if offset < all.len() {
            assert(all.subrange(offset as int, n as int) =~= all.skip(offset as int));
        }
    }
    out
}

/// What `fact permission revoke` revokes.
pub enum RevokeTarget {
    /// Every participation grant of an identity.
    Participation(String),
    /// One grant.
    Grant(String),
}

/// Decides what `fact permission revoke` revokes: with `--participate`, the
/// identity's participation grants (an identity is then required); else the
/// grant named (which is then required).
pub fn permission_revoke_target(participate: bool, identity: Option<String>, grant: Option<String>) -> (r:
    Result<RevokeTarget, FactError>)
    ensures
        match r {
            Ok(RevokeTarget::Participation(i)) => participate && opt_view(identity) == Some(i@),
            Ok(RevokeTarget::Grant(g)) => !participate && opt_view(grant) == Some(g@),
            Err(e) => if participate {
                identity is None && e@ == Failure::User("--participate revoke requires --identity"@)
            } else {
                grant is None && e@ == Failure::User("permission revoke requires a grant reference"@)
            },
        },
{
    if participate {
        match identity {
            Some(i) => Ok(RevokeTarget::Participation(i)),
            None => Err(FactError::User("--participate revoke requires --identity".to_owned())),
        }
    } else {
        match grant {
            Some(g) => Ok(RevokeTarget::Grant(g)),
            None => Err(FactError::User("permission revoke requires a grant reference".to_owned())),
        }
    }
}

/// The two commands `fact push` runs for the active ledger: export the
/// ledger into a bundle file with `fact sync pull`, then send that bundle to
/// the remote with `fact sync push`.
pub open spec fn personal_push_spec(
    database: Seq<char>,
    ledger: Seq<char>,
    bundle: Seq<char>,
    url: Seq<char>,
    token: Option<Seq<char>>,
) -> (Seq<Seq<char>>, Seq<Seq<char>>) {
    (
        seq!["sync"@, "pull"@, database, ledger, bundle],
        seq!["sync"@, "push"@, database, bundle, "--remote"@, url, "--ledger"@, ledger] + flag_args(
            "--bearer-token"@,
            token,
        ),
    )
}

/// The two commands `fact pull` runs for the active ledger: fetch the
/// remote's objects into a bundle file with `fact sync pull`, then import
/// that bundle with `fact object import`.
pub open spec fn personal_pull_spec(
    database: Seq<char>,
    ledger: Seq<char>,
    bundle: Seq<char>,
    url: Seq<char>,
    token: Option<Seq<char>>,
) -> (Seq<Seq<char>>, Seq<Seq<char>>) {
    (
        seq!["sync"@, "pull"@, database, ledger, bundle, "--remote"@, url] + flag_args(
            "--bearer-token"@,
            token,
        ),
        seq!["object"@, "import"@, database, bundle],
    )
}

fn push_token(args: &mut Vec<String>, token: Option<&str>)
    ensures
        texts(final(args)@) == texts(old(args)@) + flag_args(
            "--bearer-token"@,
            match token {
                Some(t) => Some(t@),
                None => None,
            },
        ),
{
    match token {
        Some(t) => {
            args.push("--bearer-token".to_owned());
            args.push(t.to_owned());
        },
        None => {},
    }
}

/// The commands that push the active ledger to its remote; a read-only
/// ledger is refused.
pub fn personal_push_steps(
    read_only: bool,
    database: &str,
    ledger: &str,
    bundle: &str,
    url: &str,
    token: Option<&str>,
) -> (r: Result<(Vec<String>, Vec<String>), FactError>)
    ensures
        match r {
            Ok((first, second)) => !read_only && (texts(first@), texts(second@))
                == personal_push_spec(
                database@,
                ledger@,
                bundle@,
                url@,
                match token {
                    Some(t) => Some(t@),
                    None => None,
                },
            ),
            Err(e) => read_only && e@ == Failure::User("cannot push from a read-only ledger"@),
        },
{
    if read_only {
        return Err(FactError::User("cannot push from a read-only ledger".to_owned()));
    }
    let first = vec![
        "sync".to_owned(),
        "pull".to_owned(),
        database.to_owned(),
        ledger.to_owned(),
        bundle.to_owned(),
    ];
    let mut second = vec![
        "sync".to_owned(),
        "push".to_owned(),
        database.to_owned(),
        bundle.to_owned(),
        "--remote".to_owned(),
        url.to_owned(),
        "--ledger".to_owned(),
        ledger.to_owned(),
    ];
    let ghost before = texts(second@);
    push_token(&mut second, token);
    proof {
        assert(texts(first@) =~= seq!["sync"@, "pull"@, database@, ledger@, bundle@]);
        assert(before =~= seq![
            "sync"@,
            "push"@,
            database@,
            bundle@,
            "--remote"@,
            url@,
            "--ledger"@,
            ledger@,
        ]);
    }
    Ok((first, second))
}

/// The commands that pull the active ledger's remote into it; a read-only
/// ledger is refused.
pub fn personal_pull_steps(
    read_only: bool,
    database: &str,
    ledger: &str,
    bundle: &str,
    url: &str,
    token: Option<&str>,
) -> (r: Result<(Vec<String>, Vec<String>), FactError>)
    ensures
        match r {
            Ok((first, second)) => !read_only && (texts(first@), texts(second@))
                == personal_pull_spec(
                database@,
                ledger@,
                bundle@,
                url@,
                match token {
                    Some(t) => Some(t@),
                    None => None,
                },
            ),
            Err(e) => read_only && e@ == Failure::User("cannot pull into a read-only ledger"@),
        },
{
    if read_only {
        return Err(FactError::User("cannot pull into a read-only ledger".to_owned()));
    }
    let mut first = vec![
        "sync".to_owned(),
        "pull".to_owned(),
        database.to_owned(),
        ledger.to_owned(),
        bundle.to_owned(),
        "--remote".to_owned(),
        url.to_owned(),
    ];
    let ghost before = texts(first@);
    push_token(&mut first, token);
    let second = vec![
        "object".to_owned(),
        "import".to_owned(),
        database.to_owned(),
        bundle.to_owned(),
    ];
    proof {
        assert(before =~= seq!["sync"@, "pull"@, database@, ledger@, bundle@, "--remote"@, url@]);
        assert(texts(second@) =~= seq!["object"@, "import"@, database@, bundle@]);
    }
    Ok((first, second))
}

/// `--pick n` selects the `n`-th listed result, counted from 1, for every
/// `n` from 1 to the number of results; `0` and any larger number are
/// refused, and a lone result is taken without `--pick`.
pub proof fn law_pick_selects_the_numbered_result(text: Seq<char>, hits: Seq<FindHit>, n: usize)
    ensures
        1 <= n <= hits.len() ==> find_spec(text, hits, Some(n)) == Ok::<
            int,
            (Option<Seq<char>>, Seq<char>),
        >(n - 1),
        (n == 0 || n > hits.len()) ==> find_spec(text, hits, Some(n)) is Err,
        hits.len() == 1 ==> find_spec(text, hits, None) == Ok::<int, (Option<Seq<char>>, Seq<char>)>(
            0,
        ),
{
}

} // verus!
