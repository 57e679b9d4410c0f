//! Bearer tokens for the HTTP server: how long one lasts, and what is shown
//! when one is issued.

use vstd::prelude::*;
use crate::errors::{FactError, Failure};
use crate::ids::{uuid_hyphenated, uuid_text};
use crate::remote::opt_view;
use crate::text::{
    concat, concat_all, decimal, decimal_text, join, join_texts, lemma_concat_all_step, push_str,
    str_eq, texts,
};

verus! {

/// Checking `--expires-days`: when given, it must be positive.
pub fn http_token_expiry_days(expires_days: Option<i64>) -> (r: Result<Option<i64>, FactError>)
    ensures
        match expires_days {
            Some(d) => if d <= 0 {
                r matches Err(e) && e@ == Failure::User(
                    "--expires-days must be greater than zero"@,
                )
            } else {
                r == Ok::<Option<i64>, FactError>(Some(d))
            },
            None => r == Ok::<Option<i64>, FactError>(None),
        },
{
    match expires_days {
        Some(d) => {
            if d <= 0 {
                Err(FactError::User("--expires-days must be greater than zero".to_owned()))
            } else {
                Ok(Some(d))
            }
        },
        None => Ok(None),
    }
}

/// A token the server issued.
#[derive(Debug)]
pub struct IssuedToken {
    /// The token's ID, as the server writes it.
    pub token_id: String,
    pub actor_id: u128,
    pub ledger_id: Option<u128>,
    pub label: Option<String>,
    /// The secret itself.
    pub token: String,
}

/// The lines shown when a token is issued: its ID, actor, ledger and label;
/// then where the credential was written, or the secret itself with a
/// warning when it goes to the terminal.
pub open spec fn issued_lines(
    token_id: Seq<char>,
    actor_id: u128,
    ledger_id: Option<u128>,
    label: Option<Seq<char>>,
    token: Seq<char>,
    output: Option<Seq<char>>,
) -> Seq<Seq<char>> {
    let head = seq![
        "issued token "@ + token_id,
        "actor "@ + uuid_hyphenated(actor_id),
        "ledger "@ + match ledger_id {
            Some(l) => uuid_hyphenated(l),
            None => "-"@,
        },
    ];
    let with_label = match label {
        Some(l) => head.push("label "@ + l),
        None => head,
    };
    match output {
        Some(path) => if path != "-"@ {
            with_label.push("wrote credential "@ + path)
        } else {
            with_label.push(token).push("shown only once; store it now"@)
        },
        None => with_label.push(token).push("shown only once; store it now"@),
    }
}

/// What is shown when a token is issued; `output` is where the credential
/// was written (`-` for standard output).
pub fn issued_http_token_human_output(token: &IssuedToken, output: Option<&str>) -> (s: String)
    ensures
        s@ == join(
            issued_lines(
                token.token_id@,
                token.actor_id,
                token.ledger_id,
                opt_view(token.label),
                token.token@,
                match output {
                    Some(p) => Some(p@),
                    None => None,
                },
            ),
            "\n"@,
        ),
{
    let mut lines: Vec<String> = Vec::new();
    lines.push(concat("issued token ", token.token_id.as_str()));
    lines.push(concat("actor ", uuid_text(token.actor_id).as_str()));
    let ledger = match token.ledger_id {
        Some(l) => uuid_text(l),
        None => "-".to_owned(),
    };
    lines.push(concat("ledger ", ledger.as_str()));
    match &token.label {
        Some(l) => lines.push(concat("label ", l.as_str())),
        None => {},
    }
    let to_file = match output {
        Some(p) => !str_eq(p, "-"),
        None => false,
    };
    if to_file {
        match output {
            Some(p) => lines.push(concat("wrote credential ", p)),
            None => {},
        }
    } else {
        lines.push(token.token.clone());
        lines.push("shown only once; store it now".to_owned());
    }
    proof {
        let want = issued_lines(
            token.token_id@,
            token.actor_id,
            token.ledger_id,
            opt_view(token.label),
            token.token@,
            match output {
                Some(p) => Some(p@),
                None => None,
            },
        );
        assert(texts(lines@) =~= want);
    }
    join_texts(&lines, "\n")
}

/// A stored token as `fact http-token list` shows it; its expiry is the
/// RFC 3339 text of the time.
pub struct TokenRecord {
    pub token_id: String,
    pub actor_id: u128,
    pub ledger_id: Option<u128>,
    pub expires_at: Option<String>,
    pub revoked: bool,
}

/// The line for a stored token.
pub open spec fn token_line(r: TokenRecord) -> Seq<char> {
    r.token_id@ + "  actor "@ + uuid_hyphenated(r.actor_id) + "  ledger "@ + match r.ledger_id {
        Some(l) => uuid_hyphenated(l),
        None => "-"@,
    } + match r.expires_at {
        Some(t) => "  expires "@ + t@,
        None => Seq::empty(),
    } + if r.revoked {
        "  revoked"@
    } else {
        Seq::empty()
    } + "\n"@
}

/// What `fact http-token list` prints: a line a token, or `no tokens`.
pub open spec fn token_list_text(records: Seq<TokenRecord>) -> Seq<char> {
    if records.len() == 0 {
        "no tokens\n"@
    } else {
        concat_all(records.map_values(|r: TokenRecord| token_line(r)))
    }
}

fn token_line_text(r: &TokenRecord) -> (s: String)
    ensures
        s@ == token_line(*r),
{
    let mut s = r.token_id.clone();
    push_str(&mut s, "  actor ");
    push_str(&mut s, uuid_text(r.actor_id).as_str());
    push_str(&mut s, "  ledger ");
    match r.ledger_id {
        Some(l) => push_str(&mut s, uuid_text(l).as_str()),
        None => push_str(&mut s, "-"),
    }
    match &r.expires_at {
        Some(t) => {
            push_str(&mut s, "  expires ");
            push_str(&mut s, t.as_str());
        },
        None => {},
    }
    if r.revoked {
        push_str(&mut s, "  revoked");
    }
    push_str(&mut s, "\n");
    assert(s@ =~= token_line(*r));
    s
}

/// Lists stored tokens.
pub fn token_list_human(records: &Vec<TokenRecord>) -> (s: String)
    ensures
        s@ == token_list_text(records@),
{
    if records.len() == 0 {
        return "no tokens\n".to_owned();
    }
    let ghost parts = records@.map_values(|r: TokenRecord| token_line(r));
    let mut s = String::new();
    let mut i: usize = 0;
    assert(parts.take(0) =~= Seq::<Seq<char>>::empty());
    while i < records.len()
        invariant
            i <= records@.len(),
            parts == records@.map_values(|r: TokenRecord| token_line(r)),
            s@ == concat_all(parts.take(i as int)),
        decreases records@.len() - i,
    {
        proof {
            lemma_concat_all_step(parts, i as int);
        }
        push_str(&mut s, token_line_text(&records[i]).as_str());
        i = i + 1;
    }
    assert(parts.take(records@.len() as int) =~= parts);
    s
}

/// What revoking a token reports.
pub open spec fn revoke_text(revoked: bool, token_id: Seq<char>) -> Seq<char> {
    if revoked {
        "revoked token "@ + token_id
    } else {
        "token not found or already revoked: "@ + token_id
    }
}

/// Reports a revocation.
pub fn revoke_message(revoked: bool, token_id: &str) -> (s: String)
    ensures
        s@ == revoke_text(revoked, token_id@),
{
    if revoked {
        concat("revoked token ", token_id)
    } else {
        concat("token not found or already revoked: ", token_id)
    }
}

/// Reports how many tokens were pruned.
pub fn prune_message(pruned: usize) -> (s: String)
    ensures
        s@ == "pruned "@ + decimal(pruned as nat) + " token(s)"@,
{
    let mut s = concat("pruned ", decimal_text(pruned).as_str());
    push_str(&mut s, " token(s)");
    s
}

} // verus!
