//! What the ledger, identity and sync commands report to a person.
//!
//! Object IDs that the CLI abbreviates appear as short references, handed
//! over as text already shortened.

use vstd::prelude::*;
use crate::book::opt_view;
use crate::json::{Json, JsonValue, get, get_str, member, str_member};
use crate::text::{
    concat, concat_all, decimal, decimal_text, join, join_texts, lemma_concat_all_step, push_str,
    texts,
};

verus! {

pub open spec fn or_text(o: Option<Seq<char>>, fallback: Seq<char>) -> Seq<char> {
    match o {
        Some(s) => s,
        None => fallback,
    }
}

/// A string member of an object member: `v[outer][inner]`.
pub open spec fn nested_str(v: JsonValue, outer: Seq<char>, inner: Seq<char>) -> Option<Seq<char>> {
    match member(v, outer) {
        Some(o) => str_member(o, inner),
        None => None,
    }
}

/// Whether `v[outer][inner]` is `true`.
pub open spec fn nested_true(v: JsonValue, outer: Seq<char>, inner: Seq<char>) -> bool {
    match member(v, outer) {
        Some(o) => member(o, inner) == Some(JsonValue::Bool(true)),
        None => false,
    }
}

/// What `fact as` reports, from the identity value it produced. The ledger
/// is shown with the short reference of its ID when that ID is a UUID
/// (`ledger_ref`).
pub open spec fn as_report(v: JsonValue, ledger_ref: Option<Seq<char>>) -> Seq<char> {
    let actor = or_text(nested_str(v, "actor"@, "display_name"@), "identity"@);
    let actor_display = match nested_str(v, "actor"@, "alias"@) {
        Some(a) => actor + " ("@ + a + ")"@,
        None => actor,
    };
    let ledger_name = or_text(nested_str(v, "ledger"@, "name"@), "ledger"@);
    let ledger = match ledger_ref {
        Some(r) => ledger_name + " ("@ + r + ")"@,
        None => ledger_name,
    };
    if member(v, "report"@) == Some(JsonValue::Bool(true)) {
        if member(v, "actor"@) == Some(JsonValue::Null) {
            "no current signer for ledger "@ + ledger + if nested_true(v, "ledger"@, "read_only"@) {
                " (read-only)"@
            } else {
                Seq::empty()
            }
        } else {
            "current signer for ledger "@ + ledger + ": "@ + actor_display
        }
    } else if member(v, "self"@) == Some(JsonValue::Bool(true)) {
        "named current identity as "@ + actor
    } else {
        "using "@ + actor + " for ledger "@ + ledger
    }
}

fn nested_text(v: &Json, outer: &str, inner: &str) -> (r: Option<String>)
    ensures
        opt_view(r) == nested_str(v@, outer@, inner@),
{
    match get(v, outer) {
        Some(o) => get_str(o, inner),
        None => None,
    }
}

fn is_true(v: &Json, key: &str) -> (r: bool)
    ensures
        r == (member(v@, key@) == Some(JsonValue::Bool(true))),
{
    match get(v, key) {
        Some(b) => match b {
            Json::Bool(t) => *t,
            _ => false,
        },
        None => false,
    }
}

fn is_null(v: &Json, key: &str) -> (r: bool)
    ensures
        r == (member(v@, key@) == Some(JsonValue::Null)),
{
    match get(v, key) {
        Some(b) => match b {
            Json::Null => true,
            _ => false,
        },
        None => false,
    }
}

/// Reports what `fact as` did.
pub fn as_human_message(value: &Json, ledger_ref: Option<&str>) -> (s: String)
    ensures
        s@ == as_report(
            value@,
            match ledger_ref {
                Some(r) => Some(r@),
                None => None,
            },
        ),
{
    let actor = match nested_text(value, "actor", "display_name") {
        Some(a) => a,
        None => "identity".to_owned(),
    };
    let actor_display = match nested_text(value, "actor", "alias") {
        Some(a) => {
            let mut d = actor.clone();
            push_str(&mut d, " (");
            push_str(&mut d, a.as_str());
            push_str(&mut d, ")");
            d
        },
        None => actor.clone(),
    };
    let ledger_name = match nested_text(value, "ledger", "name") {
        Some(n) => n,
        None => "ledger".to_owned(),
    };
    let ledger = match ledger_ref {
        Some(r) => {
            let mut l = ledger_name.clone();
            push_str(&mut l, " (");
            push_str(&mut l, r);
            push_str(&mut l, ")");
            l
        },
        None => ledger_name,
    };
    let read_only = match get(value, "ledger") {
        Some(l) => is_true(l, "read_only"),
        None => false,
    };
    let s = if is_true(value, "report") {
        if is_null(value, "actor") {
            let mut s = concat("no current signer for ledger ", ledger.as_str());
            if read_only {
                push_str(&mut s, " (read-only)");
            }
            s
        } else {
            let mut s = concat("current signer for ledger ", ledger.as_str());
            push_str(&mut s, ": ");
            push_str(&mut s, actor_display.as_str());
            s
        }
    } else if is_true(value, "self") {
        concat("named current identity as ", actor.as_str())
    } else {
        let mut s = concat("using ", actor.as_str());
        push_str(&mut s, " for ledger ");
        push_str(&mut s, ledger.as_str());
        s
    };
    assert(s@ =~= as_report(
        value@,
        match ledger_ref {
            Some(r) => Some(r@),
            None => None,
        },
    ));
    s
}

/// The lines `fact here` reports: whether the environment was made or
/// found, the ledger it initialized, and a note when `FACT_HOME` overrides
/// it.
pub open spec fn here_lines(
    created: bool,
    root: Seq<char>,
    ledger: Option<JsonValue>,
    fact_home_set: bool,
) -> Seq<Seq<char>> {
    seq![
        if created {
            "initialized Fact environment at "@ + root
        } else {
            "Fact environment already exists at "@ + root
        },
    ] + match ledger {
        Some(l) => seq![
            "initialized ledger "@ + or_text(str_member(l, "name"@), "default"@) + " ("@ + or_text(
                str_member(l, "ledger_id"@),
                "-"@,
            ) + ")"@,
        ],
        None => Seq::empty(),
    } + if fact_home_set {
        seq!["FACT_HOME is set; normal commands will keep using FACT_HOME until it is unset"@]
    } else {
        Seq::empty()
    }
}

/// Reports what `fact here` did.
pub fn here_human_message(created: bool, root: &str, ledger: Option<&Json>, fact_home_set: bool) -> (s:
    String)
    ensures
        s@ == join(
            here_lines(
                created,
                root@,
                match ledger {
                    Some(l) => Some(l@),
                    None => None,
                },
                fact_home_set,
            ),
            "\n"@,
        ),
{
    let mut lines: Vec<String> = Vec::new();
    if created {
        lines.push(concat("initialized Fact environment at ", root));
    } else {
        lines.push(concat("Fact environment already exists at ", root));
    }
    match ledger {
        Some(l) => {
            let mut line = concat(
                "initialized ledger ",
                match get_str(l, "name") {
                    Some(n) => n,
                    None => "default".to_owned(),
                }.as_str(),
            );
            push_str(&mut line, " (");
            push_str(
                &mut line,
                match get_str(l, "ledger_id") {
                    Some(n) => n,
                    None => "-".to_owned(),
                }.as_str(),
            );
            push_str(&mut line, ")");
            lines.push(line);
        },
        None => {},
    }
    if fact_home_set {
        lines.push(
            "FACT_HOME is set; normal commands will keep using FACT_HOME until it is unset".to_owned(),
        );
    }
    assert(texts(lines@) =~= here_lines(
        created,
        root@,
        match ledger {
            Some(l) => Some(l@),
            None => None,
        },
        fact_home_set,
    ));
    join_texts(&lines, "\n")
}

/// Reports `fact new`: a ledger made, or one that was there.
pub fn new_ledger_message(created: bool, name: &str, ledger_id: &str) -> (s: String)
    ensures
        s@ == if created {
            "created ledger "@ + name@ + " ("@ + ledger_id@ + ")"@
        } else {
            "ledger "@ + name@ + " already exists ("@ + ledger_id@ + ")"@
        },
{
    let mut s = if created {
        concat("created ledger ", name)
    } else {
        concat("ledger ", name)
    };
    if created {
        push_str(&mut s, " (");
    } else {
        push_str(&mut s, " already exists (");
    }
    push_str(&mut s, ledger_id);
    push_str(&mut s, ")");
    s
}

/// Whether a clone came from a descriptor that carries a live credential.
pub open spec fn descriptor_credential(from_descriptor: bool, has_token: bool) -> bool {
    from_descriptor && has_token
}

/// What `fact clone` reports: a warning about a credential left in the
/// descriptor file comes first; else the kind of clone.
pub open spec fn clone_report(
    from_descriptor: bool,
    has_token: bool,
    read_only: bool,
    name: Seq<char>,
    actor_id: Seq<char>,
) -> Seq<char> {
    if descriptor_credential(from_descriptor, has_token) {
        "cloned "@ + (if read_only {
            "read-only"@
        } else {
            "writable"@
        }) + " ledger "@ + name + "; descriptor file still contains a live credential"@
    } else if read_only {
        "cloned read-only ledger "@ + name
    } else {
        "cloned writable ledger "@ + name + " as "@ + actor_id
    }
}

/// Reports a clone.
pub fn clone_message(from_descriptor: bool, has_token: bool, read_only: bool, name: &str, actor_id: &str) -> (s:
    String)
    ensures
        s@ == clone_report(from_descriptor, has_token, read_only, name@, actor_id@),
{
    if from_descriptor && has_token {
        let mut s = concat("cloned ", if read_only { "read-only" } else { "writable" });
        push_str(&mut s, " ledger ");
        push_str(&mut s, name);
        push_str(&mut s, "; descriptor file still contains a live credential");
        s
    } else if read_only {
        concat("cloned read-only ledger ", name)
    } else {
        let mut s = concat("cloned writable ledger ", name);
        push_str(&mut s, " as ");
        push_str(&mut s, actor_id);
        s
    }
}

/// Reports `fact remote from`, warning when the descriptor carried a token.
pub fn remote_from_message(name: &str, contains_credential: bool) -> (s: String)
    ensures
        s@ == "configured remote "@ + name@ + if contains_credential {
            "; descriptor file still contains a live credential"@
        } else {
            Seq::empty()
        },
{
    let mut s = concat("configured remote ", name);
    if contains_credential {
        push_str(&mut s, "; descriptor file still contains a live credential");
    }
    s
}

/// What `fact revise` reports.
pub open spec fn revise_report(
    revision_ref: Seq<char>,
    previous_effective: Option<bool>,
    pending: Option<usize>,
    proposition_ref: Seq<char>,
) -> Seq<char> {
    "Revision created: "@ + revision_ref + "\n"@ + (if previous_effective == Some(true) {
        "Previous revision remains effective."@
    } else {
        "No revision is currently effective."@
    }) + "\nNew revision is pending acceptance from "@ + decimal(
        match pending {
            Some(n) => n as nat,
            None => 0,
        },
    ) + " participant(s).\n\nNext:\n  fact accept "@ + proposition_ref + "\n  fact reject "@
        + proposition_ref
}

/// Reports a revision.
pub fn revise_message(
    revision_ref: &str,
    previous_effective: Option<bool>,
    pending: Option<usize>,
    proposition_ref: &str,
) -> (s: String)
    ensures
        s@ == revise_report(revision_ref@, previous_effective, pending, proposition_ref@),
{
    let mut s = concat("Revision created: ", revision_ref);
    push_str(&mut s, "\n");
    if previous_effective == Some(true) {
        push_str(&mut s, "Previous revision remains effective.");
    } else {
        push_str(&mut s, "No revision is currently effective.");
    }
    push_str(&mut s, "\nNew revision is pending acceptance from ");
    push_str(
        &mut s,
        decimal_text(
            match pending {
                Some(n) => n,
                None => 0,
            },
        ).as_str(),
    );
    push_str(&mut s, " participant(s).\n\nNext:\n  fact accept ");
    push_str(&mut s, proposition_ref);
    push_str(&mut s, "\n  fact reject ");
    push_str(&mut s, proposition_ref);
    assert(s@ =~= revise_report(revision_ref@, previous_effective, pending, proposition_ref@));
    s
}

/// Whether a ledger's signing key material is at hand: only a writable
/// ledger with a signer can have it, when its seed file is there.
pub open spec fn key_material(read_only: bool, has_actor: bool, seed_is_file: bool) -> bool {
    !read_only && has_actor && seed_is_file
}

/// Whether `fact status` warns about missing key material: a writable
/// ledger with a signer but no seed file.
pub open spec fn missing_key(read_only: bool, has_actor: bool, seed_is_file: bool) -> bool {
    !read_only && has_actor && !key_material(read_only, has_actor, seed_is_file)
}

/// The key-material flags of `fact status`: whether the key is at hand, and
/// whether to warn that it is missing.
pub fn status_key_flags(read_only: bool, has_actor: bool, seed_is_file: bool) -> (r: (bool, bool))
    ensures
        r == (key_material(read_only, has_actor, seed_is_file), missing_key(read_only, has_actor, seed_is_file)),
{
    let local = !read_only && has_actor && seed_is_file;
    (local, !read_only && has_actor && !local)
}

/// What `fact status` reports.
pub open spec fn status_report(
    name: Seq<char>,
    ledger_ref: Seq<char>,
    pending: usize,
    remotes: usize,
    persona: Option<Seq<char>>,
    missing: bool,
) -> Seq<char> {
    name + "  "@ + ledger_ref + "  "@ + decimal(pending as nat) + " pending action(s), "@ + decimal(
        remotes as nat,
    ) + " remote(s)"@ + match persona {
        Some(p) => "  persona "@ + p,
        None => Seq::empty(),
    } + if missing {
        "\nwarning: local private key material is missing; writes will fail until the identity key is restored or rotated"@
    } else {
        Seq::empty()
    }
}

/// Reports `fact status`.
pub fn status_message(
    name: &str,
    ledger_ref: &str,
    pending: usize,
    remotes: usize,
    persona: &Option<String>,
    missing: bool,
) -> (s: String)
    ensures
        s@ == status_report(name@, ledger_ref@, pending, remotes, opt_view(*persona), missing),
{
    let mut s = concat(name, "  ");
    push_str(&mut s, ledger_ref);
    push_str(&mut s, "  ");
    push_str(&mut s, decimal_text(pending).as_str());
    push_str(&mut s, " pending action(s), ");
    push_str(&mut s, decimal_text(remotes).as_str());
    push_str(&mut s, " remote(s)");
    match persona {
        Some(p) => {
            push_str(&mut s, "  persona ");
            push_str(&mut s, p.as_str());
        },
        None => {},
    }
    if missing {
        push_str(
            &mut s,
            "\nwarning: local private key material is missing; writes will fail until the identity key is restored or rotated",
        );
    }
    assert(s@ =~= status_report(name@, ledger_ref@, pending, remotes, opt_view(*persona), missing));
    s
}

/// An entry of a ledger's history.
pub struct HistoryItem {
    pub reference: String,
    pub created_at: String,
    pub object_type: String,
    pub actor_display: Option<String>,
    pub actor_id: Option<u128>,
    pub description: String,
}

/// Who a history entry is by: the actor's display name, else its UUID,
/// else `-`.
pub open spec fn history_actor(h: HistoryItem) -> Seq<char> {
    match h.actor_display {
        Some(d) => d@,
        None => match h.actor_id {
            Some(a) => crate::ids::uuid_hyphenated(a),
            None => "-"@,
        },
    }
}

pub open spec fn history_item_line(h: HistoryItem) -> Seq<char> {
    h.reference@ + "  "@ + h.created_at@ + "  "@ + h.object_type@ + "  "@ + history_actor(h) + "  "@
        + h.description@ + "\n"@
}

/// What `fact history` prints.
pub open spec fn history_report(items: Seq<HistoryItem>) -> Seq<char> {
    concat_all(items.map_values(|h: HistoryItem| history_item_line(h)))
}

/// Lists a ledger's history, a line an entry.
pub fn history_human(items: &Vec<HistoryItem>) -> (s: String)
    ensures
        s@ == history_report(items@),
{
    let ghost parts = items@.map_values(|h: HistoryItem| history_item_line(h));
    let mut s = String::new();
    let mut i: usize = 0;
    assert(parts.take(0) =~= Seq::<Seq<char>>::empty());
    while i < items.len()
        invariant
            i <= items@.len(),
            parts == items@.map_values(|h: HistoryItem| history_item_line(h)),
            s@ == concat_all(parts.take(i as int)),
        decreases items@.len() - i,
    {
        proof {
            lemma_concat_all_step(parts, i as int);
        }
        let h = &items[i];
        let mut line = h.reference.clone();
        push_str(&mut line, "  ");
        push_str(&mut line, h.created_at.as_str());
        push_str(&mut line, "  ");
        push_str(&mut line, h.object_type.as_str());
        push_str(&mut line, "  ");
        match &h.actor_display {
            Some(d) => push_str(&mut line, d.as_str()),
            None => match h.actor_id {
                Some(a) => push_str(&mut line, crate::ids::uuid_text(a).as_str()),
                None => push_str(&mut line, "-"),
            },
        }
        push_str(&mut line, "  ");
        push_str(&mut line, h.description.as_str());
        push_str(&mut line, "\n");
        assert(line@ =~= history_item_line(*h));
        push_str(&mut s, line.as_str());
        i = i + 1;
    }
    assert(parts.take(items@.len() as int) =~= parts);
    s
}

/// How many history entries `fact history` asks for: the limit given, or a
/// hundred for the whole ledger.
pub fn history_limit(limit: Option<usize>, has_reference: bool) -> (r: Option<usize>)
    ensures
        r == match limit {
            Some(l) => Some(l),
            None => if has_reference {
                None
            } else {
                Some(100usize)
            },
        },
{
    match limit {
        Some(l) => Some(l),
        None => if has_reference {
            None
        } else {
            Some(100)
        },
    }
}

/// What adding a directory entry reports; with a token, its ID and the
/// secret follow.
pub open spec fn directory_add_report(
    display_name: Seq<char>,
    actor_ref: Seq<char>,
    token: Option<(Seq<char>, Seq<char>)>,
) -> Seq<char> {
    "added "@ + display_name + " as "@ + actor_ref + match token {
        Some((id, secret)) => "\nissued token "@ + id + "\n"@ + secret,
        None => Seq::empty(),
    }
}

/// Reports a directory entry added, with the token issued for it.
pub fn directory_add_message(display_name: &str, actor_ref: &str, token: Option<(&str, &str)>) -> (s:
    String)
    ensures
        s@ == directory_add_report(
            display_name@,
            actor_ref@,
            match token {
                Some((i, t)) => Some((i@, t@)),
                None => None,
            },
        ),
{
    let mut s = concat("added ", display_name);
    push_str(&mut s, " as ");
    push_str(&mut s, actor_ref);
    match token {
        Some((id, secret)) => {
            push_str(&mut s, "\nissued token ");
            push_str(&mut s, id);
            push_str(&mut s, "\n");
            push_str(&mut s, secret);
        },
        None => {},
    }
    assert(s@ =~= directory_add_report(
        display_name@,
        actor_ref@,
        match token {
            Some((i, t)) => Some((i@, t@)),
            None => None,
        },
    ));
    s
}

/// Reports bytes that `fact object validate` accepted.
pub fn object_valid_message(signed: bool, object_type: &str, canonical_bytes: usize) -> (s: String)
    ensures
        s@ == "valid "@ + (if signed {
            "signed"@
        } else {
            "canonical"@
        }) + " "@ + object_type@ + " object bytes ("@ + decimal(canonical_bytes as nat) + ")"@,
{
    let mut s = concat("valid ", if signed { "signed" } else { "canonical" });
    push_str(&mut s, " ");
    push_str(&mut s, object_type);
    push_str(&mut s, " object bytes (");
    push_str(&mut s, decimal_text(canonical_bytes).as_str());
    push_str(&mut s, ")");
    s
}

/// The reason recorded for a withdrawal or an archival: the one given, or
/// the standard one.
pub fn lifecycle_reason(reason: Option<String>) -> (r: String)
    ensures
        r@ == or_text(opt_view(reason), "user requested lifecycle change"@),
{
    match reason {
        Some(x) => x,
        None => "user requested lifecycle change".to_owned(),
    }
}

/// The reason recorded when an invitation is rejected: the one given, or
/// the standard one.
pub fn invitation_reject_reason(reason: Option<String>) -> (r: String)
    ensures
        r@ == or_text(opt_view(reason), "rejected from fact invitations"@),
{
    match reason {
        Some(x) => x,
        None => "rejected from fact invitations".to_owned(),
    }
}

} // verus!
