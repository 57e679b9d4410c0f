//! How identity material is shown: the review of an actor request, the
//! result of an identity import, and a directory entry.
//!
//! Object IDs that the CLI abbreviates appear as short references, held as
//! text already shortened; full IDs are UUIDs held as 128-bit integers.

use vstd::prelude::*;
use crate::actor_exchange::{
    ActorRequest, claims_json, claims_to_json, opt_text_json, opt_text_to_json, texts_json, texts_to_json,
};
use crate::book::opt_view;
use crate::bundles::ActorBundleIdentity;
use crate::json::{Json, JsonValue, lemma_object_view, member_views};
use crate::capabilities::{capability_list_text, format_capability_list};
use crate::display::{claims_text, format_actor_claims};
use crate::ids::{uuid_hyphenated, uuid_text};
use crate::text::{concat, decimal, decimal_text, join, join_texts, push_str, texts};

verus! {

/// An actor request under review.
pub struct ActorRequestReview {
    pub actor_ref: String,
    pub fingerprint: String,
    pub request: ActorRequest,
    pub filename_mismatch: Option<String>,
}

/// The lines of an actor request review.
pub open spec fn review_lines(r: ActorRequestReview) -> Seq<Seq<char>> {
    seq![
        "actor      "@ + r.actor_ref@,
        "claims     "@ + claims_text(r.request.claims@),
        "requests   "@ + capability_list_text(texts(r.request.requests@)),
        "key        "@ + r.fingerprint@,
    ] + match r.filename_mismatch {
        Some(m) => seq!["warning    "@ + m@],
        None => Seq::empty(),
    }
}

/// Shows an actor request under review, one field a line.
pub fn format_actor_request_review(review: &ActorRequestReview) -> (s: String)
    ensures
        s@ == join(review_lines(*review), "\n"@),
{
    let mut lines: Vec<String> = Vec::new();
    lines.push(concat("actor      ", review.actor_ref.as_str()));
    lines.push(concat("claims     ", format_actor_claims(&review.request.claims).as_str()));
    lines.push(concat("requests   ", format_capability_list(&review.request.requests).as_str()));
    lines.push(concat("key        ", review.fingerprint.as_str()));
    match &review.filename_mismatch {
        Some(m) => lines.push(concat("warning    ", m.as_str())),
        None => {},
    }
    assert(texts(lines@) =~= review_lines(*review));
    join_texts(&lines, "\n")
}

/// The JSON of an actor request review: the identity the request's bundle
/// gives the actor, the claims and requested capabilities, and the warning
/// about the file name, if any.
pub open spec fn review_json_spec(
    r: ActorRequestReview,
    identity: ActorBundleIdentity,
    key_ref: Seq<char>,
) -> JsonValue {
    JsonValue::Object(
        seq![
            ("actor_id"@, JsonValue::Str(uuid_hyphenated(identity.actor_id))),
            ("actor_ref"@, JsonValue::Str(r.actor_ref@)),
            ("key_id"@, JsonValue::Str(uuid_hyphenated(identity.key_id))),
            ("key_ref"@, JsonValue::Str(key_ref)),
            ("fingerprint"@, JsonValue::Str(identity.fingerprint@)),
            ("claims"@, claims_json(r.request.claims@)),
            ("requests"@, texts_json(texts(r.request.requests@))),
            ("filename_mismatch"@, opt_text_json(opt_view(r.filename_mismatch))),
        ],
    )
}

/// The JSON document `fact actor review --json` prints; `key_ref` is the
/// short reference of the identity's key.
pub fn actor_request_review_json(
    review: &ActorRequestReview,
    identity: &ActorBundleIdentity,
    key_ref: &str,
) -> (j: Json)
    ensures
        j@ == review_json_spec(*review, *identity, key_ref@),
{
    let members = vec![
        ("actor_id".to_owned(), Json::Str(uuid_text(identity.actor_id))),
        ("actor_ref".to_owned(), Json::Str(review.actor_ref.clone())),
        ("key_id".to_owned(), Json::Str(uuid_text(identity.key_id))),
        ("key_ref".to_owned(), Json::Str(key_ref.to_owned())),
        ("fingerprint".to_owned(), Json::Str(identity.fingerprint.clone())),
        ("claims".to_owned(), claims_to_json(&review.request.claims)),
        ("requests".to_owned(), texts_to_json(&review.request.requests)),
        ("filename_mismatch".to_owned(), opt_text_to_json(&review.filename_mismatch)),
    ];
    proof {
        lemma_object_view(members);
        assert(member_views(members@) =~= match review_json_spec(*review, *identity, key_ref@) {
            JsonValue::Object(m) => m,
            _ => Seq::empty(),
        });
    }
    Json::Object(members)
}

/// An actor whose identity was imported.
pub struct ImportedActor {
    pub actor_ref: String,
    pub display_name: Option<String>,
    pub already_present: bool,
}

/// What an identity import did.
pub struct ImportIdentityResult {
    pub imported: usize,
    pub actors: Vec<ImportedActor>,
}

/// What an import of directory events did.
pub struct ImportDirectoryResult {
    pub imported: usize,
    pub skipped: usize,
    pub skipped_unresolved: usize,
}

/// The line for an imported actor: its reference (with its name), and
/// whether it was already known.
pub open spec fn imported_actor_line(a: ImportedActor) -> Seq<char> {
    "  "@ + match a.display_name {
        Some(n) => a.actor_ref@ + " ("@ + n@ + ")"@,
        None => a.actor_ref@,
    } + "  "@ + if a.already_present {
        "already present"@
    } else {
        "newly imported"@
    }
}

/// The lines of an import report.
pub open spec fn import_lines(
    result: ImportIdentityResult,
    directory: Option<ImportDirectoryResult>,
) -> Seq<Seq<char>> {
    seq![
        "imported "@ + decimal(result.imported as nat)
            + " identity object(s); recognition and authority remain separate"@,
    ] + match directory {
        Some(d) => seq![
            "imported "@ + decimal(d.imported as nat) + " directory event(s), skipped "@ + decimal(
                d.skipped as nat,
            ) + " ("@ + decimal(d.skipped_unresolved as nat) + " unresolved)"@,
        ],
        None => Seq::empty(),
    } + if result.actors@.len() > 0 {
        seq!["actors:"@] + result.actors@.map_values(|a: ImportedActor| imported_actor_line(a))
    } else {
        Seq::empty()
    }
}

fn imported_actor_text(a: &ImportedActor) -> (s: String)
    ensures
        s@ == imported_actor_line(*a),
{
    let mut s = concat("  ", a.actor_ref.as_str());
    match &a.display_name {
        Some(n) => {
            push_str(&mut s, " (");
            push_str(&mut s, n.as_str());
            push_str(&mut s, ")");
        },
        None => {},
    }
    push_str(&mut s, "  ");
    if a.already_present {
        push_str(&mut s, "already present");
    } else {
        push_str(&mut s, "newly imported");
    }
    assert(s@ =~= imported_actor_line(*a));
    s
}

/// Reports an identity import, and the directory import made with it.
pub fn format_identity_import_result(
    result: &ImportIdentityResult,
    directory: Option<&ImportDirectoryResult>,
) -> (s: String)
    ensures
        s@ == join(
            import_lines(
                *result,
                match directory {
                    Some(d) => Some(*d),
                    None => None,
                },
            ),
            "\n"@,
        ),
{
    let ghost dir = match directory {
        Some(d) => Some(*d),
        None => None,
    };
    let mut lines: Vec<String> = Vec::new();
    let mut first = "imported ".to_owned();
    push_str(&mut first, decimal_text(result.imported).as_str());
    push_str(&mut first, " identity object(s); recognition and authority remain separate");
    lines.push(first);
    match directory {
        Some(d) => {
            let mut line = "imported ".to_owned();
            push_str(&mut line, decimal_text(d.imported).as_str());
            push_str(&mut line, " directory event(s), skipped ");
            push_str(&mut line, decimal_text(d.skipped).as_str());
            push_str(&mut line, " (");
            push_str(&mut line, decimal_text(d.skipped_unresolved).as_str());
            push_str(&mut line, " unresolved)");
            lines.push(line);
        },
        None => {},
    }
    let ghost head = texts(lines@);
    if result.actors.len() > 0 {
        lines.push("actors:".to_owned());
        let ghost with_title = texts(lines@);
        let ghost actor_lines = result.actors@.map_values(|a: ImportedActor| imported_actor_line(a));
        let mut i: usize = 0;
        assert(with_title =~= with_title + actor_lines.take(0));
        while i < result.actors.len()
            invariant
                i <= result.actors@.len(),
                actor_lines == result.actors@.map_values(|a: ImportedActor| imported_actor_line(a)),
                texts(lines@) == with_title + actor_lines.take(i as int),
            decreases result.actors@.len() - i,
        {
            let line = imported_actor_text(&result.actors[i]);
            let ghost before = lines@;
            lines.push(line);
            assert(texts(lines@) =~= texts(before).push(actor_lines[i as int]));
            assert(actor_lines.take(i + 1) =~= actor_lines.take(i as int).push(actor_lines[i as int]));
            assert(texts(lines@) =~= with_title + actor_lines.take(i + 1));
            i = i + 1;
        }
        assert(actor_lines.take(result.actors@.len() as int) =~= actor_lines);
    }
    assert(texts(lines@) =~= import_lines(*result, dir));
    join_texts(&lines, "\n")
}

/// A directory entry: an actor as the ledger's directory knows it.
pub struct DirectoryEntry {
    pub actor_ref: String,
    pub actor_id: u128,
    pub display_name: String,
    pub alias: Option<String>,
    pub actor_type: Option<String>,
    pub role: Option<String>,
    pub source: Option<String>,
    pub verified_by: Option<String>,
    pub key_ref: Option<String>,
    pub key_id: Option<u128>,
}

/// An optional field, or `(none)`.
pub open spec fn or_none(o: Option<String>) -> Seq<char> {
    match o {
        Some(s) => s@,
        None => "(none)"@,
    }
}

/// How a directory entry is shown: titled by its alias (else its
/// reference), then its fields.
pub open spec fn directory_entry_text(e: DirectoryEntry) -> Seq<char> {
    "Directory entry: "@ + match e.alias {
        Some(a) => a@,
        None => e.actor_ref@,
    } + "\n\nDisplay name:  "@ + e.display_name@ + "\nAlias:         "@ + or_none(e.alias)
        + "\nType:          "@ + or_none(e.actor_type) + "\nRole:          "@ + or_none(e.role)
        + "\nSource:        "@ + or_none(e.source) + "\nVerified by:   "@ + or_none(e.verified_by)
        + "\n\nActor:         "@ + e.actor_ref@ + "\nActor ID:      "@ + uuid_hyphenated(e.actor_id)
        + "\nKey:           "@ + or_none(e.key_ref) + "\nKey ID:        "@ + match e.key_id {
        Some(k) => uuid_hyphenated(k),
        None => "(none)"@,
    } + "\n"@
}

fn or_none_text(o: &Option<String>) -> (s: String)
    ensures
        s@ == or_none(*o),
{
    match o {
        Some(s) => s.clone(),
        None => "(none)".to_owned(),
    }
}

/// Shows a directory entry.
pub fn format_directory_entry_show(entry: &DirectoryEntry) -> (s: String)
    ensures
        s@ == directory_entry_text(*entry),
{
    let mut s = "Directory entry: ".to_owned();
    match &entry.alias {
        Some(a) => push_str(&mut s, a.as_str()),
        None => push_str(&mut s, entry.actor_ref.as_str()),
    }
    push_str(&mut s, "\n\nDisplay name:  ");
    push_str(&mut s, entry.display_name.as_str());
    push_str(&mut s, "\nAlias:         ");
    push_str(&mut s, or_none_text(&entry.alias).as_str());
    push_str(&mut s, "\nType:          ");
    push_str(&mut s, or_none_text(&entry.actor_type).as_str());
    push_str(&mut s, "\nRole:          ");
    push_str(&mut s, or_none_text(&entry.role).as_str());
    push_str(&mut s, "\nSource:        ");
    push_str(&mut s, or_none_text(&entry.source).as_str());
    push_str(&mut s, "\nVerified by:   ");
    push_str(&mut s, or_none_text(&entry.verified_by).as_str());
    push_str(&mut s, "\n\nActor:         ");
    push_str(&mut s, entry.actor_ref.as_str());
    push_str(&mut s, "\nActor ID:      ");
    push_str(&mut s, uuid_text(entry.actor_id).as_str());
    push_str(&mut s, "\nKey:           ");
    push_str(&mut s, or_none_text(&entry.key_ref).as_str());
    push_str(&mut s, "\nKey ID:        ");
    match entry.key_id {
        Some(k) => push_str(&mut s, uuid_text(k).as_str()),
        None => push_str(&mut s, "(none)"),
    }
    push_str(&mut s, "\n");
    assert(s@ =~= directory_entry_text(*entry));
    s
}

} // verus!
