//! The messages printed after a decision on a proposition (`fact accept`,
//! `fact reject`) and after a conflict resolution (`fact resolve`).
//!
//! Object IDs appear as short references; the outcomes hold them as text,
//! already shortened.

use vstd::prelude::*;
use crate::text::{decimal, decimal_text, push_str};

verus! {

/// The outcome of accepting or rejecting a proposition.
pub struct DecisionOutcome {
    pub proposition_ref: String,
    pub revision_ref: String,
    pub decision_ref: Option<String>,
    pub settlement_ref: Option<String>,
    pub status: String,
    pub pending_participant_count: Option<usize>,
    pub summary: String,
}

/// The outcome of resolving a revision conflict.
pub struct ResolveOutcome {
    pub revision_ref: String,
    pub result_revision_ref: Option<String>,
    pub reconciliation_ref: String,
    pub pending_participant_count: usize,
}

/// What a decision prints: while the proposition is unsettled, the recorded
/// decision, status and pending participants; once settled, its effective
/// revision.
pub open spec fn decision_text(verb: Seq<char>, o: DecisionOutcome) -> Seq<char> {
    if o.settlement_ref is None {
        verb + " proposition "@ + o.proposition_ref@ + "\nDecision recorded: "@ + match o.decision_ref {
            Some(d) => d@,
            None => "none"@,
        } + "\nCurrent status: "@ + o.status@ + "\nPending participant(s): "@ + decimal(
            match o.pending_participant_count {
                Some(n) => n as nat,
                None => 0,
            },
        ) + "\nCurrent summary: "@ + o.summary@
    } else {
        verb + " proposition "@ + o.proposition_ref@ + "\nEffective revision: "@ + o.revision_ref@
            + "\nCurrent summary: "@ + o.summary@
    }
}

/// The message after accepting or rejecting a proposition.
pub fn decision_human_message(verb: &str, outcome: &DecisionOutcome) -> (r: String)
    ensures
        r@ == decision_text(verb@, *outcome),
{
    let mut r = verb.to_owned();
    push_str(&mut r, " proposition ");
    push_str(&mut r, outcome.proposition_ref.as_str());
    if outcome.settlement_ref.is_none() {
        let pending: usize = match outcome.pending_participant_count {
            Some(n) => n,
            None => 0,
        };
        push_str(&mut r, "\nDecision recorded: ");
        match &outcome.decision_ref {
            Some(d) => push_str(&mut r, d.as_str()),
            None => push_str(&mut r, "none"),
        }
        push_str(&mut r, "\nCurrent status: ");
        push_str(&mut r, outcome.status.as_str());
        push_str(&mut r, "\nPending participant(s): ");
        push_str(&mut r, decimal_text(pending).as_str());
        push_str(&mut r, "\nCurrent summary: ");
        push_str(&mut r, outcome.summary.as_str());
    } else {
        push_str(&mut r, "\nEffective revision: ");
        push_str(&mut r, outcome.revision_ref.as_str());
        push_str(&mut r, "\nCurrent summary: ");
        push_str(&mut r, outcome.summary.as_str());
    }
    proof {
        assert(r@ =~= decision_text(verb@, *outcome));
    }
    r
}

/// What a resolution prints: the revisions it created, who must still
/// accept, and the commands to accept or reject it.
pub open spec fn resolve_text(o: ResolveOutcome) -> Seq<char> {
    let count = decimal(o.pending_participant_count as nat);
    let rec = o.reconciliation_ref@;
    match o.result_revision_ref {
        Some(res) => "Resolution revision created: "@ + o.revision_ref@
            + "\nResult revision created: "@ + res@
            + "\nPrevious conflicting revisions remain in history.\nResult and reconciliation are pending acceptance from "@
            + count + " participant(s).\n\nNext:\n  fact accept "@ + rec + "\n  fact accept "@ + res@
            + "\n  fact reject "@ + rec + "\n  fact reject "@ + res@,
        None => "Resolution revision created: "@ + o.revision_ref@
            + "\nPrevious conflicting revisions remain in history.\nNew revision is pending acceptance from "@
            + count + " participant(s).\n\nNext:\n  fact accept "@ + rec + "\n  fact reject "@ + rec,
    }
}

/// The message after resolving a revision conflict.
pub fn resolve_human_message(outcome: &ResolveOutcome) -> (r: String)
    ensures
        r@ == resolve_text(*outcome),
{
    let count = decimal_text(outcome.pending_participant_count);
    let rec = outcome.reconciliation_ref.as_str();
    let mut r = "Resolution revision created: ".to_owned();
    push_str(&mut r, outcome.revision_ref.as_str());
    match &outcome.result_revision_ref {
        Some(res) => {
            push_str(&mut r, "\nResult revision created: ");
            push_str(&mut r, res.as_str());
            push_str(
                &mut r,
                "\nPrevious conflicting revisions remain in history.\nResult and reconciliation are pending acceptance from ",
            );
            push_str(&mut r, count.as_str());
            push_str(&mut r, " participant(s).\n\nNext:\n  fact accept ");
            push_str(&mut r, rec);
            push_str(&mut r, "\n  fact accept ");
            push_str(&mut r, res.as_str());
            push_str(&mut r, "\n  fact reject ");
            push_str(&mut r, rec);
            push_str(&mut r, "\n  fact reject ");
            push_str(&mut r, res.as_str());
        },
        None => {
            push_str(
                &mut r,
                "\nPrevious conflicting revisions remain in history.\nNew revision is pending acceptance from ",
            );
            push_str(&mut r, count.as_str());
            push_str(&mut r, " participant(s).\n\nNext:\n  fact accept ");
            push_str(&mut r, rec);
            push_str(&mut r, "\n  fact reject ");
            push_str(&mut r, rec);
        },
    }
    proof {
        assert(r@ =~= resolve_text(*outcome));
    }
    r
}

} // verus!
