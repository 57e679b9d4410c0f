//! Verified core of the `fact` command-line client: the remote actor
//! exchange artifacts, their base64url bundle encoding, JSON inspection of
//! signed payloads, and the naming and validation rules of the CLI.

pub mod text;
pub mod base64url;
pub mod json;
pub mod ids;
pub mod errors;
pub mod faults;
pub mod actor_exchange;
pub mod records;
pub mod capabilities;
pub mod capability_report;
pub mod names;
pub mod remote;
pub mod bundles;
pub mod bundle_actors;
pub mod key_bindings;
pub mod display;
pub mod fact_as;
pub mod comments;
pub mod invitations;
pub mod arguments;
pub mod remotes;
pub mod tokens;
pub mod overview;
pub mod resolve;
pub mod outcomes;
pub mod comment_review;
pub mod environment;
pub mod identity_display;
pub mod ledger_show;
pub mod actor_identity;
pub mod directory_bundle;
pub mod identity_transfer;
pub mod book;
pub mod profiles;
pub mod personas;
pub mod actor_commands;
pub mod registry;
pub mod directory_input;
pub mod clone;
pub mod tags;
pub mod plans;
pub mod reports;
pub mod signer_report;
pub mod sync_steps;
pub mod seeds;
pub mod markdown_input;
pub mod participation;
