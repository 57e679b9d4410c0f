//! What `fact as` reports when it only shows the current signer of a
//! ledger: the ledger, and the actor that signs for it, if any.

use vstd::prelude::*;
use crate::book::opt_view;
use crate::ids::{uuid_hyphenated, uuid_text};
use crate::json::{Json, JsonValue, lemma_object_view, member_views};
use crate::text::concat;

verus! {

/// The ledger as the report shows it.
pub struct LedgerFacts {
    pub name: String,
    pub ledger_id: String,
    /// The path of the ledger's database.
    pub database: String,
    pub read_only: bool,
}

/// What the ledger's directory says of the signer.
pub struct DirectoryFacts {
    pub display_name: String,
    pub alias: Option<String>,
    pub actor_type: Option<String>,
}

/// The signer of a ledger.
pub struct SignerFacts {
    pub actor_id: u128,
    /// The short reference of the actor ID.
    pub actor_ref: String,
    pub key_id: u128,
    /// The short reference of the key ID.
    pub key_ref: String,
    /// The signer's directory entry, when the directory has one.
    pub directory: Option<DirectoryFacts>,
    /// Whether the signing seed is kept locally.
    pub local_private_key_material: bool,
}

pub open spec fn opt_str_json(o: Option<Seq<char>>) -> JsonValue {
    match o {
        Some(s) => JsonValue::Str(s),
        None => JsonValue::Null,
    }
}

pub open spec fn ledger_json_spec(l: LedgerFacts) -> JsonValue {
    JsonValue::Object(
        seq![
            ("name"@, JsonValue::Str(l.name@)),
            ("ledger_id"@, JsonValue::Str(l.ledger_id@)),
            ("database"@, JsonValue::Str(l.database@)),
            ("read_only"@, JsonValue::Bool(l.read_only)),
        ],
    )
}

/// The signer's name: the directory's display name, else `actor` and the
/// short reference of its ID.
pub open spec fn signer_name(s: SignerFacts) -> Seq<char> {
    match s.directory {
        Some(d) => d.display_name@,
        None => "actor "@ + s.actor_ref@,
    }
}

pub open spec fn signer_json_spec(s: SignerFacts) -> JsonValue {
    JsonValue::Object(
        seq![
            ("actor_id"@, JsonValue::Str(uuid_hyphenated(s.actor_id))),
            ("actor_ref"@, JsonValue::Str(s.actor_ref@)),
            ("key_id"@, JsonValue::Str(uuid_hyphenated(s.key_id))),
            ("key_ref"@, JsonValue::Str(s.key_ref@)),
            ("alias"@, opt_str_json(
                match s.directory {
                    Some(d) => opt_view(d.alias),
                    None => None,
                },
            )),
            ("display_name"@, JsonValue::Str(signer_name(s))),
            ("type"@, opt_str_json(
                match s.directory {
                    Some(d) => opt_view(d.actor_type),
                    None => None,
                },
            )),
            ("local_private_key_material"@, JsonValue::Bool(s.local_private_key_material)),
        ],
    )
}

/// The members every report begins with.
pub open spec fn report_head(l: LedgerFacts) -> Seq<(Seq<char>, JsonValue)> {
    seq![
        ("report"@, JsonValue::Bool(true)),
        ("switched"@, JsonValue::Bool(false)),
        ("self"@, JsonValue::Bool(false)),
        ("created_identity"@, JsonValue::Bool(false)),
        ("created_directory_entry"@, JsonValue::Bool(false)),
        ("updated_directory_entry"@, JsonValue::Bool(false)),
        ("created_home"@, JsonValue::Bool(false)),
        ("created_permission_grants"@, JsonValue::Array(Seq::empty())),
        ("ledger"@, ledger_json_spec(l)),
    ]
}

/// The report: nothing was switched or created; the ledger; the signer, or
/// a note that the ledger has none.
pub open spec fn signer_report_spec(l: LedgerFacts, signer: Option<SignerFacts>) -> JsonValue {
    let head = report_head(l);
    match signer {
        None => JsonValue::Object(
            head + seq![
                ("actor"@, JsonValue::Null),
                ("no_current_signer"@, JsonValue::Bool(true)),
                ("home"@, JsonValue::Null),
            ],
        ),
        Some(s) => JsonValue::Object(
            head + seq![("actor"@, signer_json_spec(s)), ("home"@, JsonValue::Null)],
        ),
    }
}

fn opt_json(o: &Option<String>) -> (j: Json)
    ensures
        j@ == opt_str_json(opt_view(*o)),
{
    match o {
        Some(s) => Json::Str(s.clone()),
        None => Json::Null,
    }
}

fn ledger_json(l: &LedgerFacts) -> (j: Json)
    ensures
        j@ == ledger_json_spec(*l),
{
    let name = Json::Str(l.name.clone());
    let id = Json::Str(l.ledger_id.clone());
    let db = Json::Str(l.database.clone());
    let ro = Json::Bool(l.read_only);
    assert(name@ == JsonValue::Str(l.name@));
    assert(id@ == JsonValue::Str(l.ledger_id@));
    assert(db@ == JsonValue::Str(l.database@));
    assert(ro@ == JsonValue::Bool(l.read_only));
    let members = vec![
        ("name".to_owned(), name),
        ("ledger_id".to_owned(), id),
        ("database".to_owned(), db),
        ("read_only".to_owned(), ro),
    ];
    let j = Json::Object(members);
    proof {
        let inner = match j@ {
            JsonValue::Object(s) => s,
            _ => Seq::empty(),
        };
        let expected = match ledger_json_spec(*l) {
            JsonValue::Object(s) => s,
            _ => Seq::empty(),
        };
        assert(inner =~= expected);
    }
    j
}

fn signer_json(s: &SignerFacts) -> (j: Json)
    ensures
        j@ == signer_json_spec(*s),
{
    let (alias, display, kind) = match &s.directory {
        Some(d) => (opt_json(&d.alias), Json::Str(d.display_name.clone()), opt_json(&d.actor_type)),
        None => (Json::Null, Json::Str(concat("actor ", s.actor_ref.as_str())), Json::Null),
    };
    assert(alias@ == opt_str_json(
        match s.directory {
            Some(d) => opt_view(d.alias),
            None => None,
        },
    ));
    assert(kind@ == opt_str_json(
        match s.directory {
            Some(d) => opt_view(d.actor_type),
            None => None,
        },
    ));
    let actor_id = Json::Str(uuid_text(s.actor_id));
    let actor_ref = Json::Str(s.actor_ref.clone());
    let key_id = Json::Str(uuid_text(s.key_id));
    let key_ref = Json::Str(s.key_ref.clone());
    let local = Json::Bool(s.local_private_key_material);
    assert(actor_id@ == JsonValue::Str(uuid_hyphenated(s.actor_id)));
    assert(actor_ref@ == JsonValue::Str(s.actor_ref@));
    assert(key_id@ == JsonValue::Str(uuid_hyphenated(s.key_id)));
    assert(key_ref@ == JsonValue::Str(s.key_ref@));
    assert(display@ == JsonValue::Str(signer_name(*s)));
    assert(local@ == JsonValue::Bool(s.local_private_key_material));
    let members = vec![
        ("actor_id".to_owned(), actor_id),
        ("actor_ref".to_owned(), actor_ref),
        ("key_id".to_owned(), key_id),
        ("key_ref".to_owned(), key_ref),
        ("alias".to_owned(), alias),
        ("display_name".to_owned(), display),
        ("type".to_owned(), kind),
        ("local_private_key_material".to_owned(), local),
    ];
    let j = Json::Object(members);
    proof {
        let inner = match j@ {
            JsonValue::Object(x) => x,
            _ => Seq::empty(),
        };
        let expected = match signer_json_spec(*s) {
            JsonValue::Object(x) => x,
            _ => Seq::empty(),
        };
        assert(inner =~= expected);
    }
    j
}

fn report_head_members(ledger: &LedgerFacts) -> (v: Vec<(String, Json)>)
    ensures
        member_views(v@) == report_head(*ledger),
{
    let grants = Json::Array(Vec::new());
    proof {
        let items = match grants@ {
            JsonValue::Array(x) => x,
            _ => Seq::empty(),
        };
        assert(items =~= Seq::<JsonValue>::empty());
    }
    let v = vec![
        ("report".to_owned(), Json::Bool(true)),
        ("switched".to_owned(), Json::Bool(false)),
        ("self".to_owned(), Json::Bool(false)),
        ("created_identity".to_owned(), Json::Bool(false)),
        ("created_directory_entry".to_owned(), Json::Bool(false)),
        ("updated_directory_entry".to_owned(), Json::Bool(false)),
        ("created_home".to_owned(), Json::Bool(false)),
        ("created_permission_grants".to_owned(), grants),
        ("ledger".to_owned(), ledger_json(ledger)),
    ];
    assert(member_views(v@) =~= report_head(*ledger));
    v
}

/// The document `fact as` prints when it only reports the current signer.
pub fn current_signer_report(ledger: &LedgerFacts, signer: &Option<SignerFacts>) -> (j: Json)
    ensures
        j@ == signer_report_spec(*ledger, *signer),
{
    let mut members = report_head_members(ledger);
    let ghost head = member_views(members@);
    match signer {
        None => {
            members.push(("actor".to_owned(), Json::Null));
            members.push(("no_current_signer".to_owned(), Json::Bool(true)));
            members.push(("home".to_owned(), Json::Null));
            assert(member_views(members@) =~= head + seq![
                ("actor"@, JsonValue::Null),
                ("no_current_signer"@, JsonValue::Bool(true)),
                ("home"@, JsonValue::Null),
            ]);
        },
        Some(s) => {
            members.push(("actor".to_owned(), signer_json(s)));
            members.push(("home".to_owned(), Json::Null));
            assert(member_views(members@) =~= head + seq![
                ("actor"@, signer_json_spec(*s)),
                ("home"@, JsonValue::Null),
            ]);
        },
    }
    proof {
        lemma_object_view(members);
    }
    Json::Object(members)
}

} // verus!
