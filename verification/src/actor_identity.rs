//! The documents `fact actor identity list` and `fact actor identity show`
//! print for each actor of a ledger.

use vstd::prelude::*;
use crate::book::opt_view;
use crate::ids::{uuid_hyphenated, uuid_text};
use crate::json::{Json, JsonValue, lemma_object_view, member_views};
use crate::text::{contains_text, str_eq, texts};

verus! {

/// What the ledger and the local environment say of one actor.
pub struct ActorIdentityFacts {
    pub actor_id: u128,
    /// The short reference of the actor ID.
    pub actor_ref: String,
    /// The actor's signing key, when a binding names one.
    pub key_id: Option<u128>,
    /// The short reference of the key ID.
    pub key_ref: Option<String>,
    /// The local persona of the actor, by name.
    pub persona: Option<String>,
    /// The directory's display name and alias of the actor.
    pub display_name: Option<String>,
    pub alias: Option<String>,
    /// The capabilities the actor holds.
    pub capabilities: Vec<String>,
    /// Whether the actor's signing seed is kept locally.
    pub local_private_key_material: bool,
}

pub open spec fn opt_text_json(o: Option<Seq<char>>) -> JsonValue {
    match o {
        Some(s) => JsonValue::Str(s),
        None => JsonValue::Null,
    }
}

pub open spec fn texts_json(v: Seq<Seq<char>>) -> JsonValue {
    JsonValue::Array(Seq::new(v.len(), |i: int| JsonValue::Str(v[i])))
}

/// The members both documents begin with.
pub open spec fn identity_head(f: ActorIdentityFacts) -> Seq<(Seq<char>, JsonValue)> {
    seq![
        ("actor_id"@, JsonValue::Str(uuid_hyphenated(f.actor_id))),
        ("actor_ref"@, JsonValue::Str(f.actor_ref@)),
        ("key_id"@, match f.key_id {
            Some(k) => JsonValue::Str(uuid_hyphenated(k)),
            None => JsonValue::Null,
        }),
        ("key_ref"@, opt_text_json(opt_view(f.key_ref))),
        ("persona"@, opt_text_json(opt_view(f.persona))),
        ("display_name"@, opt_text_json(opt_view(f.display_name))),
        ("alias"@, opt_text_json(opt_view(f.alias))),
        ("capabilities"@, texts_json(texts(f.capabilities@))),
    ]
}

/// The actor is the one the ledger signs with.
pub open spec fn is_active(f: ActorIdentityFacts, active_actor: Seq<char>) -> bool {
    active_actor == uuid_hyphenated(f.actor_id)
}

/// One actor of `fact actor identity list`.
pub open spec fn list_item_spec(f: ActorIdentityFacts, active_actor: Seq<char>) -> JsonValue {
    JsonValue::Object(
        identity_head(f) + seq![
            ("admin"@, JsonValue::Bool(texts(f.capabilities@).contains("admin"@))),
            ("local_private_key_material"@, JsonValue::Bool(f.local_private_key_material)),
            ("active"@, JsonValue::Bool(is_active(f, active_actor))),
        ],
    )
}

/// The actor `fact actor identity show` prints.
pub open spec fn show_value_spec(f: ActorIdentityFacts, active_actor: Seq<char>, imported: bool) -> JsonValue {
    JsonValue::Object(
        identity_head(f) + seq![
            ("local_private_key_material"@, JsonValue::Bool(f.local_private_key_material)),
            ("active"@, JsonValue::Bool(is_active(f, active_actor))),
            ("imported"@, JsonValue::Bool(imported)),
        ],
    )
}

fn opt_text(o: &Option<String>) -> (j: Json)
    ensures
        j@ == opt_text_json(opt_view(*o)),
{
    match o {
        Some(s) => Json::Str(s.clone()),
        None => Json::Null,
    }
}

pub(crate) fn text_array(v: &Vec<String>) -> (j: Json)
    ensures
        j@ == texts_json(texts(v@)),
{
    let mut items: Vec<Json> = Vec::new();
    let mut i: usize = 0;
    while i < v.len()
        invariant
            i <= v@.len(),
            items@.len() == i,
            forall|k: int| 0 <= k < i ==> (#[trigger] items@[k])@ == JsonValue::Str(v@[k]@),
        decreases v@.len() - i,
    {
        items.push(Json::Str(v[i].clone()));
        i = i + 1;
    }
    let j = Json::Array(items);
    proof {
        let inner = match j@ {
            JsonValue::Array(x) => x,
            _ => Seq::empty(),
        };
        assert(inner =~= Seq::new(texts(v@).len(), |k: int| JsonValue::Str(texts(v@)[k])));
    }
    j
}

fn head_members(f: &ActorIdentityFacts) -> (v: Vec<(String, Json)>)
    ensures
        member_views(v@) == identity_head(*f),
{
    let actor_id = Json::Str(uuid_text(f.actor_id));
    let actor_ref = Json::Str(f.actor_ref.clone());
    let key_id = match f.key_id {
        Some(k) => Json::Str(uuid_text(k)),
        None => Json::Null,
    };
    assert(key_id@ == match f.key_id {
        Some(k) => JsonValue::Str(uuid_hyphenated(k)),
        None => JsonValue::Null,
    });
    assert(actor_id@ == JsonValue::Str(uuid_hyphenated(f.actor_id)));
    assert(actor_ref@ == JsonValue::Str(f.actor_ref@));
    let v = vec![
        ("actor_id".to_owned(), actor_id),
        ("actor_ref".to_owned(), actor_ref),
        ("key_id".to_owned(), key_id),
        ("key_ref".to_owned(), opt_text(&f.key_ref)),
        ("persona".to_owned(), opt_text(&f.persona)),
        ("display_name".to_owned(), opt_text(&f.display_name)),
        ("alias".to_owned(), opt_text(&f.alias)),
        ("capabilities".to_owned(), text_array(&f.capabilities)),
    ];
    assert(member_views(v@) =~= identity_head(*f));
    v
}

fn active_flag(f: &ActorIdentityFacts, active_actor: &str) -> (r: bool)
    ensures
        r == is_active(*f, active_actor@),
{
    let id = uuid_text(f.actor_id);
    str_eq(active_actor, id.as_str())
}

/// One actor as `fact actor identity list` prints it; `active_actor` is
/// the actor ID the ledger signs with.
pub fn actor_identity_list_item(f: &ActorIdentityFacts, active_actor: &str) -> (j: Json)
    ensures
        j@ == list_item_spec(*f, active_actor@),
{
    let mut members = head_members(f);
    let ghost head = member_views(members@);
    let admin = contains_text(&f.capabilities, &"admin".to_owned());
    let active = active_flag(f, active_actor);
    members.push(("admin".to_owned(), Json::Bool(admin)));
    members.push(
        ("local_private_key_material".to_owned(), Json::Bool(f.local_private_key_material)),
    );
    members.push(("active".to_owned(), Json::Bool(active)));
    assert(member_views(members@) =~= head + seq![
        ("admin"@, JsonValue::Bool(texts(f.capabilities@).contains("admin"@))),
        ("local_private_key_material"@, JsonValue::Bool(f.local_private_key_material)),
        ("active"@, JsonValue::Bool(is_active(*f, active_actor@))),
    ]);
    proof {
        lemma_object_view(members);
    }
    Json::Object(members)
}

/// The actor as `fact actor identity show` prints it; `imported` tells
/// whether the ledger holds the actor's identity object.
pub fn actor_identity_show_value(f: &ActorIdentityFacts, active_actor: &str, imported: bool) -> (j:
    Json)
    ensures
        j@ == show_value_spec(*f, active_actor@, imported),
{
    let mut members = head_members(f);
    let ghost head = member_views(members@);
    let active = active_flag(f, active_actor);
    members.push(
        ("local_private_key_material".to_owned(), Json::Bool(f.local_private_key_material)),
    );
    members.push(("active".to_owned(), Json::Bool(active)));
    members.push(("imported".to_owned(), Json::Bool(imported)));
    assert(member_views(members@) =~= head + seq![
        ("local_private_key_material"@, JsonValue::Bool(f.local_private_key_material)),
        ("active"@, JsonValue::Bool(is_active(*f, active_actor@))),
        ("imported"@, JsonValue::Bool(imported)),
    ]);
    proof {
        lemma_object_view(members);
    }
    Json::Object(members)
}

} // verus!
