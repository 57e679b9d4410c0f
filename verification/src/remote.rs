//! Remotes: the descriptors that say where a ledger is served, and what a
//! remote's ledger list is checked and searched for.

use vstd::prelude::*;
use vstd::utf8::*;
use crate::actor_exchange::{ActorClaims, ClaimsView};
use crate::base64url::{decode_base64url_strict, decode_spec};
use crate::json::{Json, JsonValue, lemma_object_view, member_views, as_str, get, get_str, json_bytes_parse, member, parse_json_bytes, str_member, str_of};
use crate::records::{claims_decode_spec, decode_claims};
use crate::errors::{FactError, Failure, text_outcome, unit_outcome};
use crate::ids::{hex_digit, nibble, parse_uuid_text, uuid_hyphenated, uuid_parse_error_text, uuid_parse_spec, uuid_text, uuid_version, version_of};
use crate::names::{artifact_stem, is_portable, portable_name, portable_name_from_text, portable_text_spec, actor_artifact_stem};
use crate::text::{
    after_last, before_first, chars_match, chars_of, text_after_last, text_before_first, concat, has_prefix, join, join_texts, push_char, push_str, starts_with, str_eq,
    string_of_chars, texts,
};

verus! {

/// What a remote descriptor says: where a ledger is served and how to reach it.
#[derive(Debug)]
pub struct RemoteDescriptor {
    pub url: String,
    pub ledger_id: String,
    pub genesis_hash: String,
    pub token: Option<String>,
    /// The ledger's namespace, from an actor response.
    pub namespace: Option<String>,
    /// The actor an actor response was issued to.
    pub actor: Option<String>,
    pub claims: Option<ActorClaims>,
}

/// A ledger a remote reports serving.
#[derive(Debug)]
pub struct RemoteLedgerMetadata {
    pub ledger_id: String,
    pub genesis_hash: Option<String>,
    pub namespace: Option<String>,
}

pub struct MetadataView {
    pub ledger_id: Seq<char>,
    pub genesis_hash: Option<Seq<char>>,
    pub namespace: Option<Seq<char>>,
}

pub open spec fn opt_view(o: Option<String>) -> Option<Seq<char>> {
    match o {
        Some(s) => Some(s@),
        None => None,
    }
}

impl View for RemoteLedgerMetadata {
    type V = MetadataView;

    open spec fn view(&self) -> MetadataView {
        MetadataView {
            ledger_id: self.ledger_id@,
            genesis_hash: opt_view(self.genesis_hash),
            namespace: opt_view(self.namespace),
        }
    }
}

pub open spec fn metadata_views(v: Seq<RemoteLedgerMetadata>) -> Seq<MetadataView> {
    v.map_values(|m: RemoteLedgerMetadata| m@)
}

/// Checking that an ID is a canonical UUIDv7: it must parse, have version
/// 7, and be written as the lowercase hyphenated form.
pub open spec fn uuid7_spec(value: Seq<char>, field: Seq<char>) -> Result<u128, Failure> {
    match uuid_parse_spec(encode_utf8(value)) {
        None => Err(Failure::Uuid(uuid_parse_error_text(value))),
        Some(v) => if uuid_version(v) != 7 || uuid_hyphenated(v) != value {
            Err(Failure::User(field + " must be lowercase canonical UUIDv7"@))
        } else {
            Ok(v)
        },
    }
}

/// Reads a canonical UUIDv7; `field` names it in the error.
pub fn parse_uuid7(value: &str, field: &str) -> (r: Result<u128, FactError>)
    ensures
        match r {
            Ok(v) => uuid7_spec(value@, field@) == Ok::<u128, Failure>(v),
            Err(e) => uuid7_spec(value@, field@) == Err::<u128, Failure>(e@),
        },
{
    let v = match parse_uuid_text(value) {
        Ok(v) => v,
        Err(e) => {
            return Err(FactError::Uuid(e));
        },
    };
    let text = uuid_text(v);
    if version_of(v) != 7 || !str_eq(text.as_str(), value) {
        return Err(FactError::User(concat(field, " must be lowercase canonical UUIDv7")));
    }
    Ok(v)
}

/// A lowercase hexadecimal digit.
pub open spec fn lower_hex_char(c: char) -> bool {
    ('0' <= c <= '9') || ('a' <= c <= 'f')
}

/// A SHA-256 hash as `fact` writes it: 64 lowercase hexadecimal digits.
pub open spec fn is_sha256_hex(value: Seq<char>) -> bool {
    value.len() == 64 && forall|i: int| 0 <= i < 64 ==> lower_hex_char(#[trigger] value[i])
}

/// Checks that a value is a lowercase SHA-256 hex hash; `field` names it in
/// the error.
pub fn parse_sha256_hex(value: &str, field: &str) -> (r: Result<(), FactError>)
    ensures
        unit_outcome(r) == if is_sha256_hex(value@) {
            Ok(())
        } else {
            Err(Failure::User(field@ + " must be a lowercase SHA-256 hex hash"@))
        },
{
    let v = chars_of(value);
    let mut ok = v.len() == 64;
    let mut i: usize = 0;
    while ok && i < v.len()
        invariant
            v@ == value@,
            i <= v@.len(),
            ok ==> v@.len() == 64,
            ok ==> forall|j: int| 0 <= j < i ==> lower_hex_char(#[trigger] v@[j]),
            !ok ==> !is_sha256_hex(value@),
        decreases v@.len() - i,
    {
        let c = v[i];
        if !(('0' <= c && c <= '9') || ('a' <= c && c <= 'f')) {
            ok = false;
        }
        i = i + 1;
    }
    if ok {
        Ok(())
    } else {
        Err(FactError::User(concat(field, " must be a lowercase SHA-256 hex hash")))
    }
}

/// Checking a descriptor: an http(s) URL, a canonical UUIDv7 ledger and a
/// SHA-256 genesis hash, in that order.
pub open spec fn validate_descriptor_spec(url: Seq<char>, ledger_id: Seq<char>, genesis_hash: Seq<
    char,
>) -> Result<(), Failure> {
    if !has_prefix(url, "http://"@) && !has_prefix(url, "https://"@) {
        Err(Failure::User("remote descriptor URL must use http:// or https://"@))
    } else {
        match uuid7_spec(ledger_id, "ledger"@) {
            Err(e) => Err(e),
            Ok(_) => if is_sha256_hex(genesis_hash) {
                Ok(())
            } else {
                Err(Failure::User("genesis_hash"@ + " must be a lowercase SHA-256 hex hash"@))
            },
        }
    }
}

/// Checks a remote descriptor's URL, ledger and genesis hash.
pub fn validate_remote_descriptor(descriptor: &RemoteDescriptor) -> (r: Result<(), FactError>)
    ensures
        unit_outcome(r) == validate_descriptor_spec(
            descriptor.url@,
            descriptor.ledger_id@,
            descriptor.genesis_hash@,
        ),
{
    if !starts_with(descriptor.url.as_str(), "http://") && !starts_with(
        descriptor.url.as_str(),
        "https://",
    ) {
        return Err(FactError::User("remote descriptor URL must use http:// or https://".to_owned()));
    }
    match parse_uuid7(descriptor.ledger_id.as_str(), "ledger") {
        Ok(_) => {},
        Err(e) => {
            return Err(e);
        },
    }
    parse_sha256_hex(descriptor.genesis_hash.as_str(), "genesis_hash")
}

/// The IDs of a list of ledgers.
pub open spec fn ledger_ids(ledgers: Seq<MetadataView>) -> Seq<Seq<char>> {
    ledgers.map_values(|m: MetadataView| m.ledger_id)
}

/// The index of the first ledger with the given ID.
pub open spec fn find_ledger(ledgers: Seq<MetadataView>, id: Seq<char>) -> Option<int>
    decreases ledgers.len(),
{
    if ledgers.len() == 0 {
        None
    } else if ledgers[0].ledger_id == id {
        Some(0)
    } else {
        match find_ledger(ledgers.drop_first(), id) {
            Some(k) => Some(k + 1),
            None => None,
        }
    }
}

/// Checking a descriptor against the ledgers its remote reports (`None` when
/// discovery failed): the remote must serve the ledger with the same genesis.
pub open spec fn verify_descriptor_spec(
    ledger_id: Seq<char>,
    genesis_hash: Seq<char>,
    ledgers: Option<Seq<MetadataView>>,
) -> Result<(), Failure> {
    match ledgers {
        None => Err(
            Failure::User(
                "remote descriptor could not be verified: remote ledger discovery failed"@,
            ),
        ),
        Some(ls) => match find_ledger(ls, ledger_id) {
            None => Err(
                Failure::User(
                    "remote descriptor mismatch: remote does not serve ledger "@ + ledger_id
                        + "; served ledger(s): "@ + join(ledger_ids(ls), ", "@),
                ),
            ),
            Some(k) => match ls[k].genesis_hash {
                Some(g) => if g == genesis_hash {
                    Ok(())
                } else {
                    Err(
                        Failure::User(
                            "remote descriptor genesis mismatch for ledger "@ + ledger_id
                                + ": descriptor has "@ + genesis_hash + ", remote serves "@ + g,
                        ),
                    )
                },
                None => Err(
                    Failure::User(
                        "remote descriptor could not be verified: remote did not report genesis_hash for ledger "@
                            + ledger_id,
                    ),
                ),
            },
        },
    }
}

pub open spec fn opt_metadata(o: Option<Vec<RemoteLedgerMetadata>>) -> Option<Seq<MetadataView>> {
    match o {
        Some(v) => Some(metadata_views(v@)),
        None => None,
    }
}

fn ids_of(ledgers: &Vec<RemoteLedgerMetadata>) -> (ids: Vec<String>)
    ensures
        texts(ids@) == ledger_ids(metadata_views(ledgers@)),
{
    let mut ids: Vec<String> = Vec::new();
    let mut i: usize = 0;
    while i < ledgers.len()
        invariant
            i <= ledgers@.len(),
            texts(ids@) == ledger_ids(metadata_views(ledgers@)).take(i as int),
        decreases ledgers@.len() - i,
    {
        let ghost before = texts(ids@);
        ids.push(ledgers[i].ledger_id.clone());
        assert(texts(ids@) =~= before.push(ledgers@[i as int].ledger_id@));
        assert(ledger_ids(metadata_views(ledgers@)).take(i + 1) =~= ledger_ids(
            metadata_views(ledgers@),
        ).take(i as int).push(ledgers@[i as int].ledger_id@));
        i = i + 1;
    }
    assert(ledger_ids(metadata_views(ledgers@)).take(ledgers@.len() as int) =~= ledger_ids(
        metadata_views(ledgers@),
    ));
    ids
}

fn position_of_ledger(ledgers: &Vec<RemoteLedgerMetadata>, id: &str) -> (r: Option<usize>)
    ensures
        match r {
            Some(k) => find_ledger(metadata_views(ledgers@), id@) == Some(k as int) && k
                < ledgers@.len(),
            None => find_ledger(metadata_views(ledgers@), id@) is None,
        },
{
    let ghost ms = metadata_views(ledgers@);
    let mut i: usize = 0;
    assert(ms.skip(0) =~= ms);
    while i < ledgers.len()
        invariant
            i <= ledgers@.len(),
            ms == metadata_views(ledgers@),
            forall|j: int| 0 <= j < i ==> ms[j].ledger_id != id@,
            find_ledger(ms, id@) == match find_ledger(ms.skip(i as int), id@) {
                Some(k) => Some(k + i),
                None => None,
            },
        decreases ledgers@.len() - i,
    {
        assert(ms.skip(i as int).drop_first() =~= ms.skip(i + 1));
        assert(ms.skip(i as int)[0] == ms[i as int]);
        if str_eq(ledgers[i].ledger_id.as_str(), id) {
            return Some(i);
        }
        i = i + 1;
    }
    None
}

/// Checks a descriptor against the ledgers its remote reports; `ledgers` is
/// `None` when discovery failed.
pub fn verify_remote_descriptor(
    descriptor: &RemoteDescriptor,
    ledgers: Option<Vec<RemoteLedgerMetadata>>,
) -> (r: Result<(), FactError>)
    ensures
        unit_outcome(r) == verify_descriptor_spec(
            descriptor.ledger_id@,
            descriptor.genesis_hash@,
            opt_metadata(ledgers),
        ),
{
    let ledgers = match ledgers {
        Some(l) => l,
        None => {
            return Err(
                FactError::User(
                    "remote descriptor could not be verified: remote ledger discovery failed".to_owned(),
                ),
            );
        },
    };
    match position_of_ledger(&ledgers, descriptor.ledger_id.as_str()) {
        None => {
            let mut message = concat(
                "remote descriptor mismatch: remote does not serve ledger ",
                descriptor.ledger_id.as_str(),
            );
            push_str(&mut message, "; served ledger(s): ");
            let ids = ids_of(&ledgers);
            let list = join_texts(&ids, ", ");
            push_str(&mut message, list.as_str());
            Err(FactError::User(message))
        },
        Some(k) => {
            let served = &ledgers[k];
            assert(metadata_views(ledgers@)[k as int] == served@);
            match &served.genesis_hash {
                Some(g) => {
                    if str_eq(g.as_str(), descriptor.genesis_hash.as_str()) {
                        Ok(())
                    } else {
                        let mut message = concat(
                            "remote descriptor genesis mismatch for ledger ",
                            descriptor.ledger_id.as_str(),
                        );
                        push_str(&mut message, ": descriptor has ");
                        push_str(&mut message, descriptor.genesis_hash.as_str());
                        push_str(&mut message, ", remote serves ");
                        push_str(&mut message, g.as_str());
                        Err(FactError::User(message))
                    }
                },
                None => Err(
                    FactError::User(
                        concat(
                            "remote descriptor could not be verified: remote did not report genesis_hash for ledger ",
                            descriptor.ledger_id.as_str(),
                        ),
                    ),
                ),
            }
        },
    }
}

/// How the ledgers a remote serves are listed: `ID (namespace)` or `ID`,
/// comma-separated.
pub open spec fn ledger_choice(m: MetadataView) -> Seq<char> {
    match m.namespace {
        Some(ns) => m.ledger_id + " ("@ + ns + ")"@,
        None => m.ledger_id,
    }
}

pub open spec fn ledger_choices_spec(ledgers: Seq<MetadataView>) -> Seq<char> {
    join(ledgers.map_values(|m: MetadataView| ledger_choice(m)), ", "@)
}

/// Lists the ledgers a remote serves.
pub fn remote_ledger_choices(ledgers: &Vec<RemoteLedgerMetadata>) -> (s: String)
    ensures
        s@ == ledger_choices_spec(metadata_views(ledgers@)),
{
    let ghost want = metadata_views(ledgers@).map_values(|m: MetadataView| ledger_choice(m));
    let mut items: Vec<String> = Vec::new();
    let mut i: usize = 0;
    while i < ledgers.len()
        invariant
            i <= ledgers@.len(),
            want == metadata_views(ledgers@).map_values(|m: MetadataView| ledger_choice(m)),
            texts(items@) == want.take(i as int),
        decreases ledgers@.len() - i,
    {
        let ledger = &ledgers[i];
        let item = match &ledger.namespace {
            Some(ns) => {
                let mut t = ledger.ledger_id.clone();
                push_str(&mut t, " (");
                push_str(&mut t, ns.as_str());
                push_str(&mut t, ")");
                t
            },
            None => ledger.ledger_id.clone(),
        };
        assert(item@ == want[i as int]);
        let ghost before = texts(items@);
        items.push(item);
        assert(texts(items@) =~= before.push(want[i as int]));
        assert(want.take(i + 1) =~= want.take(i as int).push(want[i as int]));
        i = i + 1;
    }
    assert(want.take(ledgers@.len() as int) =~= want);
    join_texts(&items, ", ")
}

/// The ledger a single remote discovery leaves: its only ledger, none when it
/// serves none or discovery failed (`None`), an error when it serves several.
pub open spec fn single_ledger_spec(ledger_ids: Option<Seq<Seq<char>>>) -> Result<
    Option<Seq<char>>,
    Failure,
> {
    match ledger_ids {
        None => Ok(None),
        Some(ids) => if ids.len() == 1 {
            Ok(Some(ids[0]))
        } else if ids.len() == 0 {
            Ok(None)
        } else {
            Err(
                Failure::User(
                    "remote serves multiple ledgers; pass --ledger with one of: "@ + join(
                        ids,
                        ", "@,
                    ),
                ),
            )
        },
    }
}

pub open spec fn opt_texts(o: Option<Vec<String>>) -> Option<Seq<Seq<char>>> {
    match o {
        Some(v) => Some(texts(v@)),
        None => None,
    }
}

/// Picks the one ledger a remote serves, from its discovered ledger IDs.
pub fn discover_single_remote_ledger(ledger_ids: Option<Vec<String>>) -> (r: Result<
    Option<String>,
    FactError,
>)
    ensures
        match r {
            Ok(o) => single_ledger_spec(opt_texts(ledger_ids)) == Ok::<
                Option<Seq<char>>,
                Failure,
            >(opt_view(o)),
            Err(e) => single_ledger_spec(opt_texts(ledger_ids)) == Err::<
                Option<Seq<char>>,
                Failure,
            >(e@),
        },
{
    let ids = match ledger_ids {
        Some(ids) => ids,
        None => {
            return Ok(None);
        },
    };
    if ids.len() == 1 {
        Ok(Some(ids[0].clone()))
    } else if ids.len() == 0 {
        Ok(None)
    } else {
        let list = join_texts(&ids, ", ");
        Err(
            FactError::User(
                concat("remote serves multiple ledgers; pass --ledger with one of: ", list.as_str()),
            ),
        )
    }
}

/// The IDs of the ledgers a remote reports, when discovery succeeded.
pub fn discover_remote_ledgers(ledgers: Option<Vec<RemoteLedgerMetadata>>) -> (r: Option<
    Vec<String>,
>)
    ensures
        opt_texts(r) == match opt_metadata(ledgers) {
            Some(ls) => Some(ledger_ids(ls)),
            None => None,
        },
{
    match ledgers {
        Some(l) => Some(ids_of(&l)),
        None => None,
    }
}

/// Whether a list of ledger IDs holds the given one.
pub open spec fn serves(ids: Seq<Seq<char>>, id: Seq<char>) -> bool {
    ids.contains(id)
}

/// Checking that a remote serves the local ledger: it passes when discovery
/// failed, when the remote reports no ledger, or when it reports this one.
pub open spec fn serves_ledger_spec(ledger_ids: Option<Seq<Seq<char>>>, ledger: u128) -> Result<
    (),
    Failure,
> {
    match ledger_ids {
        None => Ok(()),
        Some(ids) => if ids.len() == 0 || ids.contains(uuid_hyphenated(ledger)) {
            Ok(())
        } else {
            Err(
                Failure::User(
                    "remote serves ledger(s) "@ + join(ids, ", "@) + ", not local ledger "@
                        + uuid_hyphenated(ledger)
                        + "; use `fact clone` to mirror a remote ledger; an empty local ledger cannot be turned into a mirror"@,
                ),
            )
        },
    }
}

/// Checks that a remote serves the local ledger, from its discovered ledger
/// IDs.
pub fn validate_remote_serves_ledger(ledger_ids: Option<Vec<String>>, ledger: u128) -> (r: Result<
    (),
    FactError,
>)
    ensures
        unit_outcome(r) == serves_ledger_spec(opt_texts(ledger_ids), ledger),
{
    let ids = match ledger_ids {
        Some(ids) => ids,
        None => {
            return Ok(());
        },
    };
    let local = uuid_text(ledger);
    if ids.len() == 0 || crate::text::contains_text(&ids, &local) {
        return Ok(());
    }
    let mut message = concat("remote serves ledger(s) ", join_texts(&ids, ", ").as_str());
    push_str(&mut message, ", not local ledger ");
    push_str(&mut message, local.as_str());
    push_str(
        &mut message,
        "; use `fact clone` to mirror a remote ledger; an empty local ledger cannot be turned into a mirror",
    );
    Err(FactError::User(message))
}

/// The characters of `s` other than `-`.
pub open spec fn without_dashes(s: Seq<char>) -> Seq<char>
    decreases s.len(),
{
    if s.len() == 0 {
        s
    } else if s.last() == '-' {
        without_dashes(s.drop_last())
    } else {
        without_dashes(s.drop_last()).push(s.last())
    }
}

/// Whether a ledger ID has a short reference: without its hyphens it is at
/// least five bytes long, and its first five and last five bytes are whole
/// characters.
pub open spec fn short_reference_defined(ledger_id: Seq<char>) -> bool {
    let b = encode_utf8(without_dashes(ledger_id));
    b.len() >= 5 && is_char_boundary(b, 5) && is_char_boundary(b, b.len() - 5)
}

/// The short reference of a ledger ID: its first five and last five bytes,
/// hyphens left out, joined by `-`.
pub open spec fn short_reference(ledger_id: Seq<char>) -> Seq<char> {
    let b = encode_utf8(without_dashes(ledger_id));
    decode_utf8(b.take(5)) + "-"@ + decode_utf8(b.skip(b.len() - 5))
}

/// The short reference of a ledger ID.
pub fn ledger_short_reference(ledger_id: &str) -> (r: String)
    requires
        short_reference_defined(ledger_id@),
    ensures
        r@ == short_reference(ledger_id@),
{
    let v = chars_of(ledger_id);
    let mut compact = String::new();
    let mut i: usize = 0;
    while i < v.len()
        invariant
            i <= v@.len(),
            v@ == ledger_id@,
            compact@ == without_dashes(ledger_id@.take(i as int)),
        decreases v@.len() - i,
    {
        assert(ledger_id@.take(i + 1).drop_last() =~= ledger_id@.take(i as int));
        if v[i] != '-' {
            push_char(&mut compact, v[i]);
        }
        i = i + 1;
    }
    assert(ledger_id@.take(v@.len() as int) =~= ledger_id@);
    let s = compact.as_str();
    let n = s.as_bytes().len();
    let (head, _) = s.split_at(5);
    let (_, tail) = s.split_at(n - 5);
    let mut r = head.to_owned();
    push_str(&mut r, "-");
    push_str(&mut r, tail);
    proof {
        broadcast use encode_utf8_decode_utf8;

        let b = encode_utf8(compact@);
        assert(encode_utf8(head@) == b.take(5));
        assert(encode_utf8(tail@) == b.skip(n - 5));
        assert(decode_utf8(encode_utf8(head@)) == head@);
        assert(decode_utf8(encode_utf8(tail@)) == tail@);
    }
    r
}

/// The text after the first occurrence of `p` in `s`: `s.split_once(p)`.
pub open spec fn after_pattern(s: Seq<char>, p: Seq<char>) -> Option<Seq<char>>
    decreases s.len(),
{
    if s.len() < p.len() {
        None
    } else if s.take(p.len() as int) == p {
        Some(s.skip(p.len() as int))
    } else if s.len() == 0 {
        None
    } else {
        after_pattern(s.drop_first(), p)
    }
}

/// The text of `s` after its first `://`, or all of `s`.
fn text_without_scheme(s: &str) -> (r: String)
    ensures
        r@ == match after_pattern(s@, "://"@) {
            Some(rest) => rest,
            None => s@,
        },
{
    let v = chars_of(s);
    let p = chars_of("://");
    proof {
        reveal_strlit("://");
    }
    let n = v.len();
    let mut i: usize = 0;
    assert(s@.skip(0) =~= s@);
    while i < n && n - i >= 3
        invariant
            n == v@.len(),
            v@ == s@,
            p@ == "://"@,
            p@.len() == 3,
            i <= n,
            after_pattern(s@, "://"@) == after_pattern(s@.skip(i as int), "://"@),
        decreases n - i,
    {
        let ghost t = s@.skip(i as int);
        assert(t.take(3) =~= v@.subrange(i as int, i + 3));
        if chars_match(&v, i, &p) {
            assert(t.skip(3) =~= v@.subrange(i + 3, n as int));
            return string_of_chars(&v, i + 3, n);
        }
        assert(t.drop_first() =~= s@.skip(i + 1));
        i = i + 1;
    }
    assert(s@.skip(i as int).len() < 3);
    string_of_chars(&v, 0, n)
}

/// The host part of a URL: after the scheme, before the first `/`, after
/// the last `@`, before the first `:`.
pub open spec fn url_host(url: Seq<char>) -> Seq<char> {
    let without_scheme = match after_pattern(url, "://"@) {
        Some(rest) => rest,
        None => url,
    };
    before_first(after_last(before_first(without_scheme, '/'), '@'), ':')
}

pub open spec fn opt_seq(o: Option<String>) -> Option<Seq<char>> {
    match o {
        Some(s) => Some(s@),
        None => None,
    }
}

/// The remote name a namespace suggests: its last dot-separated segment
/// made portable, when that is a portable name.
pub open spec fn namespace_name_spec(namespace: Option<Seq<char>>) -> Option<Seq<char>> {
    match namespace {
        None => None,
        Some(ns) => {
            let name = portable_text_spec(after_last(ns, '.'));
            if is_portable(name) {
                Some(name)
            } else {
                None
            }
        },
    }
}

/// The remote name a descriptor's namespace suggests, if any.
pub fn descriptor_namespace_name(descriptor: &RemoteDescriptor) -> (r: Option<String>)
    ensures
        opt_seq(r) == namespace_name_spec(opt_seq(descriptor.namespace)),
{
    let namespace = match &descriptor.namespace {
        Some(ns) => ns,
        None => {
            return None;
        },
    };
    let raw = text_after_last(namespace.as_str(), '.');
    let name = portable_name_from_text(raw.as_str());
    if portable_name(name.as_str()) {
        Some(name)
    } else {
        None
    }
}

/// The name a remote gets from its descriptor: the namespace's, else the
/// URL host's stem when portable, else `remote-` and the ledger's short
/// reference.
pub open spec fn descriptor_name_spec(
    url: Seq<char>,
    ledger_id: Seq<char>,
    namespace: Option<Seq<char>>,
) -> Seq<char> {
    match namespace_name_spec(namespace) {
        Some(name) => name,
        None => {
            let name = artifact_stem(url_host(url));
            if is_portable(name) {
                name
            } else {
                "remote-"@ + short_reference(ledger_id)
            }
        },
    }
}

/// A lowercase hexadecimal digit.
pub open spec fn lower_hex_digit(c: char) -> bool {
    ('0' <= c <= '9') || ('a' <= c <= 'f')
}

/// The hyphens a UUID's text holds before position `p`.
pub open spec fn dashes_before(p: int) -> int {
    (if p > 8 { 1int } else { 0int }) + (if p > 13 { 1int } else { 0int }) + (if p > 18 {
        1int
    } else {
        0int
    }) + (if p > 23 { 1int } else { 0int })
}

proof fn lemma_uuid_without_dashes_prefix(v: u128, p: int)
    requires
        0 <= p <= 36,
    ensures
        without_dashes(uuid_hyphenated(v).take(p)).len() == p - dashes_before(p),
        forall|j: int|
            0 <= j < without_dashes(uuid_hyphenated(v).take(p)).len() ==> lower_hex_digit(
                #[trigger] without_dashes(uuid_hyphenated(v).take(p))[j],
            ),
    decreases p,
{
    let u = uuid_hyphenated(v);
    if p > 0 {
        lemma_uuid_without_dashes_prefix(v, p - 1);
        assert(u.take(p).drop_last() =~= u.take(p - 1));
        assert(u.take(p).last() == u[p - 1]);
        let q = p - 1;
        if !(q == 8 || q == 13 || q == 18 || q == 23) {
            let k = if q < 8 {
                q
            } else if q < 13 {
                q - 1
            } else if q < 18 {
                q - 2
            } else if q < 23 {
                q - 3
            } else {
                q - 4
            };
            let n = nibble(v, k);
            assert(0 <= n < 16);
            assert(u[q] == hex_digit(n));
            assert(lower_hex_digit(u[q]));
        }
    } else {
        assert(u.take(0) =~= Seq::<char>::empty());
    }
}

proof fn lemma_ascii_prefix_suffix(wd: Seq<char>)
    requires
        wd.len() >= 5,
        is_ascii_chars(wd),
    ensures
        encode_utf8(wd).take(5) == encode_utf8(wd.take(5)),
        encode_utf8(wd).skip(encode_utf8(wd).len() - 5) == encode_utf8(wd.skip(wd.len() - 5)),
        encode_utf8(wd).len() == wd.len(),
{
    broadcast use is_ascii_chars_encode_utf8;

    let head = wd.take(5);
    let tail = wd.skip(wd.len() - 5);
    assert(is_ascii_chars(head));
    assert(is_ascii_chars(tail));
    assert(encode_utf8(wd).take(5) =~= encode_utf8(head));
    assert(encode_utf8(wd).skip(encode_utf8(wd).len() - 5) =~= encode_utf8(tail));
}

/// The name a descriptor derives for its remote is always portable when its
/// ledger ID is the canonical text of a UUID, and is the namespace's name
/// whenever the namespace suggests one.
pub proof fn law_descriptor_name_is_portable(url: Seq<char>, ledger: u128, namespace: Option<Seq<char>>)
    ensures
        is_portable(descriptor_name_spec(url, uuid_hyphenated(ledger), namespace)),
        short_reference_defined(uuid_hyphenated(ledger)),
        namespace_name_spec(namespace) matches Some(n) ==> descriptor_name_spec(
            url,
            uuid_hyphenated(ledger),
            namespace,
        ) == n,
{
    broadcast use is_ascii_chars_encode_utf8, encode_utf8_decode_utf8;

    let u = uuid_hyphenated(ledger);
    lemma_uuid_without_dashes_prefix(ledger, 36);
    assert(u.take(36) =~= u);
    let wd = without_dashes(u);
    assert(wd.len() == 32);
    assert(is_ascii_chars(wd)) by {
        assert forall|i: int| 0 <= i < wd.len() implies '\0' <= #[trigger] wd[i] <= '\u{7f}' by {
            assert(lower_hex_digit(wd[i]));
        }
    }
    lemma_ascii_prefix_suffix(wd);
    let b = encode_utf8(wd);
    assert(is_char_boundary(b, 5) && is_char_boundary(b, b.len() - 5)) by {
        encode_utf8_valid_utf8(wd);
        is_ascii_chars_encode_utf8(wd);
        assert(b[5] == wd[5] as u8);
        assert(b[27] == wd[27] as u8);
        assert(lower_hex_digit(wd[5]) && lower_hex_digit(wd[27]));
        is_char_boundary_iff_not_is_continuation_byte(b, 5);
        is_char_boundary_iff_not_is_continuation_byte(b, 27);
    }
    match namespace_name_spec(namespace) {
        Some(n) => {},
        None => {
            let stem = artifact_stem(url_host(url));
            if !is_portable(stem) {
                let reference = short_reference(u);
                assert(reference == wd.take(5) + "-"@ + wd.skip(27));
                let name = "remote-"@ + reference;
                reveal_strlit("remote-");
                reveal_strlit("-");
                assert(name.len() == 18);
                assert(is_ascii_chars(name)) by {
                    assert forall|i: int| 0 <= i < name.len() implies '\0' <= #[trigger] name[i]
                        <= '\u{7f}' by {
                        if 7 <= i < 12 {
                            assert(name[i] == wd[i - 7]);
                            assert(lower_hex_digit(wd[i - 7]));
                        } else if 13 <= i {
                            assert(name[i] == wd[27 + (i - 13)]);
                            assert(lower_hex_digit(wd[27 + (i - 13)]));
                        }
                    }
                }
                let nb = encode_utf8(name);
                assert forall|i: int| 0 <= i < nb.len() implies crate::names::portable_byte(
                    #[trigger] nb[i],
                ) by {
                    assert(nb[i] == name[i] as u8);
                    if 7 <= i < 12 {
                        assert(name[i] == wd[i - 7]);
                        assert(lower_hex_digit(wd[i - 7]));
                    } else if 13 <= i {
                        assert(name[i] == wd[27 + (i - 13)]);
                        assert(lower_hex_digit(wd[27 + (i - 13)]));
                    }
                }
            }
        },
    }
}

/// Derives the name a remote is saved under from its descriptor.
pub fn derive_remote_descriptor_name(descriptor: &RemoteDescriptor) -> (r: String)
    requires
        namespace_name_spec(opt_seq(descriptor.namespace)) is None && !is_portable(
            artifact_stem(url_host(descriptor.url@)),
        ) ==> short_reference_defined(descriptor.ledger_id@),
    ensures
        r@ == descriptor_name_spec(
            descriptor.url@,
            descriptor.ledger_id@,
            opt_seq(descriptor.namespace),
        ),
{
    match descriptor_namespace_name(descriptor) {
        Some(name) => {
            return name;
        },
        None => {},
    }
    let without_scheme = text_without_scheme(descriptor.url.as_str());
    let path_head = text_before_first(without_scheme.as_str(), '/');
    let user_tail = text_after_last(path_head.as_str(), '@');
    let host = text_before_first(user_tail.as_str(), ':');
    let name = actor_artifact_stem(host.as_str());
    if portable_name(name.as_str()) {
        name
    } else {
        let short = ledger_short_reference(descriptor.ledger_id.as_str());
        concat("remote-", short.as_str())
    }
}

/// Whether a ledger answers to a reference: by its ID, its namespace, or
/// its short reference.
pub open spec fn answers_to(m: MetadataView, requested: Seq<char>) -> bool {
    m.ledger_id == requested || m.namespace == Some(requested) || short_reference(m.ledger_id)
        == requested
}

/// The IDs of the ledgers that answer to a reference, in order.
pub open spec fn matching_ledgers(ledgers: Seq<MetadataView>, requested: Seq<char>) -> Seq<Seq<char>>
    decreases ledgers.len(),
{
    if ledgers.len() == 0 {
        Seq::empty()
    } else if answers_to(ledgers.last(), requested) {
        matching_ledgers(ledgers.drop_last(), requested).push(ledgers.last().ledger_id)
    } else {
        matching_ledgers(ledgers.drop_last(), requested)
    }
}

/// Resolving a reference against the ledgers a remote reports (`None` when
/// discovery failed): exactly one must answer to it.
pub open spec fn resolve_advertised_spec(requested: Seq<char>, ledgers: Option<Seq<MetadataView>>) -> Result<
    Seq<char>,
    Failure,
> {
    match ledgers {
        None => Err(Failure::User("remote ledger discovery failed"@)),
        Some(ls) => {
            let found = matching_ledgers(ls, requested);
            if found.len() == 1 {
                Ok(found[0])
            } else if found.len() == 0 {
                Err(
                    Failure::User(
                        "remote does not advertise ledger "@ + requested
                            + "; available ledgers: "@ + ledger_choices_spec(ls),
                    ),
                )
            } else {
                Err(
                    Failure::User(
                        "remote ledger reference "@ + requested
                            + " is ambiguous; available ledgers: "@ + ledger_choices_spec(ls),
                    ),
                )
            }
        },
    }
}

/// Short references are computed only for ledgers that answer to neither
/// the ID nor the namespace asked for.
pub open spec fn short_references_defined(ledgers: Seq<MetadataView>, requested: Seq<char>) -> bool {
    forall|i: int|
        0 <= i < ledgers.len() && #[trigger] ledgers[i].ledger_id != requested
            && ledgers[i].namespace != Some(requested) ==> short_reference_defined(
            ledgers[i].ledger_id,
        )
}

/// Resolves a ledger reference against the ledgers a remote reports.
pub fn resolve_remote_advertised_ledger(
    requested: &str,
    ledgers: Option<Vec<RemoteLedgerMetadata>>,
) -> (r: Result<String, FactError>)
    requires
        match opt_metadata(ledgers) {
            Some(ls) => short_references_defined(ls, requested@),
            None => true,
        },
    ensures
        text_outcome(r) == resolve_advertised_spec(requested@, opt_metadata(ledgers)),
{
    let ledgers = match ledgers {
        Some(l) => l,
        None => {
            return Err(FactError::User("remote ledger discovery failed".to_owned()));
        },
    };
    let ghost ms = metadata_views(ledgers@);
    let mut found: Vec<String> = Vec::new();
    let mut i: usize = 0;
    while i < ledgers.len()
        invariant
            i <= ledgers@.len(),
            ms == metadata_views(ledgers@),
            short_references_defined(ms, requested@),
            texts(found@) == matching_ledgers(ms.take(i as int), requested@),
        decreases ledgers@.len() - i,
    {
        let ledger = &ledgers[i];
        assert(ms[i as int] == ledger@);
        assert(ms.take(i + 1).drop_last() =~= ms.take(i as int));
        assert(ms.take(i + 1).last() == ledger@);
        let by_id = str_eq(ledger.ledger_id.as_str(), requested);
        let by_namespace = match &ledger.namespace {
            Some(ns) => str_eq(ns.as_str(), requested),
            None => false,
        };
        let answers = if by_id || by_namespace {
            true
        } else {
            assert(ms[i as int].ledger_id != requested@);
            assert(ms[i as int].namespace != Some(requested@));
            let short = ledger_short_reference(ledger.ledger_id.as_str());
            str_eq(short.as_str(), requested)
        };
        if answers {
            let ghost before = texts(found@);
            found.push(ledger.ledger_id.clone());
            assert(texts(found@) =~= before.push(ledger@.ledger_id));
        }
        i = i + 1;
    }
    assert(ms.take(ledgers@.len() as int) =~= ms);
    if found.len() == 1 {
        Ok(found[0].clone())
    } else if found.len() == 0 {
        let mut message = concat("remote does not advertise ledger ", requested);
        push_str(&mut message, "; available ledgers: ");
        push_str(&mut message, remote_ledger_choices(&ledgers).as_str());
        Err(FactError::User(message))
    } else {
        let mut message = concat("remote ledger reference ", requested);
        push_str(&mut message, " is ambiguous; available ledgers: ");
        push_str(&mut message, remote_ledger_choices(&ledgers).as_str());
        Err(FactError::User(message))
    }
}

/// What a descriptor holds, as values.
pub struct DescriptorView {
    pub url: Seq<char>,
    pub ledger_id: Seq<char>,
    pub genesis_hash: Seq<char>,
    pub token: Option<Seq<char>>,
    pub namespace: Option<Seq<char>>,
    pub actor: Option<Seq<char>>,
    pub claims: Option<ClaimsView>,
}

impl View for RemoteDescriptor {
    type V = DescriptorView;

    open spec fn view(&self) -> DescriptorView {
        DescriptorView {
            url: self.url@,
            ledger_id: self.ledger_id@,
            genesis_hash: self.genesis_hash@,
            token: opt_view(self.token),
            namespace: opt_view(self.namespace),
            actor: opt_view(self.actor),
            claims: crate::actor_exchange::opt_claims(self.claims),
        }
    }
}

/// A JSON document read from bytes; its error is a JSON failure.
pub open spec fn document_spec(bytes: Seq<u8>) -> Result<JsonValue, Failure> {
    match json_bytes_parse(bytes) {
        Ok(v) => Ok(v),
        Err(e) => Err(Failure::Json(e)),
    }
}

/// Reads a JSON document from bytes.
pub fn parse_json_document(bytes: &[u8]) -> (r: Result<Json, FactError>)
    ensures
        match r {
            Ok(v) => document_spec(bytes@) == Ok::<JsonValue, Failure>(v@),
            Err(e) => document_spec(bytes@) == Err::<JsonValue, Failure>(e@),
        },
{
    match parse_json_bytes(bytes) {
        Ok(v) => Ok(v),
        Err(e) => Err(FactError::Json(e)),
    }
}

/// A string member a descriptor must have.
pub open spec fn required_string_spec(value: JsonValue, field: Seq<char>) -> Result<Seq<char>, Failure> {
    match str_member(value, field) {
        Some(s) => Ok(s),
        None => Err(Failure::User("remote descriptor is missing "@ + field)),
    }
}

/// Reads a string member a descriptor must have.
pub fn required_string(value: &Json, field: &str) -> (r: Result<String, FactError>)
    ensures
        text_outcome(r) == required_string_spec(value@, field@),
{
    match get_str(value, field) {
        Some(s) => Ok(s),
        None => Err(FactError::User(concat("remote descriptor is missing ", field))),
    }
}

/// The claims member of an actor response, read when present.
pub open spec fn response_claims_spec(value: JsonValue) -> Result<Option<ClaimsView>, Failure> {
    match member(value, "claims"@) {
        None => Ok(None),
        Some(c) => match claims_decode_spec(c) {
            Ok(claims) => Ok(Some(claims)),
            Err(e) => Err(Failure::Json(e)),
        },
    }
}

/// The part of a descriptor document that names the endpoint, with what an
/// actor response adds: namespace, actor and claims.
pub open spec fn endpoint_part_spec(value: JsonValue, grants_verified: Result<(), Failure>) -> Result<
    (JsonValue, Option<Seq<char>>, Option<Seq<char>>, Option<ClaimsView>),
    Failure,
> {
    match str_member(value, "schema"@) {
        None => Err(Failure::User("remote descriptor is missing its format marker"@)),
        Some(schema) => if schema == "fact-remote-v0"@ {
            Ok((value, None, None, None))
        } else if schema == "fact-remote-actor-response-v0"@ {
            match grants_verified {
                Err(e) => Err(e),
                Ok(()) => {
                    let namespace = match member(value, "ledger"@) {
                        Some(ledger) => str_member(ledger, "namespace"@),
                        None => None,
                    };
                    let actor = str_member(value, "actor"@);
                    match response_claims_spec(value) {
                        Err(e) => Err(e),
                        Ok(claims) => match member(value, "endpoint"@) {
                            None => Err(Failure::User("remote actor response is missing endpoint"@)),
                            Some(endpoint) => Ok((endpoint, namespace, actor, claims)),
                        },
                    }
                },
            }
        } else {
            Err(Failure::User("unsupported remote descriptor format"@))
        },
    }
}

/// Reading a remote descriptor document: a `fact-remote-v0` descriptor, or
/// an actor response (whose grants must have been verified) whose endpoint
/// is one.
pub open spec fn descriptor_spec(value: JsonValue, grants_verified: Result<(), Failure>) -> Result<
    DescriptorView,
    Failure,
> {
    match endpoint_part_spec(value, grants_verified) {
        Err(e) => Err(e),
        Ok((d, namespace, actor, claims)) => match str_member(d, "schema"@) {
            None => Err(Failure::User("remote descriptor endpoint is missing its format marker"@)),
            Some(schema) => if schema != "fact-remote-v0"@ {
                Err(Failure::User("unsupported remote descriptor endpoint format"@))
            } else {
                match (
                    required_string_spec(d, "url"@),
                    required_string_spec(d, "ledger_id"@),
                    required_string_spec(d, "genesis_hash"@),
                ) {
                    (Err(e), _, _) => Err(e),
                    (Ok(_), Err(e), _) => Err(e),
                    (Ok(_), Ok(_), Err(e)) => Err(e),
                    (Ok(url), Ok(ledger_id), Ok(genesis_hash)) => Ok(
                        DescriptorView {
                            url,
                            ledger_id,
                            genesis_hash,
                            token: str_member(d, "token"@),
                            namespace,
                            actor,
                            claims,
                        },
                    ),
                }
            },
        },
    }
}

fn opt_get_str(value: &Json, key: &str) -> (r: Option<String>)
    ensures
        opt_view(r) == str_member(value@, key@),
{
    get_str(value, key)
}

/// Reads a remote descriptor out of its JSON document. `grants_verified` is
/// the outcome of checking an actor response's grants; it counts only when
/// the document is an actor response.
pub fn read_remote_descriptor(value: &Json, grants_verified: Result<(), FactError>) -> (r: Result<
    RemoteDescriptor,
    FactError,
>)
    ensures
        match r {
            Ok(d) => descriptor_spec(value@, unit_outcome(grants_verified)) == Ok::<
                DescriptorView,
                Failure,
            >(d@),
            Err(e) => descriptor_spec(value@, unit_outcome(grants_verified)) == Err::<
                DescriptorView,
                Failure,
            >(e@),
        },
{
    let schema = match get_str(value, "schema") {
        Some(s) => s,
        None => {
            return Err(FactError::User("remote descriptor is missing its format marker".to_owned()));
        },
    };
    let descriptor: &Json;
    let namespace: Option<String>;
    let actor: Option<String>;
    let claims: Option<ActorClaims>;
    if str_eq(schema.as_str(), "fact-remote-v0") {
        descriptor = value;
        namespace = None;
        actor = None;
        claims = None;
    } else if str_eq(schema.as_str(), "fact-remote-actor-response-v0") {
        match grants_verified {
            Ok(()) => {},
            Err(e) => {
                return Err(e);
            },
        }
        namespace = match get(value, "ledger") {
            Some(ledger) => opt_get_str(ledger, "namespace"),
            None => None,
        };
        actor = opt_get_str(value, "actor");
        claims = match get(value, "claims") {
            None => None,
            Some(c) => match decode_claims(c) {
                Ok(claims) => Some(claims),
                Err(e) => {
                    return Err(FactError::Json(e));
                },
            },
        };
        descriptor = match get(value, "endpoint") {
            Some(endpoint) => endpoint,
            None => {
                return Err(FactError::User("remote actor response is missing endpoint".to_owned()));
            },
        };
    } else {
        return Err(FactError::User("unsupported remote descriptor format".to_owned()));
    }
    let endpoint_schema = match get_str(descriptor, "schema") {
        Some(s) => s,
        None => {
            return Err(
                FactError::User("remote descriptor endpoint is missing its format marker".to_owned()),
            );
        },
    };
    if !str_eq(endpoint_schema.as_str(), "fact-remote-v0") {
        return Err(FactError::User("unsupported remote descriptor endpoint format".to_owned()));
    }
    let url = required_string(descriptor, "url")?;
    let ledger_id = required_string(descriptor, "ledger_id")?;
    let genesis_hash = required_string(descriptor, "genesis_hash")?;
    let token = opt_get_str(descriptor, "token");
    Ok(RemoteDescriptor { url, ledger_id, genesis_hash, token, namespace, actor, claims })
}

/// Where a remote's ledger list sits in its answer: under `body` when the
/// answer has one, else the answer itself.
pub open spec fn list_body(value: JsonValue) -> JsonValue {
    match member(value, "body"@) {
        Some(b) => b,
        None => value,
    }
}

/// Reading one entry of a remote's ledger list.
pub open spec fn ledger_entry_spec(entry: JsonValue) -> Result<MetadataView, Failure> {
    match str_member(entry, "ledger_id"@) {
        None => Err(Failure::User("remote ledger list entry is missing ledger_id"@)),
        Some(id) => match uuid7_spec(id, "ledger"@) {
            Err(e) => Err(e),
            Ok(v) => {
                let genesis = str_member(entry, "genesis_hash"@);
                match genesis {
                    Some(g) => if !is_sha256_hex(g) {
                        Err(Failure::User("genesis_hash"@ + " must be a lowercase SHA-256 hex hash"@))
                    } else {
                        Ok(
                            MetadataView {
                                ledger_id: uuid_hyphenated(v),
                                genesis_hash: Some(g),
                                namespace: str_member(entry, "namespace"@),
                            },
                        )
                    },
                    None => Ok(
                        MetadataView {
                            ledger_id: uuid_hyphenated(v),
                            genesis_hash: None,
                            namespace: str_member(entry, "namespace"@),
                        },
                    ),
                }
            },
        },
    }
}

/// Reading the entries of a ledger list, in order; the first bad entry is
/// the error.
pub open spec fn ledger_entries_spec(entries: Seq<JsonValue>) -> Result<Seq<MetadataView>, Failure>
    decreases entries.len(),
{
    if entries.len() == 0 {
        Ok(Seq::empty())
    } else {
        match ledger_entry_spec(entries[0]) {
            Err(e) => Err(e),
            Ok(first) => match ledger_entries_spec(entries.drop_first()) {
                Err(e) => Err(e),
                Ok(rest) => Ok(seq![first] + rest),
            },
        }
    }
}

/// Reading a remote's answer to a ledger list request.
pub open spec fn ledger_list_spec(value: JsonValue) -> Result<Seq<MetadataView>, Failure> {
    match member(list_body(value), "ledgers"@) {
        Some(JsonValue::Array(entries)) => ledger_entries_spec(entries),
        _ => Err(Failure::User("remote ledger list response did not include ledgers"@)),
    }
}

fn ledger_entry(entry: &Json) -> (r: Result<RemoteLedgerMetadata, FactError>)
    ensures
        match r {
            Ok(m) => ledger_entry_spec(entry@) == Ok::<MetadataView, Failure>(m@),
            Err(e) => ledger_entry_spec(entry@) == Err::<MetadataView, Failure>(e@),
        },
{
    let id = match get_str(entry, "ledger_id") {
        Some(s) => s,
        None => {
            return Err(FactError::User("remote ledger list entry is missing ledger_id".to_owned()));
        },
    };
    let v = parse_uuid7(id.as_str(), "ledger")?;
    let genesis_hash = match get_str(entry, "genesis_hash") {
        Some(g) => {
            parse_sha256_hex(g.as_str(), "genesis_hash")?;
            Some(g)
        },
        None => None,
    };
    let namespace = opt_get_str(entry, "namespace");
    Ok(RemoteLedgerMetadata { ledger_id: uuid_text(v), genesis_hash, namespace })
}

/// Reads the ledgers a remote reports out of its answer to a ledger list
/// request.
pub fn remote_ledgers_from_value(value: &Json) -> (r: Result<Vec<RemoteLedgerMetadata>, FactError>)
    ensures
        match r {
            Ok(v) => ledger_list_spec(value@) == Ok::<Seq<MetadataView>, Failure>(
                metadata_views(v@),
            ),
            Err(e) => ledger_list_spec(value@) == Err::<Seq<MetadataView>, Failure>(e@),
        },
{
    let body = match get(value, "body") {
        Some(b) => b,
        None => value,
    };
    let entries = match get(body, "ledgers") {
        Some(l) => match l {
            Json::Array(entries) => {
                proof {
                    crate::json::lemma_array_value(l, entries);
                }
                entries
            },
            _ => {
                return Err(
                    FactError::User("remote ledger list response did not include ledgers".to_owned()),
                );
            },
        },
        None => {
            return Err(
                FactError::User("remote ledger list response did not include ledgers".to_owned()),
            );
        },
    };
    let ghost all = entries@.map_values(|j: Json| j@);
    assert(all =~= crate::json::array_items(member(body@, "ledgers"@).unwrap()));
    assert(ledger_list_spec(value@) == ledger_entries_spec(all));
    let mut out: Vec<RemoteLedgerMetadata> = Vec::new();
    let mut i: usize = 0;
    assert(all.skip(0) =~= all);
    while i < entries.len()
        invariant
            i <= entries@.len(),
            all == entries@.map_values(|j: Json| j@),
            ledger_list_spec(value@) == ledger_entries_spec(all),
            ledger_entries_spec(all) == match ledger_entries_spec(all.skip(i as int)) {
                Ok(rest) => Ok(metadata_views(out@) + rest),
                Err(e) => Err(e),
            },
        decreases entries@.len() - i,
    {
        assert(all.skip(i as int).drop_first() =~= all.skip(i + 1));
        assert(all.skip(i as int)[0] == entries@[i as int]@);
        let m = ledger_entry(&entries[i])?;
        let ghost before = metadata_views(out@);
        out.push(m);
        assert(metadata_views(out@) =~= before.push(m@));
        proof {
            match ledger_entries_spec(all.skip(i + 1)) {
                Ok(rest) => {
                    assert(before + (seq![m@] + rest) =~= before.push(m@) + rest);
                },
                Err(_) => {},
            }
        }
        i = i + 1;
    }
    assert(all.skip(i as int) =~= Seq::<JsonValue>::empty());
    assert(metadata_views(out@) + Seq::<MetadataView>::empty() =~= metadata_views(out@));
    Ok(out)
}

/// The bytes of one signed grant listed in an actor response's `field`: the
/// item itself or its `cose_sign1` member, a base64url text without
/// whitespace.
pub open spec fn signed_grant_spec(field: Seq<char>, item: JsonValue) -> Result<Seq<u8>, Failure> {
    let encoded = match str_of(item) {
        Some(s) => Some(s),
        None => str_member(item, "cose_sign1"@),
    };
    match encoded {
        None => Err(Failure::User(field + " contains an invalid grant payload"@)),
        Some(text) => match decode_spec(encode_utf8(text), false) {
            Some(b) => Ok(b),
            None => Err(Failure::User(field + " contains invalid base64url"@)),
        },
    }
}

/// Reads the bytes of one signed grant listed in an actor response.
pub fn signed_grant_bytes(field: &str, item: &Json) -> (r: Result<Vec<u8>, FactError>)
    ensures
        match r {
            Ok(b) => signed_grant_spec(field@, item@) == Ok::<Seq<u8>, Failure>(b@),
            Err(e) => signed_grant_spec(field@, item@) == Err::<Seq<u8>, Failure>(e@),
        },
{
    let encoded = match as_str(item) {
        Some(s) => s.clone(),
        None => match get_str(item, "cose_sign1") {
            Some(s) => s,
            None => {
                return Err(FactError::User(concat(field, " contains an invalid grant payload")));
            },
        },
    };
    match decode_base64url_strict(encoded.as_str()) {
        Some(b) => Ok(b),
        None => Err(FactError::User(concat(field, " contains invalid base64url"))),
    }
}

/// Whether a ledger ID has a short reference.
pub fn short_reference_available(ledger_id: &str) -> (r: bool)
    ensures
        r == short_reference_defined(ledger_id@),
{
    let v = chars_of(ledger_id);
    let mut compact = String::new();
    let mut i: usize = 0;
    while i < v.len()
        invariant
            i <= v@.len(),
            v@ == ledger_id@,
            compact@ == without_dashes(ledger_id@.take(i as int)),
        decreases v@.len() - i,
    {
        assert(ledger_id@.take(i + 1).drop_last() =~= ledger_id@.take(i as int));
        if v[i] != '-' {
            push_char(&mut compact, v[i]);
        }
        i = i + 1;
    }
    assert(ledger_id@.take(v@.len() as int) =~= ledger_id@);
    let s = compact.as_str();
    let n = s.as_bytes().len();
    n >= 5 && s.is_char_boundary(5) && s.is_char_boundary(n - 5)
}

/// Whether every ledger that a reference would need the short reference of
/// has one: the precondition of [`resolve_remote_advertised_ledger`].
pub fn short_references_defined_for(ledgers: &Vec<RemoteLedgerMetadata>, requested: &str) -> (r: bool)
    ensures
        r == short_references_defined(metadata_views(ledgers@), requested@),
{
    let ghost ms = metadata_views(ledgers@);
    let mut i: usize = 0;
    while i < ledgers.len()
        invariant
            i <= ledgers@.len(),
            ms == metadata_views(ledgers@),
            forall|j: int|
                0 <= j < i && #[trigger] ms[j].ledger_id != requested@ && ms[j].namespace != Some(
                    requested@,
                ) ==> short_reference_defined(ms[j].ledger_id),
        decreases ledgers@.len() - i,
    {
        let ledger = &ledgers[i];
        assert(ms[i as int] == ledger@);
        let by_id = str_eq(ledger.ledger_id.as_str(), requested);
        let by_namespace = match &ledger.namespace {
            Some(ns) => str_eq(ns.as_str(), requested),
            None => false,
        };
        if !by_id && !by_namespace && !short_reference_available(ledger.ledger_id.as_str()) {
            assert(ms[i as int].ledger_id != requested@);
            return false;
        }
        i = i + 1;
    }
    true
}

/// Whether a descriptor's name can be derived: the precondition of
/// [`derive_remote_descriptor_name`].
pub fn descriptor_name_defined(descriptor: &RemoteDescriptor) -> (r: bool)
    ensures
        r == (namespace_name_spec(opt_seq(descriptor.namespace)) is None && !is_portable(
            artifact_stem(url_host(descriptor.url@)),
        ) ==> short_reference_defined(descriptor.ledger_id@)),
{
    if descriptor_namespace_name(descriptor).is_some() {
        return true;
    }
    let without_scheme = text_without_scheme(descriptor.url.as_str());
    let path_head = text_before_first(without_scheme.as_str(), '/');
    let user_tail = text_after_last(path_head.as_str(), '@');
    let host = text_before_first(user_tail.as_str(), ':');
    let name = actor_artifact_stem(host.as_str());
    if portable_name(name.as_str()) {
        return true;
    }
    short_reference_available(descriptor.ledger_id.as_str())
}

/// A descriptor is accepted only when the remote reports serving its ledger
/// with the same genesis hash: the first ledger with that ID must carry it.
pub proof fn law_descriptor_verified_against_served_genesis(
    ledger_id: Seq<char>,
    genesis_hash: Seq<char>,
    ledgers: Seq<MetadataView>,
)
    ensures
        verify_descriptor_spec(ledger_id, genesis_hash, Some(ledgers)) is Ok <==> (match find_ledger(
            ledgers,
            ledger_id,
        ) {
            Some(k) => ledgers[k].genesis_hash == Some(genesis_hash),
            None => false,
        }),
        verify_descriptor_spec(ledger_id, genesis_hash, Some(ledgers)) is Ok ==> exists|k: int|
            0 <= k < ledgers.len() && ledgers[k].ledger_id == ledger_id && #[trigger] ledgers[k].genesis_hash
                == Some(genesis_hash),
        verify_descriptor_spec(ledger_id, genesis_hash, None) is Err,
{
    lemma_find_ledger_found(ledgers, ledger_id);
}

proof fn lemma_find_ledger_found(ledgers: Seq<MetadataView>, id: Seq<char>)
    ensures
        match find_ledger(ledgers, id) {
            Some(k) => 0 <= k < ledgers.len() && ledgers[k].ledger_id == id,
            None => forall|k: int| 0 <= k < ledgers.len() ==> #[trigger] ledgers[k].ledger_id != id,
        },
    decreases ledgers.len(),
{
    if ledgers.len() > 0 {
        lemma_find_ledger_found(ledgers.drop_first(), id);
        if ledgers[0].ledger_id != id {
            match find_ledger(ledgers.drop_first(), id) {
                Some(k) => {
                    assert(ledgers[k + 1] == ledgers.drop_first()[k]);
                },
                None => {
                    assert forall|k: int| 0 <= k < ledgers.len() implies #[trigger] ledgers[k].ledger_id
                        != id by {
                        if k > 0 {
                            assert(ledgers[k] == ledgers.drop_first()[k - 1]);
                        }
                    }
                },
            }
        }
    }
}

/// Syncing with a remote is refused exactly when the remote reports
/// serving ledgers and the local ledger is not among them: an empty local
/// ledger cannot become a mirror of another ledger.
pub proof fn law_sync_needs_the_same_ledger(ledger_ids: Seq<Seq<char>>, ledger: u128)
    ensures
        serves_ledger_spec(Some(ledger_ids), ledger) is Err <==> (ledger_ids.len() > 0
            && !ledger_ids.contains(uuid_hyphenated(ledger))),
        serves_ledger_spec(None, ledger) is Ok,
{
}

/// A `fact-remote-v0` descriptor whose `url`, `ledger_id` and
/// `genesis_hash` are strings is read as those values, with its `token` when
/// it is a string.
pub proof fn law_plain_descriptor_is_read(value: JsonValue, grants_verified: Result<(), Failure>)
    requires
        str_member(value, "schema"@) == Some("fact-remote-v0"@),
        str_member(value, "url"@) is Some,
        str_member(value, "ledger_id"@) is Some,
        str_member(value, "genesis_hash"@) is Some,
    ensures
        descriptor_spec(value, grants_verified) == Ok::<DescriptorView, Failure>(
            DescriptorView {
                url: str_member(value, "url"@).unwrap(),
                ledger_id: str_member(value, "ledger_id"@).unwrap(),
                genesis_hash: str_member(value, "genesis_hash"@).unwrap(),
                token: str_member(value, "token"@),
                namespace: None,
                actor: None,
                claims: None,
            },
        ),
{
}

/// The JSON `fact remote check --json` prints for a descriptor: the remote
/// name it suggests, its URL, ledger ID and genesis hash.
pub open spec fn descriptor_check_json_spec(name: Seq<char>, d: RemoteDescriptor) -> JsonValue {
    JsonValue::Object(
        seq![
            ("name"@, JsonValue::Str(name)),
            ("url"@, JsonValue::Str(d.url@)),
            ("ledger"@, JsonValue::Str(d.ledger_id@)),
            ("genesis_hash"@, JsonValue::Str(d.genesis_hash@)),
        ],
    )
}

/// The JSON document for a checked descriptor.
pub fn descriptor_check_json(name: &str, descriptor: &RemoteDescriptor) -> (j: Json)
    ensures
        j@ == descriptor_check_json_spec(name@, *descriptor),
{
    let members = vec![
        ("name".to_owned(), Json::Str(name.to_owned())),
        ("url".to_owned(), Json::Str(descriptor.url.clone())),
        ("ledger".to_owned(), Json::Str(descriptor.ledger_id.clone())),
        ("genesis_hash".to_owned(), Json::Str(descriptor.genesis_hash.clone())),
    ];
    proof {
        lemma_object_view(members);
        assert(member_views(members@) =~= match descriptor_check_json_spec(name@, *descriptor) {
            JsonValue::Object(m) => m,
            _ => Seq::empty(),
        });
    }
    Json::Object(members)
}

proof fn lemma_nothing_answers(ls: Seq<MetadataView>, requested: Seq<char>)
    requires
        forall|j: int|
            0 <= j < ls.len() ==> {
                &&& (#[trigger] ls[j]).ledger_id != requested
                &&& ls[j].namespace != Some(requested)
                &&& short_reference(ls[j].ledger_id) != requested
            },
    ensures
        matching_ledgers(ls, requested) == Seq::<Seq<char>>::empty(),
    decreases ls.len(),
{
    if ls.len() > 0 {
        let front = ls.drop_last();
        assert forall|j: int| 0 <= j < front.len() implies {
            &&& (#[trigger] front[j]).ledger_id != requested
            &&& front[j].namespace != Some(requested)
            &&& short_reference(front[j].ledger_id) != requested
        } by {
            assert(front[j] == ls[j]);
        }
        lemma_nothing_answers(front, requested);
        assert(ls.last() == ls[ls.len() - 1]);
    }
}

proof fn lemma_only_one_answers(ls: Seq<MetadataView>, i: int, requested: Seq<char>)
    requires
        0 <= i < ls.len(),
        answers_to(ls[i], requested),
        forall|j: int|
            0 <= j < ls.len() && j != i ==> {
                &&& (#[trigger] ls[j]).ledger_id != requested
                &&& ls[j].namespace != Some(requested)
                &&& short_reference(ls[j].ledger_id) != requested
            },
    ensures
        matching_ledgers(ls, requested) == seq![ls[i].ledger_id],
    decreases ls.len(),
{
    let front = ls.drop_last();
    if i == ls.len() - 1 {
        assert forall|j: int| 0 <= j < front.len() implies {
            &&& (#[trigger] front[j]).ledger_id != requested
            &&& front[j].namespace != Some(requested)
            &&& short_reference(front[j].ledger_id) != requested
        } by {
            assert(front[j] == ls[j]);
        }
        lemma_nothing_answers(front, requested);
        assert(matching_ledgers(ls, requested) =~= Seq::<Seq<char>>::empty().push(ls[i].ledger_id));
    } else {
        assert forall|j: int| 0 <= j < front.len() && j != i implies {
            &&& (#[trigger] front[j]).ledger_id != requested
            &&& front[j].namespace != Some(requested)
            &&& short_reference(front[j].ledger_id) != requested
        } by {
            assert(front[j] == ls[j]);
        }
        assert(front[i] == ls[i]);
        lemma_only_one_answers(front, i, requested);
        let last = ls[ls.len() - 1];
        assert(ls.last() == last);
        assert(!answers_to(last, requested));
    }
}

proof fn lemma_id_match_is_listed(ls: Seq<MetadataView>, i: int, requested: Seq<char>)
    requires
        0 <= i < ls.len(),
        ls[i].ledger_id == requested,
    ensures
        matching_ledgers(ls, requested).contains(requested),
    decreases ls.len(),
{
    let front = ls.drop_last();
    if i == ls.len() - 1 {
        assert(ls.last() == ls[i]);
        let m = matching_ledgers(ls, requested);
        assert(m == matching_ledgers(front, requested).push(requested));
        assert(m[m.len() - 1] == requested);
    } else {
        assert(front[i] == ls[i]);
        lemma_id_match_is_listed(front, i, requested);
        let w = choose|k: int|
            0 <= k < matching_ledgers(front, requested).len() && matching_ledgers(
                front,
                requested,
            )[k] == requested;
        if answers_to(ls.last(), requested) {
            assert(matching_ledgers(ls, requested)[w] == requested);
        }
    }
}

/// A ledger answers to its own ID: the ledgers found for a reference
/// always include the one whose ID is that reference, and when no other
/// ledger answers to it (by ID, namespace or short reference) the reference
/// resolves to that ID.
pub proof fn law_ledger_id_resolves_to_itself(ls: Seq<MetadataView>, i: int, requested: Seq<char>)
    requires
        0 <= i < ls.len(),
        ls[i].ledger_id == requested,
    ensures
        matching_ledgers(ls, requested).contains(requested),
        (forall|j: int|
            0 <= j < ls.len() && j != i ==> {
                &&& (#[trigger] ls[j]).ledger_id != requested
                &&& ls[j].namespace != Some(requested)
                &&& short_reference(ls[j].ledger_id) != requested
            }) ==> resolve_advertised_spec(requested, Some(ls)) == Ok::<Seq<char>, Failure>(
            requested,
        ),
{
    lemma_id_match_is_listed(ls, i, requested);
    if forall|j: int|
        0 <= j < ls.len() && j != i ==> {
            &&& (#[trigger] ls[j]).ledger_id != requested
            &&& ls[j].namespace != Some(requested)
            &&& short_reference(ls[j].ledger_id) != requested
        } {
        lemma_only_one_answers(ls, i, requested);
    }
}

} // verus!
