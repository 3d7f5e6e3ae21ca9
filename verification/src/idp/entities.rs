//! Entity graph responses: decoding the JSON:API documents the entity graph
//! returns, and the related entities named by their relationships.
use vstd::prelude::*;

use crate::idp::entity_query::{views, NormalizedQueryOptions};
use crate::idp::migrate::entries_get;
use crate::strmap::key_views;
use crate::json::{
    copy_json, entry_get, jentries, jv, jvs, number_as_u64, number_u64, vstr, Json, JsonV,
};
use crate::text::{
    concat2, concat3, debug_quoted, debug_str, decimal, from_chars, join, join_strings, owned,
    slice_chars, starts_with, starts_with_chars, str_eq, to_chars, usize_to_string,
};

verus! {

/// A related entity named in a relationship: its kind, its id, and the values
/// of the edge.
pub struct ResourceIdentifier {
    pub kind: String,
    pub id: String,
    pub meta: Vec<(String, Json)>,
}

/// A [`ResourceIdentifier`] as plain values.
pub struct IdentV {
    pub kind: Seq<char>,
    pub id: Seq<char>,
    pub meta: Seq<(Seq<char>, JsonV)>,
}

pub open spec fn ident_view(r: ResourceIdentifier) -> IdentV {
    IdentV { kind: r.kind@, id: r.id@, meta: jentries(r.meta@) }
}

pub open spec fn ident_views(v: Seq<ResourceIdentifier>) -> Seq<IdentV> {
    Seq::new(v.len(), |i: int| ident_view(v[i]))
}

/// An optional map member: empty when absent, its entries when an object;
/// anything else does not decode.
pub open spec fn optional_map(v: Option<JsonV>) -> Option<Seq<(Seq<char>, JsonV)>> {
    match v {
        None => Some(Seq::empty()),
        Some(JsonV::Object(m)) => Some(m),
        _ => None,
    }
}

/// A related entity decoded from an object with string `type` and `id` and
/// an optional `meta` object.
pub open spec fn decode_identifier(j: JsonV) -> Option<IdentV> {
    match j {
        JsonV::Object(es) => match (
            vstr(entry_get(es, "type"@)),
            vstr(entry_get(es, "id"@)),
            optional_map(entry_get(es, "meta"@)),
        ) {
            (Some(k), Some(i), Some(m)) => Some(IdentV { kind: k, id: i, meta: m }),
            _ => None,
        },
        _ => None,
    }
}

/// Every item decoded as a related entity, or nothing when one does not.
pub open spec fn decode_identifiers(items: Seq<JsonV>) -> Option<Seq<IdentV>>
    decreases items.len(),
{
    if items.len() == 0 {
        Some(Seq::empty())
    } else {
        match (decode_identifiers(items.drop_last()), decode_identifier(items.last())) {
            (Some(p), Some(x)) => Some(p.push(x)),
            _ => None,
        }
    }
}

/// The related entities of a relationship's `data`: none for null, the list
/// when it is a list of identifiers, or else the one identifier it is; nothing
/// when it cannot be decoded.
pub open spec fn relationship_identifiers(v: JsonV) -> Option<Seq<IdentV>> {
    match v {
        JsonV::Null => Some(Seq::empty()),
        JsonV::Array(items) => match decode_identifiers(items) {
            Some(l) => Some(l),
            None => match decode_identifier(v) {
                Some(x) => Some(seq![x]),
                None => None,
            },
        },
        _ => match decode_identifier(v) {
            Some(x) => Some(seq![x]),
            None => None,
        },
    }
}

fn optional_map_exec(v: Option<&Json>) -> (r: Option<Vec<(String, Json)>>)
    ensures
        match r {
            Some(m) => optional_map(
                match v {
                    Some(x) => Some(jv(*x)),
                    None => None,
                },
            ) == Some(jentries(m@)),
            None => optional_map(
                match v {
                    Some(x) => Some(jv(*x)),
                    None => None,
                },
            ) is None,
        },
{
    match v {
        None => {
            let m: Vec<(String, Json)> = Vec::new();
            assert(jentries(m@) =~= Seq::<(Seq<char>, JsonV)>::empty());
            Some(m)
        },
        Some(x) => match x {
            Json::Object(_) => match copy_json(x) {
                Json::Object(m) => {
                    assert(jentries(m@) =~= jv(*x)->Object_0);
                    Some(m)
                },
                _ => None,
            },
            _ => None,
        },
    }
}

fn string_member(es: &Vec<(String, Json)>, key: &str) -> (r: Option<String>)
    ensures
        match r {
            Some(s) => vstr(entry_get(jentries(es@), key@)) == Some(s@),
            None => vstr(entry_get(jentries(es@), key@)) is None,
        },
{
    match entries_get(es, key) {
        Some(Json::Str(s)) => Some(s.clone()),
        _ => None,
    }
}

/// Decodes a related entity (see [`decode_identifier`]).
pub fn decode_identifier_exec(j: &Json) -> (r: Option<ResourceIdentifier>)
    ensures
        match r {
            Some(x) => decode_identifier(jv(*j)) == Some(ident_view(x)),
            None => decode_identifier(jv(*j)) is None,
        },
{
    match j {
        Json::Object(es) => {
            assert(jv(*j)->Object_0 =~= jentries(es@));
            let k = string_member(es, "type");
            let i = string_member(es, "id");
            let m = optional_map_exec(entries_get(es, "meta"));
            match (k, i, m) {
                (Some(k), Some(i), Some(m)) => Some(ResourceIdentifier { kind: k, id: i, meta: m }),
                _ => None,
            }
        },
        _ => None,
    }
}

fn decode_identifiers_exec(items: &Vec<Json>) -> (r: Option<Vec<ResourceIdentifier>>)
    ensures
        match r {
            Some(l) => decode_identifiers(jvs(items@)) == Some(ident_views(l@)),
            None => decode_identifiers(jvs(items@)) is None,
        },
{
    let ghost iv = jvs(items@);
    let mut out: Vec<ResourceIdentifier> = Vec::new();
    let mut i: usize = 0;
    assert(ident_views(out@) =~= Seq::<IdentV>::empty());
    assert(iv.take(0) =~= Seq::<JsonV>::empty());
    while i < items.len()
        invariant
            i <= items@.len(),
            iv == jvs(items@),
            decode_identifiers(iv.take(i as int)) == Some(ident_views(out@)),
        decreases items@.len() - i,
    {
        assert(iv.take(i + 1).drop_last() =~= iv.take(i as int));
        assert(iv.take(i + 1).last() == jv(items@[i as int]));
        match decode_identifier_exec(&items[i]) {
            Some(x) => {
                let ghost before = ident_views(out@);
                out.push(x);
                assert(ident_views(out@) =~= before.push(ident_view(x)));
            },
            None => {
                proof {
                    lemma_decode_identifiers_fails(iv, i as int + 1);
                }
                return None;
            },
        }
        i += 1;
    }
    assert(iv.take(items@.len() as int) =~= iv);
    Some(out)
}

proof fn lemma_decode_identifiers_fails(items: Seq<JsonV>, n: int)
    requires
        0 < n <= items.len(),
        decode_identifiers(items.take(n)) is None,
    ensures
        decode_identifiers(items) is None,
    decreases items.len() - n,
{
    if n < items.len() {
        assert(items.take(n + 1).drop_last() =~= items.take(n));
        lemma_decode_identifiers_fails(items, n + 1);
    } else {
        assert(items.take(n) =~= items);
    }
}

fn single(x: ResourceIdentifier) -> (r: Vec<ResourceIdentifier>)
    ensures
        ident_views(r@) == seq![ident_view(x)],
{
    let mut r: Vec<ResourceIdentifier> = Vec::new();
    r.push(x);
    assert(ident_views(r@) =~= seq![ident_view(x)]);
    r
}

/// The related entities of a relationship (see [`relationship_identifiers`]).
pub fn relationship_identifiers_exec(v: &Json) -> (r: Option<Vec<ResourceIdentifier>>)
    ensures
        match r {
            Some(l) => relationship_identifiers(jv(*v)) == Some(ident_views(l@)),
            None => relationship_identifiers(jv(*v)) is None,
        },
{
    match v {
        Json::Null => {
            let l: Vec<ResourceIdentifier> = Vec::new();
            assert(ident_views(l@) =~= Seq::<IdentV>::empty());
            Some(l)
        },
        Json::Array(items) => {
            assert(jv(*v)->Array_0 =~= jvs(items@));
            match decode_identifiers_exec(items) {
                Some(l) => Some(l),
                None => match decode_identifier_exec(v) {
                    Some(x) => Some(single(x)),
                    None => None,
                },
            }
        },
        _ => match decode_identifier_exec(v) {
            Some(x) => Some(single(x)),
            None => None,
        },
    }
}

/// An entity of the graph: its kind, its id, its attributes, and the `data`
/// of each of its relationships.
pub struct EntityResource {
    pub kind: String,
    pub id: String,
    pub attributes: Vec<(String, Json)>,
    pub relationships: Vec<(String, Json)>,
}

/// An [`EntityResource`] as plain values.
pub struct EntityV {
    pub kind: Seq<char>,
    pub id: Seq<char>,
    pub attributes: Seq<(Seq<char>, JsonV)>,
    pub relationships: Seq<(Seq<char>, JsonV)>,
}

pub open spec fn entity_view(e: EntityResource) -> EntityV {
    EntityV {
        kind: e.kind@,
        id: e.id@,
        attributes: jentries(e.attributes@),
        relationships: jentries(e.relationships@),
    }
}

pub open spec fn entity_views(v: Seq<EntityResource>) -> Seq<EntityV> {
    Seq::new(v.len(), |i: int| entity_view(v[i]))
}

/// The `data` of each relationship; nothing when one is not an object with a
/// `data` member (a relationship without linkage is unknown, not empty).
pub open spec fn relationship_data(rs: Seq<(Seq<char>, JsonV)>) -> Option<Seq<(Seq<char>, JsonV)>>
    decreases rs.len(),
{
    if rs.len() == 0 {
        Some(Seq::empty())
    } else {
        match (relationship_data(rs.drop_last()), rs.last().1) {
            (Some(p), JsonV::Object(o)) => match entry_get(o, "data"@) {
                Some(d) => Some(p.push((rs.last().0, d))),
                None => None,
            },
            _ => None,
        }
    }
}

/// An entity decoded from an object with string `type` and `id`, and
/// optional `attributes` and `relationships` objects.
pub open spec fn decode_entity(j: JsonV) -> Option<EntityV> {
    match j {
        JsonV::Object(es) => match (
            vstr(entry_get(es, "type"@)),
            vstr(entry_get(es, "id"@)),
            optional_map(entry_get(es, "attributes"@)),
            optional_map(entry_get(es, "relationships"@)),
        ) {
            (Some(k), Some(i), Some(a), Some(rs)) => match relationship_data(rs) {
                Some(r) => Some(EntityV { kind: k, id: i, attributes: a, relationships: r }),
                None => None,
            },
            _ => None,
        },
        _ => None,
    }
}

/// Every item decoded as an entity, or nothing when one does not.
pub open spec fn decode_entities(items: Seq<JsonV>) -> Option<Seq<EntityV>>
    decreases items.len(),
{
    if items.len() == 0 {
        Some(Seq::empty())
    } else {
        match (decode_entities(items.drop_last()), decode_entity(items.last())) {
            (Some(p), Some(x)) => Some(p.push(x)),
            _ => None,
        }
    }
}

/// A page of the entity graph: the entities, those included for their
/// relationships, the total count, the server's warnings, and the cursor of
/// the next page (empty at the end).
pub struct EntitiesResponse {
    pub data: Vec<EntityResource>,
    pub included: Vec<EntityResource>,
    pub total_count: Option<usize>,
    pub warnings: Option<Json>,
    pub next_cursor: String,
}

/// An [`EntitiesResponse`] as plain values.
pub struct ResponseV {
    pub data: Seq<EntityV>,
    pub included: Seq<EntityV>,
    pub total_count: Option<usize>,
    pub warnings: Option<JsonV>,
    pub next_cursor: Seq<char>,
}

pub open spec fn response_view(r: EntitiesResponse) -> ResponseV {
    ResponseV {
        data: entity_views(r.data@),
        included: entity_views(r.included@),
        total_count: r.total_count,
        warnings: match r.warnings {
            Some(w) => Some(jv(w)),
            None => None,
        },
        next_cursor: r.next_cursor@,
    }
}

/// The total count of a page: absent or null is none; otherwise a whole
/// number that fits in a `usize`.
pub open spec fn decode_total(v: Option<JsonV>) -> Option<Option<usize>> {
    match v {
        None => Some(None),
        Some(JsonV::Null) => Some(None),
        Some(JsonV::Number(t)) => match number_u64(t) {
            Some(n) => if n <= usize::MAX {
                Some(Some(n as usize))
            } else {
                None
            },
            None => None,
        },
        _ => None,
    }
}

/// The next cursor of the `page` member of `meta`: empty when absent.
pub open spec fn decode_cursor(v: Option<JsonV>) -> Option<Seq<char>> {
    match v {
        None => Some(Seq::empty()),
        Some(JsonV::Object(p)) => match entry_get(p, "next_cursor"@) {
            None => Some(Seq::empty()),
            Some(JsonV::Str(c)) => Some(c),
            _ => None,
        },
        _ => None,
    }
}

/// A page decoded from the entity graph's JSON:API document: `data` must be a
/// list of entities; `included` and `meta` are optional.
pub open spec fn decode_response(j: JsonV) -> Option<ResponseV> {
    match j {
        JsonV::Object(es) => {
            let data = match entry_get(es, "data"@) {
                Some(JsonV::Array(items)) => decode_entities(items),
                _ => None,
            };
            let included = match entry_get(es, "included"@) {
                None => Some(Seq::empty()),
                Some(JsonV::Array(items)) => decode_entities(items),
                _ => None,
            };
            let meta: Option<(Option<usize>, Option<JsonV>, Seq<char>)> = match entry_get(es, "meta"@) {
                None => Some((None, None, Seq::empty())),
                Some(JsonV::Object(m)) => match (
                    decode_total(entry_get(m, "total_count"@)),
                    decode_cursor(entry_get(m, "page"@)),
                ) {
                    (Some(t), Some(c)) => Some(
                        (
                            t,
                            match entry_get(m, "warnings"@) {
                                None => None,
                                Some(JsonV::Null) => None,
                                Some(w) => Some(w),
                            },
                            c,
                        ),
                    ),
                    _ => None,
                },
                _ => None,
            };
            match (data, included, meta) {
                (Some(d), Some(i), Some((t, w, c))) => Some(
                    ResponseV { data: d, included: i, total_count: t, warnings: w, next_cursor: c },
                ),
                _ => None,
            }
        },
        _ => None,
    }
}

fn relationship_data_exec(rs: &Vec<(String, Json)>) -> (r: Option<Vec<(String, Json)>>)
    ensures
        match r {
            Some(d) => relationship_data(jentries(rs@)) == Some(jentries(d@)),
            None => relationship_data(jentries(rs@)) is None,
        },
{
    let ghost rv = jentries(rs@);
    let mut out: Vec<(String, Json)> = Vec::new();
    let mut i: usize = 0;
    assert(jentries(out@) =~= Seq::<(Seq<char>, JsonV)>::empty());
    assert(rv.take(0) =~= Seq::<(Seq<char>, JsonV)>::empty());
    while i < rs.len()
        invariant
            i <= rs@.len(),
            rv == jentries(rs@),
            relationship_data(rv.take(i as int)) == Some(jentries(out@)),
        decreases rs@.len() - i,
    {
        assert(rv.take(i + 1).drop_last() =~= rv.take(i as int));
        assert(rv.take(i + 1).last() == (rs@[i as int].0@, jv(rs@[i as int].1)));
        let found = match &rs[i].1 {
            Json::Object(o) => {
                assert(jv(rs@[i as int].1)->Object_0 =~= jentries(o@));
                match entries_get(o, "data") {
                    Some(d) => Some(copy_json(d)),
                    None => None,
                }
            },
            _ => None,
        };
        match found {
            Some(d) => {
                let ghost before = jentries(out@);
                let ghost dv = jv(d);
                out.push((rs[i].0.clone(), d));
                assert(jentries(out@) =~= before.push((rs@[i as int].0@, dv)));
            },
            None => {
                proof {
                    lemma_relationship_data_fails(rv, i as int + 1);
                }
                return None;
            },
        }
        i += 1;
    }
    assert(rv.take(rs@.len() as int) =~= rv);
    Some(out)
}

proof fn lemma_relationship_data_fails(rs: Seq<(Seq<char>, JsonV)>, n: int)
    requires
        0 < n <= rs.len(),
        relationship_data(rs.take(n)) is None,
    ensures
        relationship_data(rs) is None,
    decreases rs.len() - n,
{
    if n < rs.len() {
        assert(rs.take(n + 1).drop_last() =~= rs.take(n));
        lemma_relationship_data_fails(rs, n + 1);
    } else {
        assert(rs.take(n) =~= rs);
    }
}

/// Decodes an entity (see [`decode_entity`]).
pub fn decode_entity_exec(j: &Json) -> (r: Option<EntityResource>)
    ensures
        match r {
            Some(x) => decode_entity(jv(*j)) == Some(entity_view(x)),
            None => decode_entity(jv(*j)) is None,
        },
{
    match j {
        Json::Object(es) => {
            assert(jv(*j)->Object_0 =~= jentries(es@));
            let k = string_member(es, "type");
            let i = string_member(es, "id");
            let a = optional_map_exec(entries_get(es, "attributes"));
            let rs = optional_map_exec(entries_get(es, "relationships"));
            match (k, i, a, rs) {
                (Some(k), Some(i), Some(a), Some(rs)) => match relationship_data_exec(&rs) {
                    Some(r) => Some(EntityResource { kind: k, id: i, attributes: a, relationships: r }),
                    None => None,
                },
                _ => None,
            }
        },
        _ => None,
    }
}

fn decode_entities_exec(items: &Vec<Json>) -> (r: Option<Vec<EntityResource>>)
    ensures
        match r {
            Some(l) => decode_entities(jvs(items@)) == Some(entity_views(l@)),
            None => decode_entities(jvs(items@)) is None,
        },
{
    let ghost iv = jvs(items@);
    let mut out: Vec<EntityResource> = Vec::new();
    let mut i: usize = 0;
    assert(entity_views(out@) =~= Seq::<EntityV>::empty());
    assert(iv.take(0) =~= Seq::<JsonV>::empty());
    while i < items.len()
        invariant
            i <= items@.len(),
            iv == jvs(items@),
            decode_entities(iv.take(i as int)) == Some(entity_views(out@)),
        decreases items@.len() - i,
    {
        assert(iv.take(i + 1).drop_last() =~= iv.take(i as int));
        assert(iv.take(i + 1).last() == jv(items@[i as int]));
        match decode_entity_exec(&items[i]) {
            Some(x) => {
                let ghost before = entity_views(out@);
                out.push(x);
                assert(entity_views(out@) =~= before.push(entity_view(x)));
            },
            None => {
                proof {
                    lemma_decode_entities_fails(iv, i as int + 1);
                }
                return None;
            },
        }
        i += 1;
    }
    assert(iv.take(items@.len() as int) =~= iv);
    Some(out)
}

proof fn lemma_decode_entities_fails(items: Seq<JsonV>, n: int)
    requires
        0 < n <= items.len(),
        decode_entities(items.take(n)) is None,
    ensures
        decode_entities(items) is None,
    decreases items.len() - n,
{
    if n < items.len() {
        assert(items.take(n + 1).drop_last() =~= items.take(n));
        lemma_decode_entities_fails(items, n + 1);
    } else {
        assert(items.take(n) =~= items);
    }
}

fn entity_list(v: Option<&Json>, absent_ok: bool) -> (r: Option<Vec<EntityResource>>)
    ensures
        match r {
            Some(l) => match v {
                None => absent_ok && entity_views(l@) == Seq::<EntityV>::empty(),
                Some(x) => match jv(*x) {
                    JsonV::Array(items) => decode_entities(items) == Some(entity_views(l@)),
                    _ => false,
                },
            },
            None => match v {
                None => !absent_ok,
                Some(x) => match jv(*x) {
                    JsonV::Array(items) => decode_entities(items) is None,
                    _ => true,
                },
            },
        },
{
    match v {
        None => if absent_ok {
            let l: Vec<EntityResource> = Vec::new();
            assert(entity_views(l@) =~= Seq::<EntityV>::empty());
            Some(l)
        } else {
            None
        },
        Some(x) => match x {
            Json::Array(items) => {
                assert(jv(*x)->Array_0 =~= jvs(items@));
                decode_entities_exec(items)
            },
            _ => None,
        },
    }
}

/// Decodes a page of the entity graph (see [`decode_response`]).
pub fn decode_response_exec(j: &Json) -> (r: Option<EntitiesResponse>)
    ensures
        match r {
            Some(x) => decode_response(jv(*j)) == Some(response_view(x)),
            None => decode_response(jv(*j)) is None,
        },
{
    let es = match j {
        Json::Object(es) => es,
        _ => {
            return None;
        },
    };
    assert(jv(*j)->Object_0 =~= jentries(es@));
    let data = entity_list(entries_get(es, "data"), false);
    let included = entity_list(entries_get(es, "included"), true);
    let (total, warnings, cursor) = match entries_get(es, "meta") {
        None => (Some(None), None, Some(String::new())),
        Some(mv) => match mv {
            Json::Object(m) => {
                assert(jv(*mv)->Object_0 =~= jentries(m@));
                let total: Option<Option<usize>> = match entries_get(m, "total_count") {
                    None => Some(None),
                    Some(Json::Null) => Some(None),
                    Some(Json::Number(t)) => match number_as_u64(t.as_str()) {
                        Some(n) => if n <= usize::MAX as u64 {
                            Some(Some(n as usize))
                        } else {
                            None
                        },
                        None => None,
                    },
                    _ => None,
                };
                let cursor: Option<String> = match entries_get(m, "page") {
                    None => Some(String::new()),
                    Some(pv) => match pv {
                        Json::Object(p) => {
                            assert(jv(*pv)->Object_0 =~= jentries(p@));
                            match entries_get(p, "next_cursor") {
                                None => Some(String::new()),
                                Some(Json::Str(c)) => Some(c.clone()),
                                _ => None,
                            }
                        },
                        _ => None,
                    },
                };
                let warnings = match entries_get(m, "warnings") {
                    None => None,
                    Some(Json::Null) => None,
                    Some(w) => Some(copy_json(w)),
                };
                (total, warnings, cursor)
            },
            _ => (None, None, None),
        },
    };
    let ghost ev = jentries(es@);
    let ghost spec_meta: Option<(Option<usize>, Option<JsonV>, Seq<char>)> = match entry_get(ev, "meta"@) {
        None => Some((None, None, Seq::empty())),
        Some(JsonV::Object(m)) => match (
            decode_total(entry_get(m, "total_count"@)),
            decode_cursor(entry_get(m, "page"@)),
        ) {
            (Some(t), Some(c)) => Some(
                (
                    t,
                    match entry_get(m, "warnings"@) {
                        None => None,
                        Some(JsonV::Null) => None,
                        Some(w) => Some(w),
                    },
                    c,
                ),
            ),
            _ => None,
        },
        _ => None,
    };
    assert(match (total, cursor) {
        (Some(t), Some(c)) => spec_meta == Some((
            t,
            match warnings {
                Some(w) => Some(jv(w)),
                None => None,
            },
            c@,
        )),
        _ => spec_meta is None,
    });
    match (data, included, total, cursor) {
        (Some(d), Some(i), Some(t), Some(c)) => Some(
            EntitiesResponse { data: d, included: i, total_count: t, warnings, next_cursor: c },
        ),
        _ => None,
    }
}

/// How an entity is named in results: its reference, kind, id, display name,
/// and (for related entities) its attributes.
pub struct EntityIdentity {
    pub entity_ref: String,
    pub kind: String,
    pub id: String,
    pub display_name: Option<String>,
    pub fields: Vec<(String, Json)>,
}

/// An [`EntityIdentity`] as plain values.
pub struct IdentityV {
    pub entity_ref: Seq<char>,
    pub kind: Seq<char>,
    pub id: Seq<char>,
    pub display_name: Option<Seq<char>>,
    pub fields: Seq<(Seq<char>, JsonV)>,
}

pub open spec fn opt_text(o: Option<String>) -> Option<Seq<char>> {
    match o {
        Some(s) => Some(s@),
        None => None,
    }
}

pub open spec fn identity_view(e: EntityIdentity) -> IdentityV {
    IdentityV {
        entity_ref: e.entity_ref@,
        kind: e.kind@,
        id: e.id@,
        display_name: opt_text(e.display_name),
        fields: jentries(e.fields@),
    }
}

/// The reference of an entity: its id when that is already a reference,
/// else `ref:<kind>:<id>`.
pub open spec fn ref_of(kind: Seq<char>, id: Seq<char>) -> Seq<char> {
    if starts_with(id, "ref:"@) {
        id
    } else {
        "ref:"@ + kind + ":"@ + id
    }
}

/// The display name of an entity: the first of its `display_name`, `name`,
/// `title` and `summary` attributes that is a string.
pub open spec fn display_name_of(attrs: Seq<(Seq<char>, JsonV)>) -> Option<Seq<char>> {
    match vstr(entry_get(attrs, "display_name"@)) {
        Some(n) => Some(n),
        None => match vstr(entry_get(attrs, "name"@)) {
            Some(n) => Some(n),
            None => match vstr(entry_get(attrs, "title"@)) {
                Some(n) => Some(n),
                None => vstr(entry_get(attrs, "summary"@)),
            },
        },
    }
}

/// The identity of an entity: its `ref` attribute when it has one; its
/// attributes only when asked for.
pub open spec fn entity_identity(e: EntityV, include_fields: bool) -> IdentityV {
    IdentityV {
        entity_ref: match vstr(entry_get(e.attributes, "ref"@)) {
            Some(r) => r,
            None => ref_of(e.kind, e.id),
        },
        kind: e.kind,
        id: e.id,
        display_name: display_name_of(e.attributes),
        fields: if include_fields {
            e.attributes
        } else {
            Seq::empty()
        },
    }
}

/// The identity of a related entity known only by its identifier.
pub open spec fn identifier_identity(x: IdentV) -> IdentityV {
    IdentityV {
        entity_ref: ref_of(x.kind, x.id),
        kind: x.kind,
        id: x.id,
        display_name: None,
        fields: Seq::empty(),
    }
}

fn ref_exec(kind: &str, id: &str) -> (r: String)
    ensures
        r@ == ref_of(kind@, id@),
{
    if starts_with_chars(&to_chars(id), &to_chars("ref:")) {
        owned(id)
    } else {
        let mut r = concat3("ref:", kind, ":");
        r.append(id);
        r
    }
}

fn attr_str(attrs: &Vec<(String, Json)>, key: &str) -> (r: Option<String>)
    ensures
        opt_text(r) == vstr(entry_get(jentries(attrs@), key@)),
{
    match entries_get(attrs, key) {
        Some(Json::Str(s)) => Some(s.clone()),
        _ => None,
    }
}

pub(crate) fn copy_entries(es: &Vec<(String, Json)>) -> (r: Vec<(String, Json)>)
    ensures
        jentries(r@) == jentries(es@),
{
    let mut out: Vec<(String, Json)> = Vec::new();
    let mut i: usize = 0;
    while i < es.len()
        invariant
            i <= es@.len(),
            jentries(out@) == jentries(es@).take(i as int),
        decreases es@.len() - i,
    {
        let ghost before = jentries(out@);
        let c = copy_json(&es[i].1);
        let ghost cv = jv(c);
        out.push((es[i].0.clone(), c));
        assert(jentries(out@) =~= before.push((es@[i as int].0@, cv)));
        assert(jentries(es@).take(i + 1) =~= jentries(es@).take(i as int).push((es@[i as int].0@, cv)));
        i += 1;
    }
    assert(jentries(es@).take(es@.len() as int) =~= jentries(es@));
    out
}

fn empty_entries() -> (r: Vec<(String, Json)>)
    ensures
        jentries(r@) == Seq::<(Seq<char>, JsonV)>::empty(),
{
    let r: Vec<(String, Json)> = Vec::new();
    assert(jentries(r@) =~= Seq::<(Seq<char>, JsonV)>::empty());
    r
}

/// The identity of an entity (see [`entity_identity`]).
pub fn entity_identity_exec(e: &EntityResource, include_fields: bool) -> (r: EntityIdentity)
    ensures
        identity_view(r) == entity_identity(entity_view(*e), include_fields),
{
    let entity_ref = match attr_str(&e.attributes, "ref") {
        Some(r) => r,
        None => ref_exec(e.kind.as_str(), e.id.as_str()),
    };
    let display_name = match attr_str(&e.attributes, "display_name") {
        Some(n) => Some(n),
        None => match attr_str(&e.attributes, "name") {
            Some(n) => Some(n),
            None => match attr_str(&e.attributes, "title") {
                Some(n) => Some(n),
                None => attr_str(&e.attributes, "summary"),
            },
        },
    };
    EntityIdentity {
        entity_ref,
        kind: e.kind.clone(),
        id: e.id.clone(),
        display_name,
        fields: if include_fields {
            copy_entries(&e.attributes)
        } else {
            empty_entries()
        },
    }
}

/// The identity of a related entity known only by its identifier.
pub fn identifier_identity_exec(x: &ResourceIdentifier) -> (r: EntityIdentity)
    ensures
        identity_view(r) == identifier_identity(ident_view(*x)),
{
    EntityIdentity {
        entity_ref: ref_exec(x.kind.as_str(), x.id.as_str()),
        kind: x.kind.clone(),
        id: x.id.clone(),
        display_name: None,
        fields: empty_entries(),
    }
}

/// A related entity in a relationship's sample, with the values of the edge.
pub struct RelatedEntity {
    pub entity: EntityIdentity,
    pub edge_fields: Vec<(String, Json)>,
}

/// A [`RelatedEntity`] as plain values.
pub struct RelatedV {
    pub entity: IdentityV,
    pub edge_fields: Seq<(Seq<char>, JsonV)>,
}

pub open spec fn related_view(r: RelatedEntity) -> RelatedV {
    RelatedV { entity: identity_view(r.entity), edge_fields: jentries(r.edge_fields@) }
}

pub open spec fn related_views(v: Seq<RelatedEntity>) -> Seq<RelatedV> {
    Seq::new(v.len(), |i: int| related_view(v[i]))
}

/// The key under which an included entity is found: `<kind>:<id>`.
pub open spec fn entity_key(kind: Seq<char>, id: Seq<char>) -> Seq<char> {
    kind + ":"@ + id
}

/// The included entity with a key; the last one when several share it.
pub open spec fn lookup_included(included: Seq<EntityV>, key: Seq<char>) -> Option<EntityV>
    decreases included.len(),
{
    if included.len() == 0 {
        None
    } else if entity_key(included.last().kind, included.last().id) == key {
        Some(included.last())
    } else {
        lookup_included(included.drop_last(), key)
    }
}

/// A related entity: described in full when it was included, else by its
/// identifier.
pub open spec fn related_entity(included: Seq<EntityV>, x: IdentV) -> RelatedV {
    RelatedV {
        entity: match lookup_included(included, entity_key(x.kind, x.id)) {
            Some(e) => entity_identity(e, true),
            None => identifier_identity(x),
        },
        edge_fields: x.meta,
    }
}

/// The related entities of a relationship: how many, whether the sample was
/// cut short, and the sample.
pub struct RelationshipSummary {
    pub count: usize,
    pub truncated: bool,
    pub sample: Vec<RelatedEntity>,
}

/// A [`RelationshipSummary`] as plain values.
pub struct SummaryV {
    pub count: nat,
    pub truncated: bool,
    pub sample: Seq<RelatedV>,
}

pub open spec fn summary_view(s: RelationshipSummary) -> SummaryV {
    SummaryV { count: s.count as nat, truncated: s.truncated, sample: related_views(s.sample@) }
}

pub open spec fn summary_views(v: Seq<(String, RelationshipSummary)>) -> Seq<(Seq<char>, SummaryV)> {
    Seq::new(v.len(), |i: int| (v[i].0@, summary_view(v[i].1)))
}

/// The summary of a relationship with the given related entities: the first
/// `limit` of them as the sample.
pub open spec fn relationship_summary(included: Seq<EntityV>, ids: Seq<IdentV>, limit: usize) -> SummaryV {
    let n = if ids.len() > limit {
        limit as int
    } else {
        ids.len() as int
    };
    SummaryV {
        count: ids.len(),
        truncated: ids.len() > limit,
        sample: Seq::new(n as nat, |i: int| related_entity(included, ids[i])),
    }
}

/// The warning for a relationship whose data could not be decoded.
pub open spec fn undecodable_warning(name: Seq<char>, entity_ref: Seq<char>) -> Seq<char> {
    "Relationship "@ + debug_quoted(name) + " on "@ + entity_ref
        + " could not be decoded; its contents are unknown."@
}

/// The warning for a relationship with more related entities than the sample.
pub open spec fn truncated_warning(name: Seq<char>, entity_ref: Seq<char>, n: int, limit: int) -> Seq<char> {
    "Relationship "@ + debug_quoted(name) + " on "@ + entity_ref + " has "@ + decimal(n)
        + " entities; sample limited to "@ + decimal(limit)
        + ". Re-query that relation more narrowly if needed."@
}

/// The summaries of the relationships `rs` of an entity whose reference is
/// `entity_ref`, in order, and the warnings they give: one that cannot be
/// decoded is left out with a warning, one cut short is kept with a warning.
pub open spec fn relationship_summaries(
    entity_ref: Seq<char>,
    included: Seq<EntityV>,
    limit: usize,
    rs: Seq<(Seq<char>, JsonV)>,
) -> (Seq<(Seq<char>, SummaryV)>, Seq<Seq<char>>)
    decreases rs.len(),
{
    if rs.len() == 0 {
        (Seq::empty(), Seq::empty())
    } else {
        let (p, w) = relationship_summaries(entity_ref, included, limit, rs.drop_last());
        let (name, data) = rs.last();
        match relationship_identifiers(data) {
            None => (p, w.push(undecodable_warning(name, entity_ref))),
            Some(ids) => (
                p.push((name, relationship_summary(included, ids, limit))),
                if ids.len() > limit {
                    w.push(truncated_warning(name, entity_ref, ids.len() as int, limit as int))
                } else {
                    w
                },
            ),
        }
    }
}

/// An entity of the results: its identity, its attributes and the summaries
/// of its relationships.
pub struct NormalizedEntity {
    pub entity: EntityIdentity,
    pub fields: Vec<(String, Json)>,
    pub relationships: Vec<(String, RelationshipSummary)>,
}

/// A [`NormalizedEntity`] as plain values.
pub struct NormEntityV {
    pub entity: IdentityV,
    pub fields: Seq<(Seq<char>, JsonV)>,
    pub relationships: Seq<(Seq<char>, SummaryV)>,
}

pub open spec fn norm_entity_view(n: NormalizedEntity) -> NormEntityV {
    NormEntityV {
        entity: identity_view(n.entity),
        fields: jentries(n.fields@),
        relationships: summary_views(n.relationships@),
    }
}

pub open spec fn norm_entity_views(v: Seq<NormalizedEntity>) -> Seq<NormEntityV> {
    Seq::new(v.len(), |i: int| norm_entity_view(v[i]))
}

/// An entity of the results and the warnings its relationships give.
pub open spec fn normalized_entity(e: EntityV, included: Seq<EntityV>, limit: usize) -> (NormEntityV, Seq<Seq<char>>) {
    let identity = entity_identity(e, false);
    let (rels, w) = relationship_summaries(identity.entity_ref, included, limit, e.relationships);
    (NormEntityV { entity: identity, fields: e.attributes, relationships: rels }, w)
}

fn lookup_included_exec<'a>(included: &'a Vec<EntityResource>, kind: &str, id: &str) -> (r: Option<&'a EntityResource>)
    ensures
        match r {
            Some(e) => lookup_included(entity_views(included@), entity_key(kind@, id@)) == Some(entity_view(*e)),
            None => lookup_included(entity_views(included@), entity_key(kind@, id@)) is None,
        },
{
    let key = concat3(kind, ":", id);
    let ghost iv = entity_views(included@);
    let mut i: usize = included.len();
    assert(iv.take(i as int) =~= iv);
    while i > 0
        invariant
            i <= included@.len(),
            iv == entity_views(included@),
            key@ == entity_key(kind@, id@),
            lookup_included(iv, key@) == lookup_included(iv.take(i as int), key@),
        decreases i,
    {
        let e = &included[i - 1];
        assert(iv.take(i as int).last() == entity_view(*e));
        assert(iv.take(i as int).drop_last() =~= iv.take(i - 1));
        let k = concat3(e.kind.as_str(), ":", e.id.as_str());
        if str_eq(k.as_str(), key.as_str()) {
            return Some(e);
        }
        i -= 1;
    }
    None
}

fn related_exec(included: &Vec<EntityResource>, x: &ResourceIdentifier) -> (r: RelatedEntity)
    ensures
        related_view(r) == related_entity(entity_views(included@), ident_view(*x)),
{
    let entity = match lookup_included_exec(included, x.kind.as_str(), x.id.as_str()) {
        Some(e) => entity_identity_exec(e, true),
        None => identifier_identity_exec(x),
    };
    RelatedEntity { entity, edge_fields: copy_entries(&x.meta) }
}

fn summary_exec(included: &Vec<EntityResource>, ids: &Vec<ResourceIdentifier>, limit: usize) -> (r: RelationshipSummary)
    ensures
        summary_view(r) == relationship_summary(entity_views(included@), ident_views(ids@), limit),
{
    let n = if ids.len() > limit {
        limit
    } else {
        ids.len()
    };
    let ghost spec_sample = relationship_summary(entity_views(included@), ident_views(ids@), limit).sample;
    let mut sample: Vec<RelatedEntity> = Vec::new();
    let mut i: usize = 0;
    while i < n
        invariant
            i <= n <= ids@.len(),
            n as int == spec_sample.len(),
            spec_sample == relationship_summary(entity_views(included@), ident_views(ids@), limit).sample,
            related_views(sample@) == spec_sample.take(i as int),
        decreases n - i,
    {
        let ghost before = related_views(sample@);
        assert(ident_views(ids@)[i as int] == ident_view(ids@[i as int]));
        assert(spec_sample[i as int] == related_entity(entity_views(included@), ident_view(ids@[i as int])));
        let r = related_exec(included, &ids[i]);
        let ghost rv = related_view(r);
        sample.push(r);
        assert(related_views(sample@) =~= before.push(rv));
        assert(spec_sample.take(i + 1) =~= spec_sample.take(i as int).push(spec_sample[i as int]));
        i += 1;
    }
    assert(spec_sample.take(n as int) =~= spec_sample);
    RelationshipSummary { count: ids.len(), truncated: ids.len() > limit, sample }
}

fn undecodable_warning_exec(name: &str, entity_ref: &str) -> (r: String)
    ensures
        r@ == undecodable_warning(name@, entity_ref@),
{
    let mut w = concat2("Relationship ", debug_str(name).as_str());
    w.append(" on ");
    w.append(entity_ref);
    w.append(" could not be decoded; its contents are unknown.");
    w
}

fn truncated_warning_exec(name: &str, entity_ref: &str, n: usize, limit: usize) -> (r: String)
    ensures
        r@ == truncated_warning(name@, entity_ref@, n as int, limit as int),
{
    let mut w = concat2("Relationship ", debug_str(name).as_str());
    w.append(" on ");
    w.append(entity_ref);
    w.append(" has ");
    w.append(usize_to_string(n).as_str());
    w.append(" entities; sample limited to ");
    w.append(usize_to_string(limit).as_str());
    w.append(". Re-query that relation more narrowly if needed.");
    w
}

pub open spec fn texts(w: Seq<String>) -> Seq<Seq<char>> {
    w.map_values(|m: String| m@)
}

/// An entity of the results, with the warnings of its relationships appended
/// to `warnings` (see [`normalized_entity`]).
pub fn normalize_entity(
    entity: &EntityResource,
    included: &Vec<EntityResource>,
    relation_limit: usize,
    warnings: &mut Vec<String>,
) -> (r: NormalizedEntity)
    ensures
        ({
            let (n, w) = normalized_entity(entity_view(*entity), entity_views(included@), relation_limit);
            &&& norm_entity_view(r) == n
            &&& texts(final(warnings)@) == texts(old(warnings)@) + w
        }),
{
    let identity = entity_identity_exec(entity, false);
    let ghost ev = entity_view(*entity);
    let ghost incv = entity_views(included@);
    let ghost rv = ev.relationships;
    let ghost w0 = texts(warnings@);
    let mut rels: Vec<(String, RelationshipSummary)> = Vec::new();
    let mut i: usize = 0;
    assert(rv.take(0) =~= Seq::<(Seq<char>, JsonV)>::empty());
    assert(summary_views(rels@) =~= Seq::<(Seq<char>, SummaryV)>::empty());
    assert(texts(warnings@) =~= w0 + Seq::<Seq<char>>::empty());
    while i < entity.relationships.len()
        invariant
            i <= entity.relationships@.len(),
            ev == entity_view(*entity),
            incv == entity_views(included@),
            rv == ev.relationships,
            identity_view(identity) == entity_identity(ev, false),
            ({
                let (p, w) = relationship_summaries(identity.entity_ref@, incv, relation_limit, rv.take(i as int));
                &&& summary_views(rels@) == p
                &&& texts(warnings@) == w0 + w
            }),
        decreases entity.relationships@.len() - i,
    {
        assert(rv.take(i + 1).drop_last() =~= rv.take(i as int));
        assert(rv.take(i + 1).last() == (entity.relationships@[i as int].0@, jv(entity.relationships@[i as int].1)));
        let name = &entity.relationships[i].0;
        let ghost (p0, wv0) = (summary_views(rels@), texts(warnings@));
        match relationship_identifiers_exec(&entity.relationships[i].1) {
            None => {
                warnings.push(undecodable_warning_exec(name.as_str(), identity.entity_ref.as_str()));
                assert(texts(warnings@) =~= wv0.push(undecodable_warning(name@, identity.entity_ref@)));
            },
            Some(ids) => {
                let summary = summary_exec(included, &ids, relation_limit);
                let ghost sv = summary_view(summary);
                rels.push((name.clone(), summary));
                assert(summary_views(rels@) =~= p0.push((name@, sv)));
                if ids.len() > relation_limit {
                    warnings.push(truncated_warning_exec(name.as_str(), identity.entity_ref.as_str(), ids.len(), relation_limit));
                    assert(texts(warnings@) =~= wv0.push(truncated_warning(name@, identity.entity_ref@, ids@.len() as int, relation_limit as int)));
                }
            },
        }
        i += 1;
    }
    assert(rv.take(entity.relationships@.len() as int) =~= rv);
    NormalizedEntity { entity: identity, fields: copy_entries(&entity.attributes), relationships: rels }
}

/// The warning for an entity without a relationship that was asked for.
pub open spec fn missing_relation_warning(relation: Seq<char>, id: Seq<char>) -> Seq<char> {
    "Requested relationship "@ + debug_quoted(relation) + " on "@ + id
        + " was not returned; absence does not establish that no related entities exist."@
}

/// The warnings for the requested relations an entity did not return.
pub open spec fn missing_relation_warnings(includes: Seq<Seq<char>>, e: EntityV) -> Seq<Seq<char>>
    decreases includes.len(),
{
    if includes.len() == 0 {
        Seq::empty()
    } else {
        let p = missing_relation_warnings(includes.drop_last(), e);
        if entry_get(e.relationships, includes.last()) is None {
            p.push(missing_relation_warning(includes.last(), e.id))
        } else {
            p
        }
    }
}

/// The entities of a page as results, and the warnings: for each entity, those
/// for missing requested relations, then those of its relationships.
pub open spec fn normalized_results(
    includes: Seq<Seq<char>>,
    included: Seq<EntityV>,
    limit: usize,
    data: Seq<EntityV>,
) -> (Seq<NormEntityV>, Seq<Seq<char>>)
    decreases data.len(),
{
    if data.len() == 0 {
        (Seq::empty(), Seq::empty())
    } else {
        let (p, w) = normalized_results(includes, included, limit, data.drop_last());
        let (n, w2) = normalized_entity(data.last(), included, limit);
        (p.push(n), w + missing_relation_warnings(includes, data.last()) + w2)
    }
}

/// Why a query stopped fetching pages.
#[derive(Clone, Copy, Debug)]
pub enum StopReason {
    EndOfResults,
    PageLimit,
    ResultLimit,
}

impl StopReason {
    /// The name reported for the reason.
    pub fn as_str(&self) -> (r: &'static str)
        ensures
            r@ == match *self {
                StopReason::EndOfResults => "end_of_results"@,
                StopReason::PageLimit => "page_limit"@,
                StopReason::ResultLimit => "result_limit"@,
            },
    {
        match self {
            StopReason::EndOfResults => "end_of_results",
            StopReason::PageLimit => "page_limit",
            StopReason::ResultLimit => "result_limit",
        }
    }
}

/// The server warnings of a page after the first.
pub struct PageWarnings {
    pub page: usize,
    pub warnings: Json,
}

/// The entities of a query, with how they were paged, the counts, and the
/// warnings.
pub struct NormalizedEntities {
    pub results: Vec<NormalizedEntity>,
    pub limit: usize,
    pub pages_fetched: usize,
    pub stop_reason: StopReason,
    pub max_results: Option<usize>,
    pub next_cursor: Option<String>,
    pub truncated: bool,
    pub count: usize,
    pub total_count: Option<usize>,
    pub warnings: Vec<String>,
    pub server_warnings: Option<Json>,
    pub additional_page_warnings: Vec<PageWarnings>,
}

/// [`NormalizedEntities`] as plain values.
pub struct ListV {
    pub results: Seq<NormEntityV>,
    pub limit: usize,
    pub pages_fetched: usize,
    pub stop_reason: StopReason,
    pub max_results: Option<usize>,
    pub next_cursor: Option<Seq<char>>,
    pub truncated: bool,
    pub count: usize,
    pub total_count: Option<usize>,
    pub warnings: Seq<Seq<char>>,
    pub server_warnings: Option<JsonV>,
    pub additional_page_warnings: Seq<(usize, JsonV)>,
}

pub open spec fn opt_json(o: Option<Json>) -> Option<JsonV> {
    match o {
        Some(j) => Some(jv(j)),
        None => None,
    }
}

pub open spec fn page_warning_views(v: Seq<PageWarnings>) -> Seq<(usize, JsonV)> {
    Seq::new(v.len(), |i: int| (v[i].page, jv(v[i].warnings)))
}

pub open spec fn list_view(n: NormalizedEntities) -> ListV {
    ListV {
        results: norm_entity_views(n.results@),
        limit: n.limit,
        pages_fetched: n.pages_fetched,
        stop_reason: n.stop_reason,
        max_results: n.max_results,
        next_cursor: opt_text(n.next_cursor),
        truncated: n.truncated,
        count: n.count,
        total_count: n.total_count,
        warnings: texts(n.warnings@),
        server_warnings: opt_json(n.server_warnings),
        additional_page_warnings: page_warning_views(n.additional_page_warnings@),
    }
}

/// One page of entities as results: the first page fetched, stopping at the
/// page limit when there is a next cursor and at the end of results otherwise.
pub open spec fn normalized_page(
    limit: usize,
    max_results: Option<usize>,
    includes: Seq<Seq<char>>,
    relation_limit: usize,
    r: ResponseV,
) -> ListV {
    let (results, warnings) = normalized_results(includes, r.included, relation_limit, r.data);
    let more = r.next_cursor.len() > 0;
    ListV {
        results,
        limit,
        pages_fetched: 1,
        stop_reason: if more {
            StopReason::PageLimit
        } else {
            StopReason::EndOfResults
        },
        max_results,
        next_cursor: if more {
            Some(r.next_cursor)
        } else {
            None
        },
        truncated: more,
        count: results.len() as usize,
        total_count: r.total_count,
        warnings,
        server_warnings: r.warnings,
        additional_page_warnings: Seq::empty(),
    }
}

fn missing_relation_warnings_exec(includes: &Vec<String>, e: &EntityResource, warnings: &mut Vec<String>)
    ensures
        texts(final(warnings)@) == texts(old(warnings)@) + missing_relation_warnings(
            texts(includes@),
            entity_view(*e),
        ),
{
    let ghost iv = texts(includes@);
    let ghost w0 = texts(warnings@);
    let mut i: usize = 0;
    assert(iv.take(0) =~= Seq::<Seq<char>>::empty());
    assert(texts(warnings@) =~= w0 + Seq::<Seq<char>>::empty());
    while i < includes.len()
        invariant
            i <= includes@.len(),
            iv == texts(includes@),
            texts(warnings@) == w0 + missing_relation_warnings(iv.take(i as int), entity_view(*e)),
        decreases includes@.len() - i,
    {
        assert(iv.take(i + 1).drop_last() =~= iv.take(i as int));
        assert(iv.take(i + 1).last() == includes@[i as int]@);
        let ghost before = texts(warnings@);
        if entries_get(&e.relationships, includes[i].as_str()).is_none() {
            let mut w = concat2("Requested relationship ", debug_str(includes[i].as_str()).as_str());
            w.append(" on ");
            w.append(e.id.as_str());
            w.append(" was not returned; absence does not establish that no related entities exist.");
            warnings.push(w);
            assert(texts(warnings@) =~= before.push(missing_relation_warning(includes@[i as int]@, e.id@)));
        }
        i += 1;
    }
    assert(iv.take(includes@.len() as int) =~= iv);
}

/// One page of entities as results (see [`normalized_page`]).
pub fn normalize_entities_response(
    limit: usize,
    max_results: Option<usize>,
    includes: &Vec<String>,
    relation_limit: usize,
    response: EntitiesResponse,
) -> (r: NormalizedEntities)
    ensures
        list_view(r) == normalized_page(limit, max_results, texts(includes@), relation_limit, response_view(response)),
{
    let ghost rv = response_view(response);
    let ghost dv = rv.data;
    let mut warnings: Vec<String> = Vec::new();
    let mut results: Vec<NormalizedEntity> = Vec::new();
    let mut i: usize = 0;
    assert(dv.take(0) =~= Seq::<EntityV>::empty());
    assert(texts(warnings@) =~= Seq::<Seq<char>>::empty());
    assert(norm_entity_views(results@) =~= Seq::<NormEntityV>::empty());
    while i < response.data.len()
        invariant
            i <= response.data@.len(),
            rv == response_view(response),
            dv == rv.data,
            ({
                let (p, w) = normalized_results(texts(includes@), rv.included, relation_limit, dv.take(i as int));
                &&& norm_entity_views(results@) == p
                &&& texts(warnings@) == w
            }),
        decreases response.data@.len() - i,
    {
        assert(dv.take(i + 1).drop_last() =~= dv.take(i as int));
        assert(dv.take(i + 1).last() == entity_view(response.data@[i as int]));
        let ghost (p0, w0) = (norm_entity_views(results@), texts(warnings@));
        missing_relation_warnings_exec(includes, &response.data[i], &mut warnings);
        let n = normalize_entity(&response.data[i], &response.included, relation_limit, &mut warnings);
        let ghost nv = norm_entity_view(n);
        results.push(n);
        assert(norm_entity_views(results@) =~= p0.push(nv));
        i += 1;
    }
    assert(dv.take(response.data@.len() as int) =~= dv);
    let more = to_chars(response.next_cursor.as_str()).len() > 0;
    let count = results.len();
    let extra: Vec<PageWarnings> = Vec::new();
    assert(page_warning_views(extra@) =~= Seq::<(usize, JsonV)>::empty());
    NormalizedEntities {
        results,
        limit,
        pages_fetched: 1,
        stop_reason: if more {
            StopReason::PageLimit
        } else {
            StopReason::EndOfResults
        },
        max_results,
        next_cursor: if more {
            Some(response.next_cursor)
        } else {
            None
        },
        truncated: more,
        count,
        total_count: response.total_count,
        warnings,
        server_warnings: response.warnings,
        additional_page_warnings: extra,
    }
}

/// The warning when the total count differs from one page to the next.
pub open spec fn total_changed_warning() -> Seq<char> {
    "The API's total count changed between pages; this inventory is not a consistent snapshot."@
}

/// The results so far followed by those of the next page: its entities,
/// cursor and warnings are added, and its server warnings are kept with the
/// number of the page.
pub open spec fn merged_pages(c: ListV, p: ListV) -> ListV {
    let results = c.results + p.results;
    let pages = (c.pages_fetched + 1) as usize;
    let w = c.warnings + p.warnings;
    ListV {
        results,
        count: results.len() as usize,
        pages_fetched: pages,
        next_cursor: p.next_cursor,
        truncated: p.truncated,
        warnings: if c.total_count != p.total_count && p.total_count is Some {
            w.push(total_changed_warning())
        } else {
            w
        },
        additional_page_warnings: match p.server_warnings {
            Some(sw) => c.additional_page_warnings.push((pages, sw)),
            None => c.additional_page_warnings,
        },
        ..c
    }
}

/// A query being fetched page by page: the results so far, the cursor of the
/// next page, the cursors seen, and what the query asked for.
pub struct Paging {
    combined: Option<NormalizedEntities>,
    cursor: Option<String>,
    seen: Vec<String>,
    limit: usize,
    budget: usize,
    max_results: Option<usize>,
    includes: Vec<String>,
    relation_limit: usize,
}

/// A [`Paging`] as plain values.
pub struct PagingV {
    pub combined: Option<ListV>,
    pub cursor: Option<Seq<char>>,
    pub seen: Seq<Seq<char>>,
    pub limit: usize,
    pub budget: usize,
    pub max_results: Option<usize>,
    pub includes: Seq<Seq<char>>,
    pub relation_limit: usize,
}

impl Paging {
    pub closed spec fn view_of(self) -> PagingV {
        PagingV {
            combined: match self.combined {
                Some(c) => Some(list_view(c)),
                None => None,
            },
            cursor: opt_text(self.cursor),
            seen: texts(self.seen@),
            limit: self.limit,
            budget: self.budget,
            max_results: self.max_results,
            includes: texts(self.includes@),
            relation_limit: self.relation_limit,
        }
    }

    /// Between fetches fewer results than the budget have been gathered, and
    /// no more pages than results.
    #[verifier::type_invariant]
    spec fn paging_invariant(self) -> bool {
        match self.combined {
            Some(c) => {
                &&& c.pages_fetched <= c.count
                &&& c.count < self.budget
                &&& c.count == c.results@.len()
                &&& self.max_results is Some
            },
            None => true,
        }
    }
}

/// The number of results gathered so far.
pub open spec fn collected(p: PagingV) -> int {
    match p.combined {
        Some(c) => c.count as int,
        None => 0,
    }
}

/// The size of the next page: the page limit, or what is left of the budget
/// when that is less.
pub open spec fn next_page_limit(p: PagingV) -> int {
    let left = p.budget - collected(p);
    if p.limit < left {
        p.limit as int
    } else {
        left
    }
}

/// What one fetched page makes of a paged query.
pub enum PageStep {
    /// Fetch the next page.
    Next(Paging),
    /// The query is complete.
    Done(NormalizedEntities),
    /// The page cannot be used.
    Failed(String),
}

/// [`PageStep`] as plain values.
pub enum StepV {
    Next(PagingV),
    Done(ListV),
    Failed(Seq<char>),
}

pub open spec fn step_view(s: PageStep) -> StepV {
    match s {
        PageStep::Next(p) => StepV::Next(p.view_of()),
        PageStep::Done(l) => StepV::Done(list_view(l)),
        PageStep::Failed(e) => StepV::Failed(e@),
    }
}

/// The step a fetched page makes: it must decode; a bounded query (one with
/// `--max-results`) refuses a page larger than asked for, a repeated cursor,
/// and an empty page with a cursor. The query stops at the end of results,
/// after one page when it is not bounded, and when the budget is reached.
pub open spec fn paging_step(p: PagingV, raw: JsonV) -> StepV {
    match decode_response(raw) {
        None => StepV::Failed("failed to decode Datadog entity response"@),
        Some(r) => {
            let more = r.next_cursor.len() > 0;
            let bounded = p.max_results is Some;
            if bounded && r.data.len() > next_page_limit(p) {
                StepV::Failed(
                    "UEG returned more entities than the requested page limit; cannot safely continue the bounded query"@,
                )
            } else if bounded && more && p.seen.contains(r.next_cursor) {
                StepV::Failed("UEG repeated a pagination cursor; refusing to return an incomplete inventory"@)
            } else if bounded && more && r.data.len() == 0 {
                StepV::Failed(
                    "UEG returned an empty page with a continuation cursor; cannot safely continue the bounded query"@,
                )
            } else {
                let page = normalized_page(p.limit, p.max_results, p.includes, p.relation_limit, r);
                let combined = match p.combined {
                    None => page,
                    Some(c) => merged_pages(c, page),
                };
                if !more {
                    StepV::Done(ListV { stop_reason: StopReason::EndOfResults, ..combined })
                } else if !bounded {
                    StepV::Done(ListV { stop_reason: StopReason::PageLimit, ..combined })
                } else if combined.count >= p.budget {
                    StepV::Done(ListV { stop_reason: StopReason::ResultLimit, ..combined })
                } else {
                    StepV::Next(
                        PagingV {
                            combined: Some(combined),
                            cursor: Some(r.next_cursor),
                            seen: p.seen.push(r.next_cursor),
                            ..p
                        },
                    )
                }
            }
        },
    }
}

fn copy_strings(v: &Vec<String>) -> (r: Vec<String>)
    ensures
        texts(r@) == texts(v@),
{
    let mut out: Vec<String> = Vec::new();
    let mut i: usize = 0;
    while i < v.len()
        invariant
            i <= v@.len(),
            texts(out@) == texts(v@).take(i as int),
        decreases v@.len() - i,
    {
        let ghost before = texts(out@);
        out.push(v[i].clone());
        assert(texts(out@) =~= before.push(v@[i as int]@));
        assert(texts(v@).take(i + 1) =~= texts(v@).take(i as int).push(v@[i as int]@));
        i += 1;
    }
    assert(texts(v@).take(v@.len() as int) =~= texts(v@));
    out
}

/// Starts a paged query: from its cursor when it has one, which then counts
/// as seen. The budget is `--max-results`, or else the page limit.
pub fn start_paging(
    limit: usize,
    max_results: Option<usize>,
    cursor: &Option<String>,
    includes: &Vec<String>,
    relation_limit: usize,
) -> (r: Paging)
    ensures
        r.view_of() == (PagingV {
            combined: None,
            cursor: opt_text(*cursor),
            seen: match cursor {
                Some(c) => seq![c@],
                None => Seq::empty(),
            },
            limit,
            budget: match max_results {
                Some(m) => m,
                None => limit,
            },
            max_results,
            includes: texts(includes@),
            relation_limit,
        }),
{
    let mut seen: Vec<String> = Vec::new();
    match cursor {
        Some(c) => seen.push(c.clone()),
        None => {},
    }
    assert(texts(seen@) =~= match cursor {
        Some(c) => seq![c@],
        None => Seq::<Seq<char>>::empty(),
    });
    Paging {
        combined: None,
        cursor: match cursor {
            Some(c) => Some(c.clone()),
            None => None,
        },
        seen,
        limit,
        budget: match max_results {
            Some(m) => m,
            None => limit,
        },
        max_results,
        includes: copy_strings(includes),
        relation_limit,
    }
}

impl Paging {
    fn page_limit(&self) -> (r: usize)
        ensures
            r as int == next_page_limit(self.view_of()),
    {
        proof {
            use_type_invariant(self);
        }
        let collected = match &self.combined {
            Some(c) => c.count,
            None => 0,
        };
        let left = self.budget - collected;
        if self.limit < left {
            self.limit
        } else {
            left
        }
    }
}

/// The parameters of the next page's request: the query's own parameters
/// without any page limit or cursor, then the page limit and the cursor.
pub open spec fn page_request(params: Seq<(Seq<char>, Seq<char>)>, p: PagingV) -> Seq<(Seq<char>, Seq<char>)> {
    let kept = params.filter(|kv: (Seq<char>, Seq<char>)| kv.0 != "page[limit]"@ && kv.0 != "page[cursor]"@);
    let with_limit = kept.push(("page[limit]"@, decimal(next_page_limit(p))));
    match p.cursor {
        Some(c) => with_limit.push(("page[cursor]"@, c)),
        None => with_limit,
    }
}

pub open spec fn pair_texts(v: Seq<(String, String)>) -> Seq<(Seq<char>, Seq<char>)> {
    v.map_values(|kv: (String, String)| (kv.0@, kv.1@))
}

/// The parameters of the next page's request (see [`page_request`]).
pub fn page_params(params: &Vec<(String, String)>, paging: &Paging) -> (r: Vec<(String, String)>)
    ensures
        pair_texts(r@) == page_request(pair_texts(params@), paging.view_of()),
{
    let ghost pv = pair_texts(params@);
    let ghost f = |kv: (Seq<char>, Seq<char>)| kv.0 != "page[limit]"@ && kv.0 != "page[cursor]"@;
    let mut out: Vec<(String, String)> = Vec::new();
    let mut i: usize = 0;
    assert(pv.take(0).filter(f) =~= Seq::<(Seq<char>, Seq<char>)>::empty());
    assert(pair_texts(out@) =~= Seq::<(Seq<char>, Seq<char>)>::empty());
    while i < params.len()
        invariant
            i <= params@.len(),
            pv == pair_texts(params@),
            f == (|kv: (Seq<char>, Seq<char>)| kv.0 != "page[limit]"@ && kv.0 != "page[cursor]"@),
            pair_texts(out@) == pv.take(i as int).filter(f),
        decreases params@.len() - i,
    {
        let ghost before = pair_texts(out@);
        assert(pv.take(i + 1).drop_last() =~= pv.take(i as int));
        assert(pv.take(i + 1).last() == (params@[i as int].0@, params@[i as int].1@));
        proof {
        }
        reveal(Seq::filter);
        if !str_eq(params[i].0.as_str(), "page[limit]") && !str_eq(params[i].0.as_str(), "page[cursor]") {
            out.push((params[i].0.clone(), params[i].1.clone()));
            assert(pair_texts(out@) =~= before.push((params@[i as int].0@, params@[i as int].1@)));
        }
        i += 1;
    }
    assert(pv.take(params@.len() as int) =~= pv);
    let ghost kept = pair_texts(out@);
    out.push((owned("page[limit]"), usize_to_string(paging.page_limit())));
    assert(pair_texts(out@) =~= kept.push(("page[limit]"@, decimal(next_page_limit(paging.view_of())))));
    let ghost with_limit = pair_texts(out@);
    match &paging.cursor {
        Some(c) => {
            out.push((owned("page[cursor]"), c.clone()));
            assert(pair_texts(out@) =~= with_limit.push(("page[cursor]"@, c@)));
        },
        None => {},
    }
    out
}

proof fn lemma_normalized_results_len(
    includes: Seq<Seq<char>>,
    included: Seq<EntityV>,
    limit: usize,
    data: Seq<EntityV>,
)
    ensures
        normalized_results(includes, included, limit, data).0.len() == data.len(),
    decreases data.len(),
{
    if data.len() > 0 {
        lemma_normalized_results_len(includes, included, limit, data.drop_last());
    }
}

fn merge_pages(c: NormalizedEntities, p: NormalizedEntities) -> (r: NormalizedEntities)
    requires
        c.pages_fetched < usize::MAX,
        c.results@.len() + p.results@.len() <= usize::MAX,
    ensures
        list_view(r) == merged_pages(list_view(c), list_view(p)),
        r.results@.len() == c.results@.len() + p.results@.len(),
        r.pages_fetched == c.pages_fetched + 1,
        r.count == r.results@.len(),
{
    let ghost (cv, pv) = (list_view(c), list_view(p));
    let NormalizedEntities {
        results: mut results,
        limit,
        pages_fetched,
        stop_reason,
        max_results,
        next_cursor: _,
        truncated: _,
        count: _,
        total_count,
        mut warnings,
        server_warnings,
        mut additional_page_warnings,
    } = c;
    let NormalizedEntities {
        results: mut more_results,
        next_cursor,
        truncated,
        total_count: page_total,
        warnings: mut page_warnings,
        server_warnings: page_server_warnings,
        ..
    } = p;
    let ghost (r0, r1) = (norm_entity_views(results@), norm_entity_views(more_results@));
    results.append(&mut more_results);
    assert(norm_entity_views(results@) =~= r0 + r1);
    let pages = pages_fetched + 1;
    let ghost w0 = texts(warnings@);
    let ghost w1 = texts(page_warnings@);
    warnings.append(&mut page_warnings);
    assert(texts(warnings@) =~= w0 + w1);
    let differs = match (total_count, page_total) {
        (Some(a), Some(b)) => a != b,
        (None, Some(_)) => true,
        _ => false,
    };
    if differs {
        let ghost w = texts(warnings@);
        warnings.push(owned("The API's total count changed between pages; this inventory is not a consistent snapshot."));
        assert(texts(warnings@) =~= w.push(total_changed_warning()));
    }
    match page_server_warnings {
        Some(sw) => {
            let ghost a = page_warning_views(additional_page_warnings@);
            let ghost swv = jv(sw);
            additional_page_warnings.push(PageWarnings { page: pages, warnings: sw });
            assert(page_warning_views(additional_page_warnings@) =~= a.push((pages, swv)));
        },
        None => {},
    }
    let count = results.len();
    NormalizedEntities {
        results,
        limit,
        pages_fetched: pages,
        stop_reason,
        max_results,
        next_cursor,
        truncated,
        count,
        total_count,
        warnings,
        server_warnings,
        additional_page_warnings,
    }
}

fn contains_string(v: &Vec<String>, s: &String) -> (r: bool)
    ensures
        r == texts(v@).contains(s@),
{
    let mut i: usize = 0;
    while i < v.len()
        invariant
            i <= v@.len(),
            forall|k: int| 0 <= k < i ==> texts(v@)[k] != s@,
        decreases v@.len() - i,
    {
        if str_eq(v[i].as_str(), s.as_str()) {
            assert(texts(v@)[i as int] == s@);
            return true;
        }
        i += 1;
    }
    false
}

/// The step a fetched page makes in a paged query (see [`paging_step`]).
pub fn page_step(paging: Paging, raw: &Json) -> (r: PageStep)
    ensures
        step_view(r) == paging_step(paging.view_of(), jv(*raw)),
        paging.view_of().max_results is Some ==> match r {
            PageStep::Done(l) => l.count <= paging.view_of().budget,
            _ => true,
        },
{
    proof {
        use_type_invariant(&paging);
    }
    let ghost pv = paging.view_of();
    let page_limit = paging.page_limit();
    let response = match decode_response_exec(raw) {
        Some(r) => r,
        None => {
            return PageStep::Failed(owned("failed to decode Datadog entity response"));
        },
    };
    let more = to_chars(response.next_cursor.as_str()).len() > 0;
    let bounded = paging.max_results.is_some();
    if bounded && response.data.len() > page_limit {
        return PageStep::Failed(
            owned("UEG returned more entities than the requested page limit; cannot safely continue the bounded query"),
        );
    }
    if bounded && more && contains_string(&paging.seen, &response.next_cursor) {
        return PageStep::Failed(
            owned("UEG repeated a pagination cursor; refusing to return an incomplete inventory"),
        );
    }
    if bounded && more && response.data.len() == 0 {
        return PageStep::Failed(
            owned("UEG returned an empty page with a continuation cursor; cannot safely continue the bounded query"),
        );
    }
    let next_cursor = response.next_cursor.clone();
    let n_data = response.data.len();
    let ghost rv = response_view(response);
    let Paging { combined, cursor: _, mut seen, limit, budget, max_results, includes, relation_limit } = paging;
    let page = normalize_entities_response(limit, max_results, &includes, relation_limit, response);
    proof {
        lemma_normalized_results_len(texts(includes@), rv.included, relation_limit, rv.data);
    }
    assert(page.results@.len() == n_data);
    let mut combined = match combined {
        None => page,
        Some(c) => merge_pages(c, page),
    };
    assert(bounded ==> combined.count <= budget);
    if !more {
        combined.stop_reason = StopReason::EndOfResults;
        return PageStep::Done(combined);
    }
    if !bounded {
        combined.stop_reason = StopReason::PageLimit;
        return PageStep::Done(combined);
    }
    if combined.count >= budget {
        combined.stop_reason = StopReason::ResultLimit;
        return PageStep::Done(combined);
    }
    let ghost s0 = texts(seen@);
    seen.push(next_cursor.clone());
    assert(texts(seen@) =~= s0.push(next_cursor@));
    PageStep::Next(
        Paging {
            combined: Some(combined),
            cursor: Some(next_cursor),
            seen,
            limit,
            budget,
            max_results,
            includes,
            relation_limit,
        },
    )
}

/// An RFC 3339 timestamp of milliseconds since the Unix epoch, in UTC, as
/// chrono writes it; none when chrono's dates cannot hold it.
pub uninterp spec fn timestamp_rfc3339(ms: i64) -> Option<Seq<char>>;

/// chrono's `DateTime::from_timestamp_millis` followed by `to_rfc3339`.
#[verifier::external_body]
fn rfc3339_of_millis(ms: i64) -> (r: Option<String>)
    ensures
        opt_text(r) == timestamp_rfc3339(ms),
{
    chrono::DateTime::from_timestamp_millis(ms).map(|dt| dt.to_rfc3339())
}

/// The kind that a `fields[<kind>]` parameter selects fields of.
pub open spec fn selected_kind(key: Seq<char>) -> Option<Seq<char>> {
    if starts_with(key, "fields["@) && key.len() > 7 && key.last() == ']' {
        Some(key.subrange(7, key.len() - 1))
    } else {
        None
    }
}

/// The first expanded relation whose edge the selection of `target` names:
/// the one for which `target` is `<kind>.<relation>`.
pub open spec fn edge_relation(kind: Seq<char>, relations: Seq<Seq<char>>, target: Seq<char>) -> Option<Seq<char>>
    decreases relations.len(),
{
    if relations.len() == 0 {
        None
    } else if kind + "."@ + relations[0] == target {
        Some(relations[0])
    } else {
        edge_relation(kind, relations.drop_first(), target)
    }
}

/// The flags that repeat the field selections among the parameters:
/// `--edge-fields <relation>=<value>` for an edge, `--fields <kind>=<value>`
/// otherwise.
pub open spec fn field_flags(
    kind: Seq<char>,
    relations: Seq<Seq<char>>,
    params: Seq<(Seq<char>, Seq<char>)>,
) -> Seq<Seq<char>>
    decreases params.len(),
{
    if params.len() == 0 {
        Seq::empty()
    } else {
        let p = field_flags(kind, relations, params.drop_last());
        let (key, value) = params.last();
        match selected_kind(key) {
            None => p,
            Some(k) => match edge_relation(kind, relations, k) {
                Some(r) => p + seq!["--edge-fields"@, r + "="@ + value],
                None => p + seq!["--fields"@, k + "="@ + value],
            },
        }
    }
}

/// The flags `--scope <name>=<value>`, one per scope.
pub open spec fn scope_flags(scopes: Seq<(String, String)>) -> Seq<Seq<char>>
    decreases scopes.len(),
{
    if scopes.len() == 0 {
        Seq::empty()
    } else {
        scope_flags(scopes.drop_last()) + seq!["--scope"@, scopes.last().0@ + "="@ + scopes.last().1@]
    }
}

/// The flags `--order-by <order>`, one per order.
pub open spec fn order_flags(orders: Seq<Seq<char>>) -> Seq<Seq<char>>
    decreases orders.len(),
{
    if orders.len() == 0 {
        Seq::empty()
    } else {
        order_flags(orders.drop_last()) + seq!["--order-by"@, orders.last()]
    }
}

/// `flag` and its value, when there is a value.
pub open spec fn opt_flag(flag: Seq<char>, v: Option<Seq<char>>) -> Seq<Seq<char>> {
    match v {
        Some(x) => seq![flag, x],
        None => Seq::empty(),
    }
}

/// The leading arguments of a continuation: read-only, the organization, the
/// query, its page size and budget, the cursor, the relation limit and the
/// expanded relations.
pub open spec fn head_args(org: Option<Seq<char>>, o: NormalizedQueryOptions, cursor: Seq<char>) -> Seq<Seq<char>> {
    seq!["--read-only"@] + opt_flag("--org"@, org) + seq![
        "idp"@,
        "entities"@,
        "query"@,
        o.query@,
    ] + seq!["--limit"@, decimal(o.limit as int)] + opt_flag(
        "--max-results"@,
        match o.max_results {
            Some(m) => Some(decimal(m as int)),
            None => None,
        },
    ) + seq!["--cursor"@, cursor] + seq!["--relation-limit"@, decimal(o.relation_limit as int)] + (if o.includes@.len()
        > 0 {
        seq!["--include"@, join(views(o.includes@), ","@)]
    } else {
        Seq::empty()
    })
}

/// The trailing arguments of a continuation: the time window, the scopes,
/// the orders, the free-text mode and the total count.
pub open spec fn tail_args(o: NormalizedQueryOptions) -> Seq<Seq<char>> {
    opt_flag("--timeseries-interval"@, opt_text(o.time.past)) + opt_flag(
        "--from"@,
        match o.time.start {
            Some(t) => timestamp_rfc3339(t),
            None => None,
        },
    ) + opt_flag(
        "--to"@,
        match o.time.end {
            Some(t) => timestamp_rfc3339(t),
            None => None,
        },
    ) + scope_flags(o.scopes@) + order_flags(views(o.order_by@)) + opt_flag(
        "--free-text-match"@,
        opt_text(o.free_text_match),
    ) + (if o.include_total_count {
        seq!["--include-total-count"@]
    } else {
        Seq::empty()
    })
}

/// The arguments of `pup` that fetch the page at `cursor` of the same query,
/// read-only and for the same organization, its field selections repeated.
pub open spec fn next_request_args(
    org: Option<Seq<char>>,
    o: NormalizedQueryOptions,
    params: Seq<(Seq<char>, Seq<char>)>,
    cursor: Seq<char>,
) -> Seq<Seq<char>> {
    head_args(org, o, cursor) + field_flags(o.kind@, key_views(o.edge_fields@), params) + tail_args(o)
}

/// Whether chrono can write the query's absolute bounds.
pub open spec fn bounds_writable(o: NormalizedQueryOptions) -> bool {
    &&& (o.time.start matches Some(t) ==> timestamp_rfc3339(t) is Some)
    &&& (o.time.end matches Some(t) ==> timestamp_rfc3339(t) is Some)
}

/// The request for the next page of a query.
pub struct NextRequest {
    /// Arguments after the `pup` executable, ready for an argv-based subprocess.
    pub args: Vec<String>,
}

fn push_pair(args: &mut Vec<String>, a: &str, b: String)
    ensures
        texts(final(args)@) == texts(old(args)@) + seq![a@, b@],
{
    let ghost before = texts(args@);
    args.push(owned(a));
    args.push(b);
    assert(texts(args@) =~= before + seq![a@, b@]);
}

fn push_opt_pair(args: &mut Vec<String>, a: &str, b: Option<String>)
    ensures
        texts(final(args)@) == texts(old(args)@) + opt_flag(a@, opt_text(b)),
{
    match b {
        Some(x) => push_pair(args, a, x),
        None => {
            assert(texts(args@) =~= texts(args@) + Seq::<Seq<char>>::empty());
        },
    }
}

fn selected_kind_exec(key: &str) -> (r: Option<String>)
    ensures
        opt_text(r) == selected_kind(key@),
{
    let v = to_chars(key);
    let p = to_chars("fields[");
    proof {
        reveal_strlit("fields[");
    }
    if starts_with_chars(&v, &p) && v.len() > 7 && v[v.len() - 1] == ']' {
        let k = slice_chars(&v, 7, v.len() - 1);
        Some(from_chars(&k))
    } else {
        None
    }
}

fn edge_relation_exec(kind: &str, relations: &Vec<(String, Vec<String>)>, target: &str) -> (r: Option<String>)
    ensures
        opt_text(r) == edge_relation(kind@, key_views(relations@), target@),
{
    let ghost ks = key_views(relations@);
    let mut i: usize = 0;
    assert(ks.skip(0) =~= ks);
    while i < relations.len()
        invariant
            i <= relations@.len(),
            ks == key_views(relations@),
            edge_relation(kind@, ks, target@) == edge_relation(kind@, ks.skip(i as int), target@),
        decreases relations@.len() - i,
    {
        assert(ks.skip(i as int).drop_first() =~= ks.skip(i + 1));
        assert(ks.skip(i as int)[0] == relations@[i as int].0@);
        let mut candidate = concat2(kind, ".");
        candidate.append(relations[i].0.as_str());
        if str_eq(candidate.as_str(), target) {
            return Some(relations[i].0.clone());
        }
        i += 1;
    }
    None
}

fn head_args_exec(org: &Option<String>, options: &NormalizedQueryOptions, cursor: &str) -> (r: Vec<String>)
    ensures
        texts(r@) == head_args(opt_text(*org), *options, cursor@),
{
    let mut args: Vec<String> = Vec::new();
    args.push(owned("--read-only"));
    assert(texts(args@) =~= seq!["--read-only"@]);
    push_opt_pair(&mut args, "--org", match org {
        Some(g) => Some(g.clone()),
        None => None,
    });
    let ghost a0 = texts(args@);
    args.push(owned("idp"));
    args.push(owned("entities"));
    args.push(owned("query"));
    args.push(options.query.clone());
    assert(texts(args@) =~= a0 + seq!["idp"@, "entities"@, "query"@, options.query@]);
    push_pair(&mut args, "--limit", usize_to_string(options.limit));
    push_opt_pair(&mut args, "--max-results", match options.max_results {
        Some(m) => Some(usize_to_string(m)),
        None => None,
    });
    push_pair(&mut args, "--cursor", owned(cursor));
    push_pair(&mut args, "--relation-limit", usize_to_string(options.relation_limit));
    let ghost a1 = texts(args@);
    if options.includes.len() > 0 {
        push_pair(&mut args, "--include", join_strings(&options.includes, ","));
    } else {
        assert(texts(args@) =~= a1 + Seq::<Seq<char>>::empty());
    }
    args
}

fn field_flags_exec(options: &NormalizedQueryOptions, params: &Vec<(String, String)>) -> (r: Vec<String>)
    ensures
        texts(r@) == field_flags(options.kind@, key_views(options.edge_fields@), pair_texts(params@)),
{
    let mut args: Vec<String> = Vec::new();
    let ghost pv = pair_texts(params@);
    let ghost ks = key_views(options.edge_fields@);
    let mut i: usize = 0;
    assert(pv.take(0) =~= Seq::<(Seq<char>, Seq<char>)>::empty());
    assert(texts(args@) =~= Seq::<Seq<char>>::empty());
    while i < params.len()
        invariant
            i <= params@.len(),
            pv == pair_texts(params@),
            ks == key_views(options.edge_fields@),
            texts(args@) == field_flags(options.kind@, ks, pv.take(i as int)),
        decreases params@.len() - i,
    {
        assert(pv.take(i + 1).drop_last() =~= pv.take(i as int));
        assert(pv.take(i + 1).last() == (params@[i as int].0@, params@[i as int].1@));
        match selected_kind_exec(params[i].0.as_str()) {
            None => {},
            Some(k) => match edge_relation_exec(options.kind.as_str(), &options.edge_fields, k.as_str()) {
                Some(r) => {
                    push_pair(&mut args, "--edge-fields", concat3(r.as_str(), "=", params[i].1.as_str()));
                },
                None => {
                    push_pair(&mut args, "--fields", concat3(k.as_str(), "=", params[i].1.as_str()));
                },
            },
        }
        i += 1;
    }
    assert(pv.take(params@.len() as int) =~= pv);
    args
}

fn tail_args_exec(options: &NormalizedQueryOptions) -> (r: Vec<String>)
    requires
        bounds_writable(*options),
    ensures
        texts(r@) == tail_args(*options),
{
    let mut args: Vec<String> = Vec::new();
    assert(texts(args@) =~= Seq::<Seq<char>>::empty());
    push_opt_pair(&mut args, "--timeseries-interval", match &options.time.past {
        Some(p) => Some(p.clone()),
        None => None,
    });
    push_opt_pair(&mut args, "--from", match options.time.start {
        Some(t) => rfc3339_of_millis(t),
        None => None,
    });
    push_opt_pair(&mut args, "--to", match options.time.end {
        Some(t) => rfc3339_of_millis(t),
        None => None,
    });
    let ghost a3 = texts(args@);
    let mut j: usize = 0;
    assert(options.scopes@.take(0) =~= Seq::<(String, String)>::empty());
    assert(texts(args@) =~= a3 + Seq::<Seq<char>>::empty());
    while j < options.scopes.len()
        invariant
            j <= options.scopes@.len(),
            texts(args@) == a3 + scope_flags(options.scopes@.take(j as int)),
        decreases options.scopes@.len() - j,
    {
        assert(options.scopes@.take(j + 1).drop_last() =~= options.scopes@.take(j as int));
        push_pair(&mut args, "--scope", concat3(options.scopes[j].0.as_str(), "=", options.scopes[j].1.as_str()));
        j += 1;
    }
    assert(options.scopes@.take(options.scopes@.len() as int) =~= options.scopes@);
    let ghost a4 = texts(args@);
    let ghost ov = views(options.order_by@);
    let mut k: usize = 0;
    assert(ov.take(0) =~= Seq::<Seq<char>>::empty());
    assert(texts(args@) =~= a4 + Seq::<Seq<char>>::empty());
    while k < options.order_by.len()
        invariant
            k <= options.order_by@.len(),
            ov == views(options.order_by@),
            texts(args@) == a4 + order_flags(ov.take(k as int)),
        decreases options.order_by@.len() - k,
    {
        assert(ov.take(k + 1).drop_last() =~= ov.take(k as int));
        assert(ov.take(k + 1).last() == options.order_by@[k as int]@);
        push_pair(&mut args, "--order-by", options.order_by[k].clone());
        k += 1;
    }
    assert(ov.take(options.order_by@.len() as int) =~= ov);
    push_opt_pair(&mut args, "--free-text-match", match &options.free_text_match {
        Some(m) => Some(m.clone()),
        None => None,
    });
    let ghost a5 = texts(args@);
    if options.include_total_count {
        args.push(owned("--include-total-count"));
        assert(texts(args@) =~= a5 + seq!["--include-total-count"@]);
    } else {
        assert(texts(args@) =~= a5 + Seq::<Seq<char>>::empty());
    }
    args
}

/// The arguments of `pup` that fetch the page at `cursor` of the same query
/// (see [`next_request_args`]), when chrono can write its bounds.
pub fn next_request(
    org: &Option<String>,
    options: &NormalizedQueryOptions,
    params: &Vec<(String, String)>,
    cursor: &str,
) -> (r: NextRequest)
    requires
        bounds_writable(*options),
    ensures
        texts(r.args@) == next_request_args(opt_text(*org), *options, pair_texts(params@), cursor@),
{
    let mut args = head_args_exec(org, options, cursor);
    let mut fields = field_flags_exec(options, params);
    let mut tail = tail_args_exec(options);
    let ghost (a, b, c) = (texts(args@), texts(fields@), texts(tail@));
    args.append(&mut fields);
    args.append(&mut tail);
    assert(texts(args@) =~= a + b + c);
    NextRequest { args }
}

fn bounds_writable_exec(options: &NormalizedQueryOptions) -> (r: bool)
    ensures
        r == bounds_writable(*options),
{
    let start_ok = match options.time.start {
        Some(t) => rfc3339_of_millis(t).is_some(),
        None => true,
    };
    let end_ok = match options.time.end {
        Some(t) => rfc3339_of_millis(t).is_some(),
        None => true,
    };
    start_ok && end_ok
}

/// The request for the page at `cursor` of the same query; none when chrono
/// cannot write the query's absolute bounds.
pub fn continuation_request(
    org: &Option<String>,
    options: &NormalizedQueryOptions,
    params: &Vec<(String, String)>,
    cursor: &str,
) -> (r: Option<NextRequest>)
    ensures
        match r {
            Some(n) => bounds_writable(*options) && texts(n.args@) == next_request_args(
                opt_text(*org),
                *options,
                pair_texts(params@),
                cursor@,
            ),
            None => !bounds_writable(*options),
        },
{
    if bounds_writable_exec(options) {
        Some(next_request(org, options, params, cursor))
    } else {
        None
    }
}

/// The count of a raw page, whether it has a next page, and how to fetch it:
/// the length of its `data` list, and its non-empty `meta.page.next_cursor`.
pub open spec fn raw_metadata(raw: JsonV) -> (Option<nat>, bool, Option<Seq<char>>) {
    let count = match crate::json::vget(raw, "data"@) {
        Some(JsonV::Array(a)) => Some(a.len()),
        _ => None,
    };
    let cursor = match crate::json::vget(raw, "meta"@) {
        Some(m) => match crate::json::vget(m, "page"@) {
            Some(p) => match crate::json::vget(p, "next_cursor"@) {
                Some(JsonV::Str(c)) => if c.len() > 0 {
                    Some(c)
                } else {
                    None
                },
                _ => None,
            },
            None => None,
        },
        None => None,
    };
    (
        count,
        cursor is Some,
        match cursor {
            Some(c) => Some("Fetch the next page with --cursor "@ + c),
            None => None,
        },
    )
}

/// The count, truncation and next step reported for a raw page (see
/// [`raw_metadata`]).
pub fn raw_response_metadata(raw: &Json) -> (r: (Option<usize>, bool, Option<String>))
    ensures
        ({
            let (c, t, n) = raw_metadata(jv(*raw));
            &&& match r.0 {
                Some(k) => c == Some(k as nat),
                None => c is None,
            }
            &&& r.1 == t
            &&& opt_text(r.2) == n
        }),
{
    let count = match crate::json::get(raw, "data") {
        Some(Json::Array(a)) => Some(a.len()),
        _ => None,
    };
    let cursor: Option<String> = match crate::json::get(raw, "meta") {
        Some(m) => match crate::json::get(m, "page") {
            Some(p) => match crate::json::get(p, "next_cursor") {
                Some(Json::Str(c)) => if to_chars(c.as_str()).len() > 0 {
                    Some(c.clone())
                } else {
                    None
                },
                _ => None,
            },
            None => None,
        },
        None => None,
    };
    let truncated = cursor.is_some();
    let next = match &cursor {
        Some(c) => Some(concat2("Fetch the next page with --cursor ", c.as_str())),
        None => None,
    };
    (count, truncated, next)
}

/// shell-words' quoting of one argument for a POSIX shell.
pub uninterp spec fn shell_quoted(arg: Seq<char>) -> Seq<char>;

/// `shell_words::quote`.
#[verifier::external_body]
fn quote_arg(arg: &str) -> (r: String)
    ensures
        r@ == shell_quoted(arg@),
{
    shell_words::quote(arg).into_owned()
}

/// The next step shown for a continuation: `Continue with: pup ` and its
/// arguments quoted for a shell, separated by spaces.
pub open spec fn continue_action(args: Seq<Seq<char>>) -> Seq<char> {
    "Continue with: pup "@ + join(args.map_values(|a: Seq<char>| shell_quoted(a)), " "@)
}

/// The next step shown for a continuation (see [`continue_action`]).
pub fn continue_action_text(request: &NextRequest) -> (r: String)
    ensures
        r@ == continue_action(texts(request.args@)),
{
    let ghost av = texts(request.args@);
    let mut quoted: Vec<String> = Vec::new();
    let mut i: usize = 0;
    while i < request.args.len()
        invariant
            i <= request.args@.len(),
            av == texts(request.args@),
            texts(quoted@) == av.take(i as int).map_values(|a: Seq<char>| shell_quoted(a)),
        decreases request.args@.len() - i,
    {
        let ghost before = texts(quoted@);
        let q = quote_arg(request.args[i].as_str());
        let ghost qv = q@;
        quoted.push(q);
        assert(texts(quoted@) =~= before.push(qv));
        assert(av.take(i + 1) =~= av.take(i as int).push(av[i as int]));
        assert(av[i as int] == request.args@[i as int]@);
        assert(av.take(i + 1).map_values(|a: Seq<char>| shell_quoted(a)) =~= av.take(i as int).map_values(
            |a: Seq<char>| shell_quoted(a),
        ).push(shell_quoted(av[i as int])));
        i += 1;
    }
    assert(av.take(request.args@.len() as int) =~= av);
    let joined = join_strings(&quoted, " ");
    assert(quoted@.map_values(|p: String| p@) =~= texts(quoted@));
    concat2("Continue with: pup ", joined.as_str())
}

/// The warning when a fuzzy query matched nothing.
pub open spec fn fuzzy_warning() -> Seq<char> {
    "No fuzzy matches were returned. Verify with --free-text-match partial or an explicit name filter before concluding that the entity is absent; some providers miss fuzzy matches when combined with other filters."@
}

/// The warning when results continue past the last page fetched.
pub open spec fn continuation_warning() -> Seq<char> {
    "The API returned a continuation cursor. Use next_request.args to check for more results."@
}

/// The warnings added once a query's pages are in: none matched a fuzzy
/// query, and results go on past the last page.
pub open spec fn closing_warnings(count: usize, free_text_match: Option<Seq<char>>, truncated: bool) -> Seq<Seq<char>> {
    let w1: Seq<Seq<char>> = if count == 0 && free_text_match == Some("fuzzy"@) {
        seq![fuzzy_warning()]
    } else {
        Seq::empty()
    };
    if truncated {
        w1.push(continuation_warning())
    } else {
        w1
    }
}

/// Adds the closing warnings to a query's results (see [`closing_warnings`]).
pub fn add_closing_warnings(results: &mut NormalizedEntities, free_text_match: &Option<String>)
    ensures
        texts(final(results).warnings@) == texts(old(results).warnings@) + closing_warnings(
            old(results).count,
            opt_text(*free_text_match),
            old(results).truncated,
        ),
        final(results).count == old(results).count,
        final(results).truncated == old(results).truncated,
{
    let ghost w0 = texts(results.warnings@);
    let fuzzy = match free_text_match {
        Some(m) => str_eq(m.as_str(), "fuzzy"),
        None => false,
    };
    if results.count == 0 && fuzzy {
        results.warnings.push(owned("No fuzzy matches were returned. Verify with --free-text-match partial or an explicit name filter before concluding that the entity is absent; some providers miss fuzzy matches when combined with other filters."));
    }
    let ghost w1 = texts(results.warnings@);
    assert(w1 =~= w0 + if results.count == 0 && opt_text(*free_text_match) == Some("fuzzy"@) {
        seq![fuzzy_warning()]
    } else {
        Seq::<Seq<char>>::empty()
    });
    if results.truncated {
        results.warnings.push(owned("The API returned a continuation cursor. Use next_request.args to check for more results."));
        assert(texts(results.warnings@) =~= w1.push(continuation_warning()));
    }
}

} // verus!
