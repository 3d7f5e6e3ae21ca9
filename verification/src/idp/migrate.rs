//! Migration of service catalog documents (schema v1, v2, v2.1, v2.2) to the
//! v3 entity schema, and the companion system entities it produces.
use vstd::prelude::*;

use crate::json::{
    lemma_entry_get_vinsert, copy_json, empty_value, entry_get, get, is_empty_value, jarr, jentries,
    jobj, jstr, jv, jvs, obj_insert, str_at, str_field, vget, vinsert, vstr, Json, JsonV,
};
use crate::text::{concat2, owned, str_eq};

verus! {

/// The v3 link type of an older one: `wiki` is `doc`, `code` is `repo`, and
/// `url`, `oncall` and `link` are `other`; any other type is kept.
pub open spec fn remapped_link_type(t: Seq<char>) -> Seq<char> {
    if t == "wiki"@ {
        "doc"@
    } else if t == "code"@ {
        "repo"@
    } else if t == "url"@ || t == "oncall"@ || t == "link"@ {
        "other"@
    } else {
        t
    }
}

/// The v3 link type of an older one (see [`remapped_link_type`]).
pub fn remap_link_type(t: &str) -> (r: String)
    ensures
        r@ == remapped_link_type(t@),
{
    if str_eq(t, "wiki") {
        owned("doc")
    } else if str_eq(t, "code") {
        owned("repo")
    } else if str_eq(t, "url") || str_eq(t, "oncall") || str_eq(t, "link") {
        owned("other")
    } else {
        owned(t)
    }
}

/// Remapping twice is remapping once: every type that comes out is kept.
pub proof fn law_remap_idempotent(t: Seq<char>)
    ensures
        remapped_link_type(remapped_link_type(t)) == remapped_link_type(t),
{
    reveal_strlit("wiki");
    reveal_strlit("doc");
    reveal_strlit("code");
    reveal_strlit("repo");
    reveal_strlit("url");
    reveal_strlit("oncall");
    reveal_strlit("link");
    reveal_strlit("other");
    assert("wiki"@.len() == 4 && "code"@.len() == 4 && "link"@.len() == 4);
    assert("url"@.len() == 3 && "oncall"@.len() == 6);
    assert("doc"@.len() == 3 && "repo"@.len() == 4 && "other"@.len() == 5);
    assert("doc"@[0] != "url"@[0]);
    assert("repo"@[0] != "wiki"@[0] && "repo"@[0] != "code"@[0] && "repo"@[0] != "link"@[0]);
}


// The builders below add a member under a key that the object does not have
// yet: each document is built from fixed, distinct keys.

/// The entries followed by `key` with the text, when there is one.
pub open spec fn ins_opt_str(es: Seq<(Seq<char>, JsonV)>, key: Seq<char>, o: Option<Seq<char>>) -> Seq<
    (Seq<char>, JsonV),
> {
    match o {
        Some(s) => es.push((key, JsonV::Str(s))),
        None => es,
    }
}

/// The entries followed by `key` with the array, when it is not empty.
pub open spec fn ins_arr(es: Seq<(Seq<char>, JsonV)>, key: Seq<char>, a: Seq<JsonV>) -> Seq<
    (Seq<char>, JsonV),
> {
    if a.len() > 0 {
        es.push((key, JsonV::Array(a)))
    } else {
        es
    }
}

/// The entries followed by `key` with the object, when it is not empty.
pub open spec fn ins_obj(
    es: Seq<(Seq<char>, JsonV)>,
    key: Seq<char>,
    o: Seq<(Seq<char>, JsonV)>,
) -> Seq<(Seq<char>, JsonV)> {
    if o.len() > 0 {
        es.push((key, JsonV::Object(o)))
    } else {
        es
    }
}

pub(crate) fn push_member(es: &mut Vec<(String, Json)>, key: &str, v: Json)
    ensures
        jentries(final(es)@) == jentries(old(es)@).push((key@, jv(v))),
{
    let ghost before = jentries(es@);
    let ghost jvv = jv(v);
    es.push((owned(key), v));
    assert(jentries(es@) =~= before.push((key@, jvv)));
}

pub(crate) fn put_opt_str(es: &mut Vec<(String, Json)>, key: &str, o: Option<String>)
    ensures
        jentries(final(es)@) == ins_opt_str(
            jentries(old(es)@),
            key@,
            match o {
                Some(s) => Some(s@),
                None => None,
            },
        ),
{
    match o {
        Some(s) => {
            push_member(es, key, Json::Str(s));
        },
        None => {},
    }
}

pub(crate) fn put_arr(es: &mut Vec<(String, Json)>, key: &str, a: Vec<Json>)
    ensures
        jentries(final(es)@) == ins_arr(jentries(old(es)@), key@, jvs(a@)),
{
    if a.len() > 0 {
        push_member(es, key, jarr(a));
    }
}

pub(crate) fn put_obj(es: &mut Vec<(String, Json)>, key: &str, o: Vec<(String, Json)>)
    ensures
        jentries(final(es)@) == ins_obj(jentries(old(es)@), key@, jentries(o@)),
{
    if o.len() > 0 {
        push_member(es, key, jobj(o));
    }
}

pub(crate) fn entries1(k: &str, v: Json) -> (r: Vec<(String, Json)>)
    ensures
        jentries(r@) == seq![(k@, jv(v))],
{
    let mut r: Vec<(String, Json)> = Vec::new();
    let ghost jvv = jv(v);
    r.push((owned(k), v));
    assert(jentries(r@) =~= seq![(k@, jvv)]);
    r
}

/// The kinds a v1 document may describe as catalog entities.
pub open spec fn v1_catalog_kind(k: Seq<char>) -> bool {
    k == "service"@ || k == "library"@ || k == "datastore"@ || k == "queue"@ || k == "api"@
}

/// The schema a catalog document follows: `v3`, `v2.2`, `v2.1`, `v2`, `v1`,
/// `v1-noncatalog` (a v1 document of another kind) or `unknown`. A document
/// without a version is v1 when it has `info.dd-service`.
pub open spec fn version_of(doc: JsonV) -> Seq<char> {
    if str_at(doc, "apiVersion"@) == Some("v3"@) {
        "v3"@
    } else {
        match str_at(doc, "schema-version"@) {
            Some(v) => if v == "v2.2"@ {
                "v2.2"@
            } else if v == "v2.1"@ {
                "v2.1"@
            } else if v == "v2"@ {
                "v2"@
            } else if v == "v1"@ {
                let kind = match str_at(doc, "kind"@) {
                    Some(k) => k,
                    None => Seq::empty(),
                };
                if kind.len() > 0 && !v1_catalog_kind(kind) {
                    "v1-noncatalog"@
                } else {
                    "v1"@
                }
            } else {
                "unknown"@
            },
            None => match vget(doc, "info"@) {
                Some(info) => if vget(info, "dd-service"@) is Some {
                    "v1"@
                } else {
                    "unknown"@
                },
                None => "unknown"@,
            },
        }
    }
}

pub(crate) fn opt_is(o: &Option<String>, lit: &str) -> (r: bool)
    ensures
        r == (o matches Some(s) && s@ == lit@),
{
    match o {
        Some(s) => str_eq(s.as_str(), lit),
        None => false,
    }
}

/// The schema a catalog document follows (see [`version_of`]).
pub fn detect_version(doc: &Json) -> (r: &'static str)
    ensures
        r@ == version_of(jv(*doc)),
{
    if opt_is(&str_field(doc, "apiVersion"), "v3") {
        return "v3";
    }
    match str_field(doc, "schema-version") {
        Some(v) => {
            let v = v.as_str();
            if str_eq(v, "v2.2") {
                "v2.2"
            } else if str_eq(v, "v2.1") {
                "v2.1"
            } else if str_eq(v, "v2") {
                "v2"
            } else if str_eq(v, "v1") {
                let kind = match str_field(doc, "kind") {
                    Some(k) => k,
                    None => {
                        let e = String::new();
                        assert(e@ =~= Seq::<char>::empty());
                        e
                    },
                };
                let k = kind.as_str();
                let catalog = str_eq(k, "service") || str_eq(k, "library") || str_eq(k, "datastore")
                    || str_eq(k, "queue") || str_eq(k, "api");
                if crate::text::to_chars(k).len() > 0 && !catalog {
                    "v1-noncatalog"
                } else {
                    "v1"
                }
            } else {
                "unknown"
            }
        },
        None => match get(doc, "info") {
            Some(info) => if get(info, "dd-service").is_some() {
                "v1"
            } else {
                "unknown"
            },
            None => "unknown",
        },
    }
}

/// The companion `kind: system` entity of an application: owned by the team
/// when there is one, with the service among its components.
pub open spec fn system_entity(app: Seq<char>, team: Option<Seq<char>>, service: Option<Seq<char>>) -> JsonV {
    let metadata = ins_opt_str(seq![("name"@, JsonV::Str(app))], "owner"@, team);
    let base = seq![
        ("apiVersion"@, JsonV::Str("v3"@)),
        ("kind"@, JsonV::Str("system"@)),
        ("metadata"@, JsonV::Object(metadata)),
    ];
    JsonV::Object(
        match service {
            Some(svc) => base.push(
                (
                    "spec"@,
                    JsonV::Object(
                        seq![("components"@, JsonV::Array(seq![JsonV::Str("service:"@ + svc)]))],
                    ),
                ),
            ),
            None => base,
        },
    )
}

/// The text of an optional string.
pub open spec fn ostr(o: Option<String>) -> Option<Seq<char>> {
    match o {
        Some(s) => Some(s@),
        None => None,
    }
}

/// The companion system entity of an application (see [`system_entity`]).
pub fn make_system_entity(application_name: &str, team: Option<&str>, service_name: Option<&str>) -> (r: Json)
    ensures
        jv(r) == system_entity(
            application_name@,
            match team {
                Some(t) => Some(t@),
                None => None,
            },
            match service_name {
                Some(s) => Some(s@),
                None => None,
            },
        ),
{
    let mut metadata = entries1("name", jstr(application_name));
    put_opt_str(
        &mut metadata,
        "owner",
        match team {
            Some(t) => Some(owned(t)),
            None => None,
        },
    );
    let mut entity = entries1("apiVersion", jstr("v3"));
    push_member(&mut entity, "kind", jstr("system"));
    let ghost mv = jentries(metadata@);
    push_member(&mut entity, "metadata", jobj(metadata));
    assert(jentries(entity@) =~= seq![
        ("apiVersion"@, JsonV::Str("v3"@)),
        ("kind"@, JsonV::Str("system"@)),
        ("metadata"@, JsonV::Object(mv)),
    ]);
    match service_name {
        Some(svc) => {
            let comp = concat2("service:", svc);
            let mut comps: Vec<Json> = Vec::new();
            comps.push(Json::Str(comp));
            assert(jvs(comps@) =~= seq![JsonV::Str("service:"@ + svc@)]);
            let spec = entries1("components", jarr(comps));
            push_member(&mut entity, "spec", jobj(spec));
        },
        None => {},
    }
    jobj(entity)
}


/// The canonical order of an entity's top-level members.
pub open spec fn top_order() -> Seq<Seq<char>> {
    seq!["apiVersion"@, "kind"@, "metadata"@, "spec"@, "integrations"@, "datadog"@, "extensions"@]
}

/// The canonical order of an entity's metadata members.
pub open spec fn metadata_order() -> Seq<Seq<char>> {
    seq![
        "name"@,
        "displayName"@,
        "description"@,
        "owner"@,
        "additionalOwners"@,
        "tags"@,
        "contacts"@,
        "links"@,
    ]
}

/// The canonical order of an entity's spec members.
pub open spec fn spec_order() -> Seq<Seq<char>> {
    seq!["lifecycle"@, "tier"@, "type"@, "languages"@, "dependsOn"@, "componentOf"@]
}

/// The members of `obj` named in `order`, in that order, leaving out empty ones.
pub open spec fn reorder_front(obj: Seq<(Seq<char>, JsonV)>, order: Seq<Seq<char>>) -> Seq<
    (Seq<char>, JsonV),
>
    decreases order.len(),
{
    if order.len() == 0 {
        Seq::empty()
    } else {
        let p = reorder_front(obj, order.drop_last());
        match entry_get(obj, order.last()) {
            Some(v) => if !empty_value(v) {
                vinsert(p, order.last(), v)
            } else {
                p
            },
            None => p,
        }
    }
}

/// `acc` followed by the members of `es` not named in `order`, in their order.
pub open spec fn reorder_rest(
    es: Seq<(Seq<char>, JsonV)>,
    order: Seq<Seq<char>>,
    acc: Seq<(Seq<char>, JsonV)>,
) -> Seq<(Seq<char>, JsonV)>
    decreases es.len(),
{
    if es.len() == 0 {
        acc
    } else {
        let a = reorder_rest(es.drop_last(), order, acc);
        if order.contains(es.last().0) {
            a
        } else {
            vinsert(a, es.last().0, es.last().1)
        }
    }
}

/// The members of an object in canonical order: those named in `order` first
/// (empty ones dropped), then the others as they came.
pub open spec fn reordered(obj: Seq<(Seq<char>, JsonV)>, order: Seq<Seq<char>>) -> Seq<
    (Seq<char>, JsonV),
> {
    reorder_rest(obj, order, reorder_front(obj, order))
}

/// `es` with the object member `key` put in canonical order.
pub open spec fn reorder_member(es: Seq<(Seq<char>, JsonV)>, key: Seq<char>, order: Seq<Seq<char>>) -> Seq<
    (Seq<char>, JsonV),
> {
    match entry_get(es, key) {
        Some(JsonV::Object(m)) => vinsert(es, key, JsonV::Object(reordered(m, order))),
        _ => es,
    }
}

/// An entity with its members, metadata and spec in canonical order; other
/// values are kept.
pub open spec fn ordered(raw: JsonV) -> JsonV {
    match raw {
        JsonV::Object(es) => JsonV::Object(
            reorder_member(
                reorder_member(reordered(es, top_order()), "metadata"@, metadata_order()),
                "spec"@,
                spec_order(),
            ),
        ),
        _ => raw,
    }
}

fn top_field_order() -> (r: Vec<&'static str>)
    ensures
        r@.map_values(|s: &'static str| s@) == top_order(),
{
    let r = vec!["apiVersion", "kind", "metadata", "spec", "integrations", "datadog", "extensions"];
    assert(r@.map_values(|s: &'static str| s@) =~= top_order());
    r
}

fn metadata_field_order() -> (r: Vec<&'static str>)
    ensures
        r@.map_values(|s: &'static str| s@) == metadata_order(),
{
    let r = vec![
        "name",
        "displayName",
        "description",
        "owner",
        "additionalOwners",
        "tags",
        "contacts",
        "links",
    ];
    assert(r@.map_values(|s: &'static str| s@) =~= metadata_order());
    r
}

fn spec_field_order() -> (r: Vec<&'static str>)
    ensures
        r@.map_values(|s: &'static str| s@) == spec_order(),
{
    let r = vec!["lifecycle", "tier", "type", "languages", "dependsOn", "componentOf"];
    assert(r@.map_values(|s: &'static str| s@) =~= spec_order());
    r
}

fn list_contains(order: &Vec<&'static str>, k: &str) -> (r: bool)
    ensures
        r == order@.map_values(|s: &'static str| s@).contains(k@),
{
    let ghost ov = order@.map_values(|s: &'static str| s@);
    let mut i: usize = 0;
    while i < order.len()
        invariant
            i <= order@.len(),
            ov == order@.map_values(|s: &'static str| s@),
            forall|j: int| 0 <= j < i ==> ov[j] != k@,
        decreases order@.len() - i,
    {
        if str_eq(order[i], k) {
            assert(ov[i as int] == k@);
            return true;
        }
        i += 1;
    }
    false
}

pub(crate) fn entries_get<'a>(es: &'a Vec<(String, Json)>, key: &str) -> (r: Option<&'a Json>)
    ensures
        match r {
            Some(x) => entry_get(jentries(es@), key@) == Some(jv(*x)),
            None => entry_get(jentries(es@), key@) is None,
        },
{
    let ghost e = jentries(es@);
    let mut i: usize = 0;
    assert(e.skip(0) =~= e);
    while i < es.len()
        invariant
            i <= es@.len(),
            e == jentries(es@),
            entry_get(e, key@) == entry_get(e.skip(i as int), key@),
        decreases es@.len() - i,
    {
        assert(e.skip(i as int).drop_first() =~= e.skip(i + 1));
        if str_eq(es[i].0.as_str(), key) {
            return Some(&es[i].1);
        }
        i += 1;
    }
    None
}

/// The members of an object in canonical order (see [`reordered`]).
pub fn reorder_map(obj: &Vec<(String, Json)>, order: &Vec<&'static str>) -> (r: Vec<(String, Json)>)
    ensures
        jentries(r@) == reordered(jentries(obj@), order@.map_values(|s: &'static str| s@)),
{
    let ghost ov = order@.map_values(|s: &'static str| s@);
    let ghost ob = jentries(obj@);
    let mut out: Vec<(String, Json)> = Vec::new();
    let mut i: usize = 0;
    assert(ov.take(0) =~= Seq::<Seq<char>>::empty());
    assert(jentries(out@) =~= Seq::<(Seq<char>, JsonV)>::empty());
    while i < order.len()
        invariant
            i <= order@.len(),
            ov == order@.map_values(|s: &'static str| s@),
            ob == jentries(obj@),
            jentries(out@) == reorder_front(ob, ov.take(i as int)),
        decreases order@.len() - i,
    {
        assert(ov.take(i + 1).drop_last() =~= ov.take(i as int));
        assert(ov.take(i + 1).last() == order@[i as int]@);
        match entries_get(obj, order[i]) {
            Some(v) => {
                if !is_empty_value(v) {
                    obj_insert(&mut out, owned(order[i]), copy_json(v));
                }
            },
            None => {},
        }
        i += 1;
    }
    assert(ov.take(order@.len() as int) =~= ov);
    let ghost front = jentries(out@);
    let mut k: usize = 0;
    assert(ob.take(0) =~= Seq::<(Seq<char>, JsonV)>::empty());
    while k < obj.len()
        invariant
            k <= obj@.len(),
            ov == order@.map_values(|s: &'static str| s@),
            ob == jentries(obj@),
            front == reorder_front(ob, ov),
            jentries(out@) == reorder_rest(ob.take(k as int), ov, front),
        decreases obj@.len() - k,
    {
        assert(ob.take(k + 1).drop_last() =~= ob.take(k as int));
        assert(ob.take(k + 1).last() == ob[k as int]);
        if !list_contains(order, obj[k].0.as_str()) {
            obj_insert(&mut out, obj[k].0.clone(), copy_json(&obj[k].1));
        }
        k += 1;
    }
    assert(ob.take(obj@.len() as int) =~= ob);
    out
}

fn reorder_member_exec(es: &mut Vec<(String, Json)>, key: &str, order: &Vec<&'static str>)
    ensures
        jentries(final(es)@) == reorder_member(
            jentries(old(es)@),
            key@,
            order@.map_values(|s: &'static str| s@),
        ),
{
    let inner = match entries_get(es, key) {
        Some(x) => match x {
            Json::Object(m) => {
                assert(jv(*x)->Object_0 =~= jentries(m@));
                let r = reorder_map(m, order);
                Some(r)
            },
            _ => None,
        },
        None => None,
    };
    match inner {
        Some(r) => {
            obj_insert(es, owned(key), jobj(r));
        },
        None => {},
    }
}

/// An entity in canonical order (see [`ordered`]).
pub fn ordered_entity(raw: Json) -> (r: Json)
    ensures
        jv(r) == ordered(jv(raw)),
{
    match raw {
        Json::Object(es) => {
            let ghost ev = jentries(es@);
            proof {
                assert(jv(Json::Object(es))->Object_0 =~= ev);
            }
            let mut result = reorder_map(&es, &top_field_order());
            reorder_member_exec(&mut result, "metadata", &metadata_field_order());
            reorder_member_exec(&mut result, "spec", &spec_field_order());
            jobj(result)
        },
        other => other,
    }
}


/// The entries followed by `key` with the value, when there is one.
pub open spec fn ins_opt(es: Seq<(Seq<char>, JsonV)>, key: Seq<char>, o: Option<JsonV>) -> Seq<
    (Seq<char>, JsonV),
> {
    match o {
        Some(v) => es.push((key, v)),
        None => es,
    }
}

pub(crate) fn put_opt(es: &mut Vec<(String, Json)>, key: &str, o: Option<&Json>)
    ensures
        jentries(final(es)@) == ins_opt(
            jentries(old(es)@),
            key@,
            match o {
                Some(v) => Some(jv(*v)),
                None => None,
            },
        ),
{
    match o {
        Some(v) => push_member(es, key, copy_json(v)),
        None => {},
    }
}

/// The type of a link object, `other` when it has none.
pub open spec fn link_type_of(obj: Seq<(Seq<char>, JsonV)>) -> Seq<char> {
    match vstr(entry_get(obj, "type"@)) {
        Some(t) => t,
        None => "other"@,
    }
}

/// The v3 links of v2 link objects: each object kept with its type remapped;
/// values that are not objects are dropped.
pub open spec fn migrated_links(src: Seq<JsonV>) -> Seq<JsonV>
    decreases src.len(),
{
    if src.len() == 0 {
        Seq::empty()
    } else {
        let p = migrated_links(src.drop_last());
        match src.last() {
            JsonV::Object(o) => p.push(
                JsonV::Object(vinsert(o, "type"@, JsonV::Str(remapped_link_type(link_type_of(o))))),
            ),
            _ => p,
        }
    }
}

/// A link of type `t` from a repository or document object: its name, provider
/// and url as given.
pub open spec fn typed_link(t: Seq<char>, o: Seq<(Seq<char>, JsonV)>) -> JsonV {
    JsonV::Object(
        ins_opt(
            ins_opt(
                ins_opt(seq![("type"@, JsonV::Str(t))], "name"@, entry_get(o, "name"@)),
                "provider"@,
                entry_get(o, "provider"@),
            ),
            "url"@,
            entry_get(o, "url"@),
        ),
    )
}

/// The links of type `t` made from the objects among `src`.
pub open spec fn typed_links(t: Seq<char>, src: Seq<JsonV>) -> Seq<JsonV>
    decreases src.len(),
{
    if src.len() == 0 {
        Seq::empty()
    } else {
        let p = typed_links(t, src.drop_last());
        match src.last() {
            JsonV::Object(o) => p.push(typed_link(t, o)),
            _ => p,
        }
    }
}

fn link_type_exec(obj: &Vec<(String, Json)>) -> (r: String)
    ensures
        r@ == link_type_of(jentries(obj@)),
{
    match entries_get(obj, "type") {
        Some(Json::Str(t)) => t.clone(),
        _ => owned("other"),
    }
}

/// The v3 links of v2 link objects (see [`migrated_links`]).
pub fn migrate_links(src: &Vec<Json>) -> (r: Vec<Json>)
    ensures
        jvs(r@) == migrated_links(jvs(src@)),
{
    let ghost sv = jvs(src@);
    let mut out: Vec<Json> = Vec::new();
    let mut i: usize = 0;
    assert(jvs(out@) =~= migrated_links(sv.take(0)));
    while i < src.len()
        invariant
            i <= src@.len(),
            sv == jvs(src@),
            jvs(out@) == migrated_links(sv.take(i as int)),
        decreases src@.len() - i,
    {
        assert(sv.take(i + 1).drop_last() =~= sv.take(i as int));
        assert(sv.take(i + 1).last() == jv(src@[i as int]));
        match &src[i] {
            Json::Object(obj) => {
                assert(jv(src@[i as int])->Object_0 =~= jentries(obj@));
                let t = link_type_exec(obj);
                let mapped = remap_link_type(t.as_str());
                let c = copy_json(&src[i]);
                let mut entries = match c {
                    Json::Object(e) => e,
                    _ => Vec::new(),
                };
                assert(jentries(entries@) =~= jentries(obj@));
                obj_insert(&mut entries, owned("type"), Json::Str(mapped));
                let ghost before = jvs(out@);
                let link = jobj(entries);
                let ghost lv = jv(link);
                out.push(link);
                assert(jvs(out@) =~= before.push(lv));
            },
            _ => {},
        }
        i += 1;
    }
    assert(sv.take(src@.len() as int) =~= sv);
    out
}

fn typed_links_exec(t: &str, src: &Vec<Json>) -> (r: Vec<Json>)
    ensures
        jvs(r@) == typed_links(t@, jvs(src@)),
{
    let ghost sv = jvs(src@);
    let mut out: Vec<Json> = Vec::new();
    let mut i: usize = 0;
    assert(jvs(out@) =~= typed_links(t@, sv.take(0)));
    while i < src.len()
        invariant
            i <= src@.len(),
            sv == jvs(src@),
            jvs(out@) == typed_links(t@, sv.take(i as int)),
        decreases src@.len() - i,
    {
        assert(sv.take(i + 1).drop_last() =~= sv.take(i as int));
        assert(sv.take(i + 1).last() == jv(src@[i as int]));
        match &src[i] {
            Json::Object(obj) => {
                assert(jv(src@[i as int])->Object_0 =~= jentries(obj@));
                let mut link = entries1("type", jstr(t));
                put_opt(&mut link, "name", entries_get(obj, "name"));
                put_opt(&mut link, "provider", entries_get(obj, "provider"));
                put_opt(&mut link, "url", entries_get(obj, "url"));
                let ghost before = jvs(out@);
                let l = jobj(link);
                let ghost lv = jv(l);
                out.push(l);
                assert(jvs(out@) =~= before.push(lv));
            },
            _ => {},
        }
        i += 1;
    }
    assert(sv.take(src@.len() as int) =~= sv);
    out
}

/// The links made from repository objects.
pub fn repos_to_links(repos: &Vec<Json>) -> (r: Vec<Json>)
    ensures
        jvs(r@) == typed_links("repo"@, jvs(repos@)),
{
    typed_links_exec("repo", repos)
}

/// The links made from document objects.
pub fn docs_to_links(docs: &Vec<Json>) -> (r: Vec<Json>)
    ensures
        jvs(r@) == typed_links("doc"@, jvs(docs@)),
{
    typed_links_exec("doc", docs)
}

/// The kind and name of a v2 entity: the first of `dd-service`, `dd-package`,
/// `dd-datastore`, `dd-queue`, `dd-api` that is present; an unnamed service
/// otherwise.
pub open spec fn entity_kind_of(doc: JsonV) -> (Seq<char>, Seq<char>) {
    if str_at(doc, "dd-service"@) is Some {
        ("service"@, str_at(doc, "dd-service"@)->0)
    } else if str_at(doc, "dd-package"@) is Some {
        ("library"@, str_at(doc, "dd-package"@)->0)
    } else if str_at(doc, "dd-datastore"@) is Some {
        ("datastore"@, str_at(doc, "dd-datastore"@)->0)
    } else if str_at(doc, "dd-queue"@) is Some {
        ("queue"@, str_at(doc, "dd-queue"@)->0)
    } else if str_at(doc, "dd-api"@) is Some {
        ("api"@, str_at(doc, "dd-api"@)->0)
    } else {
        ("service"@, Seq::empty())
    }
}

/// The kind and name of a v2 entity (see [`entity_kind_of`]).
pub fn detect_entity_kind(doc: &Json) -> (r: (String, String))
    ensures
        (r.0@, r.1@) == entity_kind_of(jv(*doc)),
{
    if let Some(n) = str_field(doc, "dd-service") {
        return (owned("service"), n);
    }
    if let Some(n) = str_field(doc, "dd-package") {
        return (owned("library"), n);
    }
    if let Some(n) = str_field(doc, "dd-datastore") {
        return (owned("datastore"), n);
    }
    if let Some(n) = str_field(doc, "dd-queue") {
        return (owned("queue"), n);
    }
    if let Some(n) = str_field(doc, "dd-api") {
        return (owned("api"), n);
    }
    let e = String::new();
    assert(e@ =~= Seq::<char>::empty());
    (owned("service"), e)
}

/// The service URL of an integration object: its `service-url`, or else its
/// `serviceURL`, when that is a string.
pub open spec fn service_url_of(obj: Seq<(Seq<char>, JsonV)>) -> Option<Seq<char>> {
    vstr(
        match entry_get(obj, "service-url"@) {
            Some(v) => Some(v),
            None => entry_get(obj, "serviceURL"@),
        },
    )
}

pub(crate) fn service_url_exec(obj: &Vec<(String, Json)>) -> (r: Option<String>)
    ensures
        ostr(r) == service_url_of(jentries(obj@)),
{
    let v = match entries_get(obj, "service-url") {
        Some(v) => Some(v),
        None => entries_get(obj, "serviceURL"),
    };
    match v {
        Some(Json::Str(s)) => Some(s.clone()),
        _ => None,
    }
}

/// The warning for an Opsgenie integration without a service URL.
pub open spec fn opsgenie_warning() -> Seq<char> {
    "WARNING: 'integrations.opsgenie' has no 'service-url'. Preserving in extensions['x-migrated/opsgenie']."@
}

/// The v3 integrations of a v2 document's `integrations`, the extensions after
/// an Opsgenie integration without a service URL is preserved in them, and the
/// warnings given: PagerDuty as a URL or an object with a service URL, Opsgenie
/// as an object with a service URL (and its region, when given).
pub open spec fn integrations_of(src: Option<JsonV>, ext: Seq<(Seq<char>, JsonV)>) -> (
    Seq<(Seq<char>, JsonV)>,
    Seq<(Seq<char>, JsonV)>,
    Seq<Seq<char>>,
) {
    let pd = match src {
        Some(s) => vget(s, "pagerduty"@),
        None => None,
    };
    let out1: Seq<(Seq<char>, JsonV)> = match pd {
        Some(JsonV::Str(url)) => seq![("pagerduty"@, JsonV::Object(seq![("serviceURL"@, JsonV::Str(url))]))],
        Some(JsonV::Object(o)) => match service_url_of(o) {
            Some(url) => seq![("pagerduty"@, JsonV::Object(seq![("serviceURL"@, JsonV::Str(url))]))],
            None => Seq::empty(),
        },
        _ => Seq::empty(),
    };
    let og = match src {
        Some(s) => vget(s, "opsgenie"@),
        None => None,
    };
    match og {
        Some(JsonV::Object(o)) => match service_url_of(o) {
            Some(url) => (
                out1.push(
                    (
                        "opsgenie"@,
                        JsonV::Object(
                            ins_opt(
                                seq![("serviceURL"@, JsonV::Str(url))],
                                "region"@,
                                entry_get(o, "region"@),
                            ),
                        ),
                    ),
                ),
                ext,
                Seq::empty(),
            ),
            None => (
                out1,
                vinsert(ext, "x-migrated/opsgenie"@, JsonV::Object(o)),
                seq![opsgenie_warning()],
            ),
        },
        _ => (out1, ext, Seq::empty()),
    }
}

pub(crate) fn url_object(url: String) -> (r: Json)
    ensures
        jv(r) == JsonV::Object(seq![("serviceURL"@, JsonV::Str(url@))]),
{
    jobj(entries1("serviceURL", Json::Str(url)))
}

/// The v3 integrations of a v2 document (see [`integrations_of`]).
pub fn build_integrations(src: Option<&Json>, ext: Vec<(String, Json)>) -> (r: (
    Vec<(String, Json)>,
    Vec<(String, Json)>,
    Vec<String>,
))
    ensures
        ({
            let (o, e, w) = integrations_of(
                match src {
                    Some(s) => Some(jv(*s)),
                    None => None,
                },
                jentries(ext@),
            );
            &&& jentries(r.0@) == o
            &&& jentries(r.1@) == e
            &&& r.2@.map_values(|m: String| m@) == w
        }),
{
    let ghost ext0 = jentries(ext@);
    let mut ext = ext;
    let mut out: Vec<(String, Json)> = Vec::new();
    let mut warnings: Vec<String> = Vec::new();
    assert(jentries(out@) =~= Seq::<(Seq<char>, JsonV)>::empty());
    let pd = match src {
        Some(s) => get(s, "pagerduty"),
        None => None,
    };
    match pd {
        Some(v) => match v {
            Json::Str(url) => {
                push_member(&mut out, "pagerduty", url_object(url.clone()));
            },
            Json::Object(o) => {
                assert(jv(*v)->Object_0 =~= jentries(o@));
                match service_url_exec(o) {
                    Some(url) => push_member(&mut out, "pagerduty", url_object(url)),
                    None => {},
                }
            },
            _ => {},
        },
        None => {},
    }
    let og = match src {
        Some(s) => get(s, "opsgenie"),
        None => None,
    };
    match og {
        Some(v) => match v {
            Json::Object(o) => {
                assert(jv(*v)->Object_0 =~= jentries(o@));
                match service_url_exec(o) {
                    Some(url) => {
                        let mut og_out = entries1("serviceURL", Json::Str(url));
                        put_opt(&mut og_out, "region", entries_get(o, "region"));
                        push_member(&mut out, "opsgenie", jobj(og_out));
                    },
                    None => {
                        obj_insert(&mut ext, owned("x-migrated/opsgenie"), copy_json(v));
                        warnings.push(
                            owned(
                                "WARNING: 'integrations.opsgenie' has no 'service-url'. Preserving in extensions['x-migrated/opsgenie'].",
                            ),
                        );
                    },
                }
            },
            _ => {},
        },
        None => {},
    }
    let ghost w = warnings@.map_values(|m: String| m@);
    assert(w =~= integrations_of(
        match src {
            Some(s) => Some(jv(*s)),
            None => None,
        },
        ext0,
    ).2) by {
        assert(w.len() == warnings@.len());
    }
    (out, ext, warnings)
}

/// The value kept under `k` by the front of a reordering: the member `k` of
/// the object when `k` is among those ordered and the member is not empty.
pub open spec fn front_value(es: Seq<(Seq<char>, JsonV)>, order: Seq<Seq<char>>, k: Seq<char>) -> Option<JsonV> {
    if order.contains(k) {
        match entry_get(es, k) {
            Some(v) => if !empty_value(v) {
                Some(v)
            } else {
                None
            },
            None => None,
        }
    } else {
        None
    }
}

proof fn lemma_front_get(es: Seq<(Seq<char>, JsonV)>, order: Seq<Seq<char>>, k: Seq<char>)
    ensures
        entry_get(reorder_front(es, order), k) == front_value(es, order, k),
    decreases order.len(),
{
    if order.len() == 0 {
        assert(!order.contains(k));
    } else {
        let rest = order.drop_last();
        let last = order.last();
        lemma_front_get(es, rest, k);
        let p = reorder_front(es, rest);
        if k != last {
            assert(order.contains(k) == rest.contains(k)) by {
                if order.contains(k) {
                    let i = choose|i: int| 0 <= i < order.len() && order[i] == k;
                    assert(i < order.len() - 1);
                    assert(rest[i] == k);
                }
                if rest.contains(k) {
                    let i = choose|i: int| 0 <= i < rest.len() && rest[i] == k;
                    assert(order[i] == k);
                }
            }
        } else {
            assert(order[order.len() - 1] == k);
            assert(order.contains(k));
        }
        match entry_get(es, last) {
            Some(v) => if !empty_value(v) {
                lemma_entry_get_vinsert(p, last, v, k);
            },
            None => {},
        }
    }
}

proof fn lemma_rest_get(
    es: Seq<(Seq<char>, JsonV)>,
    order: Seq<Seq<char>>,
    acc: Seq<(Seq<char>, JsonV)>,
    k: Seq<char>,
)
    requires
        order.contains(k),
    ensures
        entry_get(reorder_rest(es, order, acc), k) == entry_get(acc, k),
    decreases es.len(),
{
    if es.len() > 0 {
        lemma_rest_get(es.drop_last(), order, acc, k);
        let a = reorder_rest(es.drop_last(), order, acc);
        if !order.contains(es.last().0) {
            lemma_entry_get_vinsert(a, es.last().0, es.last().1, k);
        }
    }
}

proof fn lemma_member_get(es: Seq<(Seq<char>, JsonV)>, key: Seq<char>, order: Seq<Seq<char>>, k: Seq<char>)
    requires
        k != key,
    ensures
        entry_get(reorder_member(es, key, order), k) == entry_get(es, k),
{
    match entry_get(es, key) {
        Some(JsonV::Object(m)) => {
            lemma_entry_get_vinsert(es, key, JsonV::Object(reordered(m, order)), k);
        },
        _ => {},
    }
}

/// An entity in canonical order keeps its API version: the member
/// `apiVersion` of an object whose `apiVersion` is a string.
pub proof fn lemma_ordered_api_version(es: Seq<(Seq<char>, JsonV)>, v: Seq<char>)
    requires
        entry_get(es, "apiVersion"@) == Some(JsonV::Str(v)),
    ensures
        str_at(ordered(JsonV::Object(es)), "apiVersion"@) == Some(v),
{
    reveal_strlit("apiVersion");
    reveal_strlit("metadata");
    reveal_strlit("spec");
    let k = "apiVersion"@;
    assert(top_order()[0] == k);
    assert(top_order().contains(k));
    lemma_front_get(es, top_order(), k);
    lemma_rest_get(es, top_order(), reorder_front(es, top_order()), k);
    assert(k != "metadata"@) by {
        assert(k.len() != "metadata"@.len());
    }
    assert(k != "spec"@) by {
        assert(k.len() != "spec"@.len());
    }
    let r = reordered(es, top_order());
    lemma_member_get(r, "metadata"@, metadata_order(), k);
    lemma_member_get(reorder_member(r, "metadata"@, metadata_order()), "spec"@, spec_order(), k);
}

} // verus!
