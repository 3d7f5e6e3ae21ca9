//! Migration of v2, v2.1 and v2.2 catalog documents to v3 entities.
use vstd::prelude::*;

use crate::idp::migrate::{
    build_integrations, detect_entity_kind, docs_to_links, entity_kind_of, entries1, ins_arr,
    ins_obj, ins_opt_str, integrations_of, migrate_links, migrated_links, ordered, ordered_entity,
    ostr, push_member, put_arr, put_obj, put_opt_str, repos_to_links, system_entity, make_system_entity,
    typed_links,
};
use crate::json::{
    arr_at, arr_field, copy_json, get, jarr, jentries, jobj, jstr, jv, jvs, obj_insert, str_at,
    str_field, vget, vinsert, Json, JsonV,
};
use crate::text::{concat2, concat3, str_eq};

verus! {

/// The three variants of the v2 schema.
#[derive(Clone, Copy, Debug)]
pub enum V2Schema {
    V2,
    V21,
    V22,
}

/// The top-level fields that every v2 variant defines.
pub open spec fn v2_common_field(k: Seq<char>) -> bool {
    ||| k == "schema-version"@
    ||| k == "dd-service"@
    ||| k == "dd-package"@
    ||| k == "dd-datastore"@
    ||| k == "dd-queue"@
    ||| k == "dd-api"@
    ||| k == "team"@
    ||| k == "dd-team"@
    ||| k == "description"@
    ||| k == "display-name"@
    ||| k == "application"@
    ||| k == "tier"@
    ||| k == "lifecycle"@
    ||| k == "contacts"@
    ||| k == "links"@
    ||| k == "repos"@
    ||| k == "docs"@
    ||| k == "tags"@
    ||| k == "integrations"@
    ||| k == "extensions"@
}

/// The top-level fields a variant defines: v2.1 has no `type` and
/// `languages`, and only v2.2 has `ci-pipeline-fingerprints`.
pub open spec fn v2_known_field(schema: V2Schema, k: Seq<char>) -> bool {
    ||| v2_common_field(k)
    ||| (!(schema is V21) && (k == "type"@ || k == "languages"@))
    ||| (schema is V22 && k == "ci-pipeline-fingerprints"@)
}

/// Whether a variant defines a top-level field (see [`v2_known_field`]).
pub fn is_known_v2_field(schema: V2Schema, k: &str) -> (r: bool)
    ensures
        r == v2_known_field(schema, k@),
{
    let common = str_eq(k, "schema-version") || str_eq(k, "dd-service") || str_eq(k, "dd-package")
        || str_eq(k, "dd-datastore") || str_eq(k, "dd-queue") || str_eq(k, "dd-api") || str_eq(
        k,
        "team",
    ) || str_eq(k, "dd-team") || str_eq(k, "description") || str_eq(k, "display-name") || str_eq(
        k,
        "application",
    ) || str_eq(k, "tier") || str_eq(k, "lifecycle") || str_eq(k, "contacts") || str_eq(
        k,
        "links",
    ) || str_eq(k, "repos") || str_eq(k, "docs") || str_eq(k, "tags") || str_eq(
        k,
        "integrations",
    ) || str_eq(k, "extensions");
    let typed = match schema {
        V2Schema::V21 => false,
        _ => str_eq(k, "type") || str_eq(k, "languages"),
    };
    let pipelines = match schema {
        V2Schema::V22 => str_eq(k, "ci-pipeline-fingerprints"),
        _ => false,
    };
    common || typed || pipelines
}

/// The entries of an object; none for other values.
pub open spec fn members(j: JsonV) -> Seq<(Seq<char>, JsonV)> {
    match j {
        JsonV::Object(es) => es,
        _ => Seq::empty(),
    }
}

/// The extensions after the fields of `es` that the variant does not define
/// are kept under `x-migrated/` followed by their name.
pub open spec fn fold_unknown(
    schema: V2Schema,
    es: Seq<(Seq<char>, JsonV)>,
    acc: Seq<(Seq<char>, JsonV)>,
) -> Seq<(Seq<char>, JsonV)>
    decreases es.len(),
{
    if es.len() == 0 {
        acc
    } else {
        let a = fold_unknown(schema, es.drop_last(), acc);
        if v2_known_field(schema, es.last().0) {
            a
        } else {
            vinsert(a, "x-migrated/"@ + es.last().0, es.last().1)
        }
    }
}

/// The extensions of a v2 document before its integrations are read: its own
/// `extensions` object, then every field the variant does not define.
pub open spec fn v2_unknown_ext(schema: V2Schema, doc: JsonV) -> Seq<(Seq<char>, JsonV)> {
    let base = match vget(doc, "extensions"@) {
        Some(JsonV::Object(o)) => o,
        _ => Seq::empty(),
    };
    fold_unknown(schema, members(doc), base)
}

pub(crate) fn object_entries(j: Option<&Json>) -> (r: Vec<(String, Json)>)
    ensures
        jentries(r@) == match j {
            Some(x) => match jv(*x) {
                JsonV::Object(o) => o,
                _ => Seq::empty(),
            },
            None => Seq::<(Seq<char>, JsonV)>::empty(),
        },
{
    match j {
        Some(x) => match x {
            Json::Object(o) => {
                let c = copy_json(x);
                let r = match c {
                    Json::Object(e) => e,
                    _ => Vec::new(),
                };
                assert(jentries(r@) =~= jv(*x)->Object_0);
                r
            },
            _ => {
                let r: Vec<(String, Json)> = Vec::new();
                assert(jentries(r@) =~= Seq::<(Seq<char>, JsonV)>::empty());
                r
            },
        },
        None => {
            let r: Vec<(String, Json)> = Vec::new();
            assert(jentries(r@) =~= Seq::<(Seq<char>, JsonV)>::empty());
            r
        },
    }
}

fn unknown_ext(schema: V2Schema, doc: &Json) -> (r: Vec<(String, Json)>)
    ensures
        jentries(r@) == v2_unknown_ext(schema, jv(*doc)),
{
    let mut ext = object_entries(get(doc, "extensions"));
    match doc {
        Json::Object(es) => {
            let ghost e = jentries(es@);
            let ghost base = jentries(ext@);
            assert(jv(*doc)->Object_0 =~= e);
            assert(e.take(0) =~= Seq::<(Seq<char>, JsonV)>::empty());
            let mut i: usize = 0;
            while i < es.len()
                invariant
                    i <= es@.len(),
                    e == jentries(es@),
                    jentries(ext@) == fold_unknown(schema, e.take(i as int), base),
                decreases es@.len() - i,
            {
                assert(e.take(i + 1).drop_last() =~= e.take(i as int));
                assert(e.take(i + 1).last() == (es@[i as int].0@, jv(es@[i as int].1)));
                if !is_known_v2_field(schema, es[i].0.as_str()) {
                    let key = concat2("x-migrated/", es[i].0.as_str());
                    obj_insert(&mut ext, key, copy_json(&es[i].1));
                }
                i += 1;
            }
            assert(e.take(es@.len() as int) =~= e);
        },
        _ => {},
    }
    ext
}

/// The owner of a v2 entity: its `team`, or else its `dd-team`.
pub open spec fn team_of(doc: JsonV) -> Option<Seq<char>> {
    match str_at(doc, "team"@) {
        Some(t) => Some(t),
        None => str_at(doc, "dd-team"@),
    }
}

/// The v3 links of a v2 document: its links with their types remapped, then
/// one per repository, then one per document.
pub open spec fn v2_links(doc: JsonV) -> Seq<JsonV> {
    migrated_links(arr_at(doc, "links"@)) + typed_links("repo"@, arr_at(doc, "repos"@)) + typed_links(
        "doc"@,
        arr_at(doc, "docs"@),
    )
}

/// The metadata of the v3 entity of a v2 document named `name`.
pub open spec fn v2_metadata(doc: JsonV, name: Seq<char>) -> Seq<(Seq<char>, JsonV)> {
    let m1 = ins_opt_str(seq![("name"@, JsonV::Str(name))], "displayName"@, str_at(doc, "display-name"@));
    let m2 = ins_opt_str(m1, "description"@, str_at(doc, "description"@));
    let m3 = ins_opt_str(m2, "owner"@, team_of(doc));
    let m4 = ins_arr(m3, "tags"@, arr_at(doc, "tags"@));
    let m5 = ins_arr(m4, "contacts"@, arr_at(doc, "contacts"@));
    ins_arr(m5, "links"@, v2_links(doc))
}

/// The entries followed by `componentOf` naming the application's system,
/// when there is an application.
pub open spec fn ins_component_of(es: Seq<(Seq<char>, JsonV)>, app: Option<Seq<char>>) -> Seq<
    (Seq<char>, JsonV),
> {
    match app {
        Some(a) => es.push(("componentOf"@, JsonV::Array(seq![JsonV::Str("system:"@ + a)]))),
        None => es,
    }
}

/// The spec of the v3 entity of a v2 document: lifecycle, tier, type and
/// languages (not in v2.1), and the system of its application.
pub open spec fn v2_spec(schema: V2Schema, doc: JsonV) -> Seq<(Seq<char>, JsonV)> {
    let s1 = ins_opt_str(Seq::empty(), "lifecycle"@, str_at(doc, "lifecycle"@));
    let s2 = ins_opt_str(s1, "tier"@, str_at(doc, "tier"@));
    let s4 = if schema is V21 {
        s2
    } else {
        ins_arr(ins_opt_str(s2, "type"@, str_at(doc, "type"@)), "languages"@, arr_at(doc, "languages"@))
    };
    ins_component_of(s4, str_at(doc, "application"@))
}

/// The `datadog` section of the v3 entity: the CI pipeline fingerprints of a
/// v2.2 document, when it has any.
pub open spec fn v2_datadog(schema: V2Schema, doc: JsonV) -> Seq<(Seq<char>, JsonV)> {
    let fps = arr_at(doc, "ci-pipeline-fingerprints"@);
    if schema is V22 && fps.len() > 0 {
        seq![("pipelines"@, JsonV::Object(seq![("fingerprints"@, JsonV::Array(fps))]))]
    } else {
        Seq::empty()
    }
}

/// The v3 entity of a v2 document before it is put in canonical order.
pub open spec fn v2_raw_entity(schema: V2Schema, doc: JsonV) -> JsonV {
    let (kind, name) = entity_kind_of(doc);
    let (integrations, ext, _warnings) = integrations_of(
        vget(doc, "integrations"@),
        v2_unknown_ext(schema, doc),
    );
    let e0 = seq![
        ("apiVersion"@, JsonV::Str("v3"@)),
        ("kind"@, JsonV::Str(kind)),
        ("metadata"@, JsonV::Object(v2_metadata(doc, name))),
    ];
    let e1 = ins_obj(e0, "spec"@, v2_spec(schema, doc));
    let e2 = ins_obj(e1, "integrations"@, integrations);
    let e3 = ins_obj(e2, "datadog"@, v2_datadog(schema, doc));
    JsonV::Object(ins_obj(e3, "extensions"@, ext))
}

/// The warning given for a v2 document that names an application.
pub open spec fn application_warning(app: Seq<char>) -> Seq<char> {
    "WARNING: 'application' field found (value: '"@ + app
        + "'). A companion 'kind: system' entity will be generated."@
}

/// The companion system entity of a v2 document with an application.
pub open spec fn v2_companions(doc: JsonV) -> Seq<JsonV> {
    match str_at(doc, "application"@) {
        Some(app) => seq![system_entity(app, team_of(doc), Some(entity_kind_of(doc).1))],
        None => Seq::empty(),
    }
}

/// The warnings of a v2 migration: those of its integrations, then the one
/// for an application.
pub open spec fn v2_warnings(schema: V2Schema, doc: JsonV) -> Seq<Seq<char>> {
    let w = integrations_of(vget(doc, "integrations"@), v2_unknown_ext(schema, doc)).2;
    match str_at(doc, "application"@) {
        Some(app) => w.push(application_warning(app)),
        None => w,
    }
}

/// The result of migrating one document: the v3 entity, the companion system
/// entities it calls for, and the messages to show.
pub struct Migrated {
    pub entity: Json,
    pub companions: Vec<Json>,
    pub messages: Vec<String>,
}

/// The texts of a list of messages.
pub open spec fn texts(w: Seq<String>) -> Seq<Seq<char>> {
    w.map_values(|m: String| m@)
}

pub(crate) fn opt_str_field(j: &Json, key: &str) -> (r: Option<String>)
    ensures
        ostr(r) == str_at(jv(*j), key@),
{
    str_field(j, key)
}

pub(crate) fn team_field(doc: &Json) -> (r: Option<String>)
    ensures
        ostr(r) == team_of(jv(*doc)),
{
    match str_field(doc, "team") {
        Some(t) => Some(t),
        None => opt_str_field(doc, "dd-team"),
    }
}

fn v2_links_exec(doc: &Json) -> (r: Vec<Json>)
    ensures
        jvs(r@) == v2_links(jv(*doc)),
{
    let mut links = migrate_links(&arr_field(doc, "links"));
    let mut repos = repos_to_links(&arr_field(doc, "repos"));
    let mut docs = docs_to_links(&arr_field(doc, "docs"));
    let ghost (a, b, c) = (links@, repos@, docs@);
    links.append(&mut repos);
    links.append(&mut docs);
    assert(jvs(links@) =~= jvs(a) + jvs(b) + jvs(c));
    links
}

fn v2_metadata_exec(doc: &Json, name: &str) -> (r: Vec<(String, Json)>)
    ensures
        jentries(r@) == v2_metadata(jv(*doc), name@),
{
    let mut m = entries1("name", jstr(name));
    put_opt_str(&mut m, "displayName", opt_str_field(doc, "display-name"));
    put_opt_str(&mut m, "description", opt_str_field(doc, "description"));
    put_opt_str(&mut m, "owner", team_field(doc));
    put_arr(&mut m, "tags", arr_field(doc, "tags"));
    put_arr(&mut m, "contacts", arr_field(doc, "contacts"));
    put_arr(&mut m, "links", v2_links_exec(doc));
    m
}

pub(crate) fn put_component_of(es: &mut Vec<(String, Json)>, app: &Option<String>)
    ensures
        jentries(final(es)@) == ins_component_of(jentries(old(es)@), ostr(*app)),
{
    match app {
        Some(a) => {
            let mut comps: Vec<Json> = Vec::new();
            comps.push(Json::Str(concat2("system:", a.as_str())));
            assert(jvs(comps@) =~= seq![JsonV::Str("system:"@ + a@)]);
            push_member(es, "componentOf", jarr(comps));
        },
        None => {},
    }
}

fn v2_spec_exec(schema: V2Schema, doc: &Json) -> (r: Vec<(String, Json)>)
    ensures
        jentries(r@) == v2_spec(schema, jv(*doc)),
{
    let mut s: Vec<(String, Json)> = Vec::new();
    assert(jentries(s@) =~= Seq::<(Seq<char>, JsonV)>::empty());
    put_opt_str(&mut s, "lifecycle", opt_str_field(doc, "lifecycle"));
    put_opt_str(&mut s, "tier", opt_str_field(doc, "tier"));
    match schema {
        V2Schema::V21 => {},
        _ => {
            put_opt_str(&mut s, "type", opt_str_field(doc, "type"));
            put_arr(&mut s, "languages", arr_field(doc, "languages"));
        },
    }
    put_component_of(&mut s, &opt_str_field(doc, "application"));
    s
}

fn v2_datadog_exec(schema: V2Schema, doc: &Json) -> (r: Vec<(String, Json)>)
    ensures
        jentries(r@) == v2_datadog(schema, jv(*doc)),
{
    let mut d: Vec<(String, Json)> = Vec::new();
    assert(jentries(d@) =~= Seq::<(Seq<char>, JsonV)>::empty());
    match schema {
        V2Schema::V22 => {
            let fps = arr_field(doc, "ci-pipeline-fingerprints");
            if fps.len() > 0 {
                let p = entries1("fingerprints", jarr(fps));
                d = entries1("pipelines", jobj(p));
            }
        },
        _ => {},
    }
    d
}

/// The v3 migration of a document of a v2 variant: the entity in canonical
/// order, its companion system entity and its warnings.
pub fn migrate_v2_variant(schema: V2Schema, doc: &Json) -> (r: Migrated)
    ensures
        jv(r.entity) == ordered(v2_raw_entity(schema, jv(*doc))),
        jvs(r.companions@) == v2_companions(jv(*doc)),
        texts(r.messages@) == v2_warnings(schema, jv(*doc)),
{
    let (kind, name) = detect_entity_kind(doc);
    let application = opt_str_field(doc, "application");
    let metadata = v2_metadata_exec(doc, name.as_str());
    let spec = v2_spec_exec(schema, doc);
    let datadog = v2_datadog_exec(schema, doc);
    let ext = unknown_ext(schema, doc);
    let src = get(doc, "integrations");
    let ghost d = jv(*doc);
    let ghost iv = integrations_of(vget(d, "integrations"@), v2_unknown_ext(schema, d));
    assert(match src {
        Some(x) => Some(jv(*x)),
        None => None,
    } == vget(d, "integrations"@));
    let (integrations, ext, mut warnings) = build_integrations(src, ext);
    assert(jentries(integrations@) == iv.0 && jentries(ext@) == iv.1 && texts(warnings@) == iv.2);
    let ghost kv = kind@;
    let ghost mv = jentries(metadata@);
    assert((kv, name@) == entity_kind_of(d));
    let mut entity = entries1("apiVersion", jstr("v3"));
    push_member(&mut entity, "kind", Json::Str(kind));
    push_member(&mut entity, "metadata", jobj(metadata));
    assert(jentries(entity@) =~= seq![
        ("apiVersion"@, JsonV::Str("v3"@)),
        ("kind"@, JsonV::Str(kv)),
        ("metadata"@, JsonV::Object(mv)),
    ]);
    put_obj(&mut entity, "spec", spec);
    put_obj(&mut entity, "integrations", integrations);
    put_obj(&mut entity, "datadog", datadog);
    put_obj(&mut entity, "extensions", ext);
    assert(JsonV::Object(jentries(entity@)) == v2_raw_entity(schema, d));
    let entity = ordered_entity(jobj(entity));
    let mut companions: Vec<Json> = Vec::new();
    let ghost w0 = texts(warnings@);
    match &application {
        Some(app) => {
            let team = team_field(doc);
            let c = make_system_entity(
                app.as_str(),
                match &team {
                    Some(t) => Some(t.as_str()),
                    None => None,
                },
                Some(name.as_str()),
            );
            companions.push(c);
            warnings.push(
                concat3(
                    "WARNING: 'application' field found (value: '",
                    app.as_str(),
                    "'). A companion 'kind: system' entity will be generated.",
                ),
            );
        },
        None => {},
    }
    assert(texts(warnings@) =~= v2_warnings(schema, jv(*doc)));
    assert(jvs(companions@) =~= v2_companions(jv(*doc)));
    Migrated { entity, companions, messages: warnings }
}

/// The v3 migration of a v2 document.
pub fn migrate_v2(doc: &Json) -> (r: Migrated)
    ensures
        jv(r.entity) == ordered(v2_raw_entity(V2Schema::V2, jv(*doc))),
        jvs(r.companions@) == v2_companions(jv(*doc)),
        texts(r.messages@) == v2_warnings(V2Schema::V2, jv(*doc)),
{
    migrate_v2_variant(V2Schema::V2, doc)
}

/// The v3 migration of a v2.1 document.
pub fn migrate_v2_1(doc: &Json) -> (r: Migrated)
    ensures
        jv(r.entity) == ordered(v2_raw_entity(V2Schema::V21, jv(*doc))),
        jvs(r.companions@) == v2_companions(jv(*doc)),
        texts(r.messages@) == v2_warnings(V2Schema::V21, jv(*doc)),
{
    migrate_v2_variant(V2Schema::V21, doc)
}

/// The v3 migration of a v2.2 document.
pub fn migrate_v2_2(doc: &Json) -> (r: Migrated)
    ensures
        jv(r.entity) == ordered(v2_raw_entity(V2Schema::V22, jv(*doc))),
        jvs(r.companions@) == v2_companions(jv(*doc)),
        texts(r.messages@) == v2_warnings(V2Schema::V22, jv(*doc)),
{
    migrate_v2_variant(V2Schema::V22, doc)
}

} // verus!
