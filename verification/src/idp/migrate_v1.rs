//! Migration of v1 catalog documents to v3 entities.
use vstd::prelude::*;

use crate::idp::migrate::{
    entries1, entries_get, ins_arr, ins_obj, ins_opt_str, link_type_of, make_system_entity, ordered,
    ordered_entity, ostr, push_member, put_arr, put_obj, put_opt_str, remap_link_type,
    remapped_link_type, repos_to_links, system_entity, typed_links, url_object,
};
use crate::idp::migrate_v2::{ins_component_of, object_entries, put_component_of, texts, Migrated};
use crate::json::{
    arr_at, arr_field, copy_json, entry_get, get, jarr, jentries, jobj, jstr, jv, jvs, nested_str,
    nested_str_at, obj_insert, str_at, str_field, vget, vinsert, vstr, Json, JsonV,
};
use crate::text::{concat3, contains_char, owned, to_chars};

verus! {

/// The name a v1 document gives under `key`: in its `info`, or else at the top.
pub open spec fn v1_named(doc: JsonV, key: Seq<char>) -> Option<Seq<char>> {
    match nested_str_at(doc, "info"@, key) {
        Some(n) => Some(n),
        None => str_at(doc, key),
    }
}

/// The kind and name of a v1 entity: the first of `dd-service`, `dd-package`,
/// `dd-datastore`, `dd-queue`, `dd-api` that it names; an unnamed service
/// otherwise.
pub open spec fn v1_kind_name(doc: JsonV) -> (Seq<char>, Seq<char>) {
    if v1_named(doc, "dd-service"@) is Some {
        ("service"@, v1_named(doc, "dd-service"@)->0)
    } else if v1_named(doc, "dd-package"@) is Some {
        ("library"@, v1_named(doc, "dd-package"@)->0)
    } else if v1_named(doc, "dd-datastore"@) is Some {
        ("datastore"@, v1_named(doc, "dd-datastore"@)->0)
    } else if v1_named(doc, "dd-queue"@) is Some {
        ("queue"@, v1_named(doc, "dd-queue"@)->0)
    } else if v1_named(doc, "dd-api"@) is Some {
        ("api"@, v1_named(doc, "dd-api"@)->0)
    } else {
        ("service"@, Seq::empty())
    }
}

/// A contact entry.
pub open spec fn contact_entry(name: Seq<char>, t: Seq<char>, c: Seq<char>) -> JsonV {
    JsonV::Object(
        seq![("name"@, JsonV::Str(name)), ("type"@, JsonV::Str(t)), ("contact"@, JsonV::Str(c))],
    )
}

/// The contacts of a v1 document: its email, then its Slack channel.
pub open spec fn v1_contacts(doc: JsonV) -> Seq<JsonV> {
    let c1 = match nested_str_at(doc, "contact"@, "email"@) {
        Some(e) => seq![contact_entry("Email"@, "email"@, e)],
        None => Seq::empty(),
    };
    match nested_str_at(doc, "contact"@, "slack"@) {
        Some(s) => c1.push(contact_entry("Slack"@, "slack"@, s)),
        None => c1,
    }
}

/// The link made from an external resource: its name and url when they are
/// strings, and its type remapped.
pub open spec fn resource_link(o: Seq<(Seq<char>, JsonV)>) -> JsonV {
    let l1 = ins_opt_str(Seq::empty(), "name"@, vstr(entry_get(o, "name"@)));
    let l2 = l1.push(("type"@, JsonV::Str(remapped_link_type(link_type_of(o)))));
    JsonV::Object(ins_opt_str(l2, "url"@, vstr(entry_get(o, "url"@))))
}

/// The links made from the objects among the external resources.
pub open spec fn resource_links(src: Seq<JsonV>) -> Seq<JsonV>
    decreases src.len(),
{
    if src.len() == 0 {
        Seq::empty()
    } else {
        let p = resource_links(src.drop_last());
        match src.last() {
            JsonV::Object(o) => p.push(resource_link(o)),
            _ => p,
        }
    }
}

/// The link to the GitHub repository named in the integrations.
pub open spec fn github_link(url: Seq<char>) -> JsonV {
    JsonV::Object(
        seq![
            ("name"@, JsonV::Str("GitHub"@)),
            ("type"@, JsonV::Str("repo"@)),
            ("url"@, JsonV::Str(url)),
            ("provider"@, JsonV::Str("Github"@)),
        ],
    )
}

/// The v3 links of a v1 document: its external resources, its repositories,
/// and its GitHub integration.
pub open spec fn v1_links(doc: JsonV) -> Seq<JsonV> {
    let l = resource_links(arr_at(doc, "external-resources"@)) + typed_links(
        "repo"@,
        arr_at(doc, "repos"@),
    );
    match nested_str_at(doc, "integrations"@, "github"@) {
        Some(url) => l.push(github_link(url)),
        None => l,
    }
}

/// The metadata of the v3 entity of a v1 document named `name`.
pub open spec fn v1_metadata(doc: JsonV, name: Seq<char>) -> Seq<(Seq<char>, JsonV)> {
    let m1 = ins_opt_str(
        seq![("name"@, JsonV::Str(name))],
        "displayName"@,
        nested_str_at(doc, "info"@, "display-name"@),
    );
    let m2 = ins_opt_str(m1, "description"@, nested_str_at(doc, "info"@, "description"@));
    let m3 = ins_opt_str(m2, "owner"@, nested_str_at(doc, "org"@, "team"@));
    let m4 = ins_arr(m3, "tags"@, arr_at(doc, "tags"@));
    let m5 = ins_arr(m4, "contacts"@, v1_contacts(doc));
    ins_arr(m5, "links"@, v1_links(doc))
}

/// A dependency as a v3 reference: kept when it names a kind, else taken to
/// be of the entity's own kind.
pub open spec fn dependency_ref(kind: Seq<char>, d: Seq<char>) -> Seq<char> {
    if d.contains(':') {
        d
    } else {
        kind + ":"@ + d
    }
}

/// The references made from the string dependencies.
pub open spec fn depends_on(kind: Seq<char>, deps: Seq<JsonV>) -> Seq<JsonV>
    decreases deps.len(),
{
    if deps.len() == 0 {
        Seq::empty()
    } else {
        let p = depends_on(kind, deps.drop_last());
        match deps.last() {
            JsonV::Str(d) => p.push(JsonV::Str(dependency_ref(kind, d))),
            _ => p,
        }
    }
}

/// The spec of the v3 entity of a v1 document of kind `kind`: its tier, the
/// system of its application, and its dependencies when it lists any.
pub open spec fn v1_spec(doc: JsonV, kind: Seq<char>) -> Seq<(Seq<char>, JsonV)> {
    let s1 = ins_opt_str(Seq::empty(), "tier"@, nested_str_at(doc, "info"@, "service-tier"@));
    let s2 = ins_component_of(s1, nested_str_at(doc, "org"@, "application"@));
    let deps = arr_at(doc, "dependencies"@);
    if deps.len() > 0 {
        s2.push(("dependsOn"@, JsonV::Array(depends_on(kind, deps))))
    } else {
        s2
    }
}

/// The integrations of the v3 entity of a v1 document: PagerDuty, as a URL or
/// as an object kept as it is.
pub open spec fn v1_integrations(doc: JsonV) -> Seq<(Seq<char>, JsonV)> {
    let pd = match vget(doc, "integrations"@) {
        Some(i) => vget(i, "pagerduty"@),
        None => None,
    };
    match pd {
        Some(JsonV::Str(url)) => seq![("pagerduty"@, JsonV::Object(seq![("serviceURL"@, JsonV::Str(url))]))],
        Some(JsonV::Object(o)) => seq![("pagerduty"@, JsonV::Object(o))],
        _ => Seq::empty(),
    }
}

/// The extensions of the v3 entity of a v1 document: its own, and its source
/// patterns when it lists any.
pub open spec fn v1_extensions(doc: JsonV) -> Seq<(Seq<char>, JsonV)> {
    let base = match vget(doc, "extensions"@) {
        Some(JsonV::Object(o)) => o,
        _ => Seq::empty(),
    };
    let sp = arr_at(doc, "source_patterns"@);
    if sp.len() > 0 {
        vinsert(base, "x-migrated/source_patterns"@, JsonV::Array(sp))
    } else {
        base
    }
}

/// The v3 entity of a v1 document before it is put in canonical order.
pub open spec fn v1_raw_entity(doc: JsonV) -> JsonV {
    let (kind, name) = v1_kind_name(doc);
    let e0 = seq![
        ("apiVersion"@, JsonV::Str("v3"@)),
        ("kind"@, JsonV::Str(kind)),
        ("metadata"@, JsonV::Object(v1_metadata(doc, name))),
    ];
    let e1 = ins_obj(e0, "spec"@, v1_spec(doc, kind));
    let e2 = ins_obj(e1, "integrations"@, v1_integrations(doc));
    JsonV::Object(ins_obj(e2, "extensions"@, v1_extensions(doc)))
}

/// The warning given for a v1 document that names an application.
pub open spec fn org_application_warning(app: Seq<char>) -> Seq<char> {
    "WARNING: 'org.application' field found (value: '"@ + app
        + "'). A companion 'kind: system' entity will be generated."@
}

/// The companion system entity of a v1 document with an application.
pub open spec fn v1_companions(doc: JsonV) -> Seq<JsonV> {
    match nested_str_at(doc, "org"@, "application"@) {
        Some(app) => seq![
            system_entity(app, nested_str_at(doc, "org"@, "team"@), Some(v1_kind_name(doc).1)),
        ],
        None => Seq::empty(),
    }
}

/// The warning of a v1 migration, for an application.
pub open spec fn v1_warnings(doc: JsonV) -> Seq<Seq<char>> {
    match nested_str_at(doc, "org"@, "application"@) {
        Some(app) => seq![org_application_warning(app)],
        None => Seq::empty(),
    }
}

fn opt_nested(doc: &Json, outer: &str, inner: &str) -> (r: Option<String>)
    ensures
        ostr(r) == nested_str_at(jv(*doc), outer@, inner@),
{
    nested_str(doc, outer, inner)
}

fn named(doc: &Json, key: &str) -> (r: Option<String>)
    ensures
        ostr(r) == v1_named(jv(*doc), key@),
{
    match nested_str(doc, "info", key) {
        Some(n) => Some(n),
        None => str_field(doc, key),
    }
}

fn v1_kind_name_exec(doc: &Json) -> (r: (String, String))
    ensures
        (r.0@, r.1@) == v1_kind_name(jv(*doc)),
{
    if let Some(n) = named(doc, "dd-service") {
        return (owned("service"), n);
    }
    if let Some(n) = named(doc, "dd-package") {
        return (owned("library"), n);
    }
    if let Some(n) = named(doc, "dd-datastore") {
        return (owned("datastore"), n);
    }
    if let Some(n) = named(doc, "dd-queue") {
        return (owned("queue"), n);
    }
    if let Some(n) = named(doc, "dd-api") {
        return (owned("api"), n);
    }
    let e = String::new();
    assert(e@ =~= Seq::<char>::empty());
    (owned("service"), e)
}

fn contact_exec(name: &str, t: &str, c: String) -> (r: Json)
    ensures
        jv(r) == contact_entry(name@, t@, c@),
{
    let mut es = entries1("name", jstr(name));
    push_member(&mut es, "type", jstr(t));
    push_member(&mut es, "contact", Json::Str(c));
    let r = jobj(es);
    assert(jv(r)->Object_0 =~= contact_entry(name@, t@, c@)->Object_0);
    r
}

fn v1_contacts_exec(doc: &Json) -> (r: Vec<Json>)
    ensures
        jvs(r@) == v1_contacts(jv(*doc)),
{
    let mut out: Vec<Json> = Vec::new();
    match opt_nested(doc, "contact", "email") {
        Some(e) => out.push(contact_exec("Email", "email", e)),
        None => {},
    }
    assert(jvs(out@) =~= match nested_str_at(jv(*doc), "contact"@, "email"@) {
        Some(e) => seq![contact_entry("Email"@, "email"@, e)],
        None => Seq::<JsonV>::empty(),
    });
    let ghost before = jvs(out@);
    match opt_nested(doc, "contact", "slack") {
        Some(s) => out.push(contact_exec("Slack", "slack", s)),
        None => {},
    }
    assert(jvs(out@) =~= match nested_str_at(jv(*doc), "contact"@, "slack"@) {
        Some(s) => before.push(contact_entry("Slack"@, "slack"@, s)),
        None => before,
    });
    out
}

fn string_member(o: &Vec<(String, Json)>, key: &str) -> (r: Option<String>)
    ensures
        ostr(r) == vstr(entry_get(jentries(o@), key@)),
{
    match entries_get(o, key) {
        Some(Json::Str(s)) => Some(s.clone()),
        _ => None,
    }
}

fn resource_link_exec(o: &Vec<(String, Json)>) -> (r: Json)
    ensures
        jv(r) == resource_link(jentries(o@)),
{
    let mut l: Vec<(String, Json)> = Vec::new();
    assert(jentries(l@) =~= Seq::<(Seq<char>, JsonV)>::empty());
    put_opt_str(&mut l, "name", string_member(o, "name"));
    let t = match entries_get(o, "type") {
        Some(Json::Str(t)) => t.clone(),
        _ => owned("other"),
    };
    assert(t@ == link_type_of(jentries(o@)));
    push_member(&mut l, "type", Json::Str(remap_link_type(t.as_str())));
    put_opt_str(&mut l, "url", string_member(o, "url"));
    jobj(l)
}

fn resource_links_exec(src: &Vec<Json>) -> (r: Vec<Json>)
    ensures
        jvs(r@) == resource_links(jvs(src@)),
{
    let ghost sv = jvs(src@);
    let mut out: Vec<Json> = Vec::new();
    let mut i: usize = 0;
    assert(jvs(out@) =~= resource_links(sv.take(0)));
    while i < src.len()
        invariant
            i <= src@.len(),
            sv == jvs(src@),
            jvs(out@) == resource_links(sv.take(i as int)),
        decreases src@.len() - i,
    {
        assert(sv.take(i + 1).drop_last() =~= sv.take(i as int));
        assert(sv.take(i + 1).last() == jv(src@[i as int]));
        match &src[i] {
            Json::Object(obj) => {
                assert(jv(src@[i as int])->Object_0 =~= jentries(obj@));
                let ghost before = jvs(out@);
                let l = resource_link_exec(obj);
                let ghost lv = jv(l);
                out.push(l);
                assert(jvs(out@) =~= before.push(lv));
            },
            _ => {},
        }
        i += 1;
    }
    assert(sv.take(src@.len() as int) =~= sv);
    out
}

fn github_link_exec(url: String) -> (r: Json)
    ensures
        jv(r) == github_link(url@),
{
    let mut es = entries1("name", jstr("GitHub"));
    push_member(&mut es, "type", jstr("repo"));
    push_member(&mut es, "url", Json::Str(url));
    push_member(&mut es, "provider", jstr("Github"));
    let r = jobj(es);
    assert(jv(r)->Object_0 =~= github_link(url@)->Object_0);
    r
}

fn v1_links_exec(doc: &Json) -> (r: Vec<Json>)
    ensures
        jvs(r@) == v1_links(jv(*doc)),
{
    let mut links = resource_links_exec(&arr_field(doc, "external-resources"));
    let mut repos = repos_to_links(&arr_field(doc, "repos"));
    let ghost (a, b) = (links@, repos@);
    links.append(&mut repos);
    assert(jvs(links@) =~= jvs(a) + jvs(b));
    let ghost before = jvs(links@);
    match opt_nested(doc, "integrations", "github") {
        Some(url) => {
            let g = github_link_exec(url);
            let ghost gv = jv(g);
            links.push(g);
            assert(jvs(links@) =~= before.push(gv));
        },
        None => {},
    }
    links
}

fn v1_metadata_exec(doc: &Json, name: &str) -> (r: Vec<(String, Json)>)
    ensures
        jentries(r@) == v1_metadata(jv(*doc), name@),
{
    let mut m = entries1("name", jstr(name));
    put_opt_str(&mut m, "displayName", opt_nested(doc, "info", "display-name"));
    put_opt_str(&mut m, "description", opt_nested(doc, "info", "description"));
    put_opt_str(&mut m, "owner", opt_nested(doc, "org", "team"));
    put_arr(&mut m, "tags", arr_field(doc, "tags"));
    put_arr(&mut m, "contacts", v1_contacts_exec(doc));
    put_arr(&mut m, "links", v1_links_exec(doc));
    m
}

fn depends_on_exec(kind: &str, deps: &Vec<Json>) -> (r: Vec<Json>)
    ensures
        jvs(r@) == depends_on(kind@, jvs(deps@)),
{
    let ghost sv = jvs(deps@);
    let mut out: Vec<Json> = Vec::new();
    let mut i: usize = 0;
    assert(jvs(out@) =~= depends_on(kind@, sv.take(0)));
    while i < deps.len()
        invariant
            i <= deps@.len(),
            sv == jvs(deps@),
            jvs(out@) == depends_on(kind@, sv.take(i as int)),
        decreases deps@.len() - i,
    {
        assert(sv.take(i + 1).drop_last() =~= sv.take(i as int));
        assert(sv.take(i + 1).last() == jv(deps@[i as int]));
        match &deps[i] {
            Json::Str(d) => {
                let r = if contains_char(&to_chars(d.as_str()), ':') {
                    d.clone()
                } else {
                    concat3(kind, ":", d.as_str())
                };
                let ghost before = jvs(out@);
                out.push(Json::Str(r));
                assert(jvs(out@) =~= before.push(JsonV::Str(dependency_ref(kind@, d@))));
            },
            _ => {},
        }
        i += 1;
    }
    assert(sv.take(deps@.len() as int) =~= sv);
    out
}

fn v1_spec_exec(doc: &Json, kind: &str) -> (r: Vec<(String, Json)>)
    ensures
        jentries(r@) == v1_spec(jv(*doc), kind@),
{
    let mut s: Vec<(String, Json)> = Vec::new();
    assert(jentries(s@) =~= Seq::<(Seq<char>, JsonV)>::empty());
    put_opt_str(&mut s, "tier", opt_nested(doc, "info", "service-tier"));
    put_component_of(&mut s, &opt_nested(doc, "org", "application"));
    let deps = arr_field(doc, "dependencies");
    if deps.len() > 0 {
        push_member(&mut s, "dependsOn", jarr(depends_on_exec(kind, &deps)));
    }
    s
}

fn v1_integrations_exec(doc: &Json) -> (r: Vec<(String, Json)>)
    ensures
        jentries(r@) == v1_integrations(jv(*doc)),
{
    let mut out: Vec<(String, Json)> = Vec::new();
    assert(jentries(out@) =~= Seq::<(Seq<char>, JsonV)>::empty());
    let pd = match get(doc, "integrations") {
        Some(i) => get(i, "pagerduty"),
        None => None,
    };
    match pd {
        Some(v) => match v {
            Json::Str(url) => {
                out = entries1("pagerduty", url_object(url.clone()));
            },
            Json::Object(o) => {
                assert(jv(*v)->Object_0 =~= jentries(o@));
                out = entries1("pagerduty", copy_json(v));
            },
            _ => {},
        },
        None => {},
    }
    out
}

fn v1_extensions_exec(doc: &Json) -> (r: Vec<(String, Json)>)
    ensures
        jentries(r@) == v1_extensions(jv(*doc)),
{
    let mut ext = object_entries(get(doc, "extensions"));
    let sp = arr_field(doc, "source_patterns");
    if sp.len() > 0 {
        obj_insert(&mut ext, owned("x-migrated/source_patterns"), jarr(sp));
    }
    ext
}

/// The v3 migration of a v1 document: the entity in canonical order, its
/// companion system entity and its warning.
pub fn migrate_v1(doc: &Json) -> (r: Migrated)
    ensures
        jv(r.entity) == ordered(v1_raw_entity(jv(*doc))),
        jvs(r.companions@) == v1_companions(jv(*doc)),
        texts(r.messages@) == v1_warnings(jv(*doc)),
{
    let ghost d = jv(*doc);
    let (kind, name) = v1_kind_name_exec(doc);
    let metadata = v1_metadata_exec(doc, name.as_str());
    let spec = v1_spec_exec(doc, kind.as_str());
    let integrations = v1_integrations_exec(doc);
    let ext = v1_extensions_exec(doc);
    let ghost kv = kind@;
    let ghost mv = jentries(metadata@);
    let mut entity = entries1("apiVersion", jstr("v3"));
    push_member(&mut entity, "kind", Json::Str(kind));
    push_member(&mut entity, "metadata", jobj(metadata));
    assert(jentries(entity@) =~= seq![
        ("apiVersion"@, JsonV::Str("v3"@)),
        ("kind"@, JsonV::Str(kv)),
        ("metadata"@, JsonV::Object(mv)),
    ]);
    put_obj(&mut entity, "spec", spec);
    put_obj(&mut entity, "integrations", integrations);
    put_obj(&mut entity, "extensions", ext);
    assert(JsonV::Object(jentries(entity@)) == v1_raw_entity(d));
    let entity = ordered_entity(jobj(entity));
    let mut companions: Vec<Json> = Vec::new();
    let mut warnings: Vec<String> = Vec::new();
    match opt_nested(doc, "org", "application") {
        Some(app) => {
            let team = opt_nested(doc, "org", "team");
            let c = make_system_entity(
                app.as_str(),
                match &team {
                    Some(t) => Some(t.as_str()),
                    None => None,
                },
                Some(name.as_str()),
            );
            companions.push(c);
            warnings.push(
                concat3(
                    "WARNING: 'org.application' field found (value: '",
                    app.as_str(),
                    "'). A companion 'kind: system' entity will be generated.",
                ),
            );
        },
        None => {},
    }
    assert(texts(warnings@) =~= v1_warnings(d));
    assert(jvs(companions@) =~= v1_companions(d));
    Migrated { entity, companions, messages: warnings }
}

} // verus!
