//! Migration of whole catalog files: each document by its schema version,
//! and the companion system entities merged by name.
use vstd::prelude::*;

use crate::idp::migrate::{
    detect_version, lemma_ordered_api_version, opt_is, ordered, ostr, system_entity, version_of,
};
use crate::idp::migrate_v1::{migrate_v1, v1_companions, v1_raw_entity, v1_warnings};
use crate::idp::migrate_v2::{
    migrate_v2, migrate_v2_1, migrate_v2_2, texts, v2_companions, v2_raw_entity, v2_warnings,
    Migrated, V2Schema,
};
use crate::json::{
    json_of_value, arr_at, arr_field, copy_json, entry_get, get, jarr, jentries, jobj, json_eq, jv, jvs,
    lemma_entry_get_vinsert, nested_str, nested_str_at, obj_insert, str_at, str_field, vget,
    vinsert, Json, JsonV,
};
use crate::text::{
    char_texts, concat2, concat3, from_chars, owned, slice_chars, split_str, split_str_chars,
    str_eq, strip_leading, strip_leading_chars, to_chars, trim, trim_chars, trim_end,
    trim_end_chars,
};

verus! {

/// The notice for a document that is already v3.
pub open spec fn passthrough_notice(name: Seq<char>) -> Seq<char> {
    "INFO: '"@ + name + "' is already v3, passing through unchanged."@
}

/// The warning for a v1 document of a kind that is not a catalog entity.
pub open spec fn noncatalog_warning(kind: Seq<char>) -> Seq<char> {
    "WARNING: schema-version=v1, kind='"@ + kind + "' is not a catalog entity. Passing through."@
}

/// The warning for a document whose schema version is not recognised.
pub open spec fn undetected_warning() -> Seq<char> {
    "WARNING: Could not detect schema version. Passing document through unchanged."@
}

/// The migration of one document by its schema version: the v3 entity, the
/// companion system entities, and the messages. A v3 document, a v1 document
/// of another kind and a document of unknown version pass through unchanged.
pub open spec fn document_migration(doc: JsonV) -> (JsonV, Seq<JsonV>, Seq<Seq<char>>) {
    let v = version_of(doc);
    if v == "v3"@ {
        let name = match nested_str_at(doc, "metadata"@, "name"@) {
            Some(n) => n,
            None => "(unknown)"@,
        };
        (doc, Seq::empty(), seq![passthrough_notice(name)])
    } else if v == "v1-noncatalog"@ {
        let kind = match str_at(doc, "kind"@) {
            Some(k) => k,
            None => "unknown"@,
        };
        (doc, Seq::empty(), seq![noncatalog_warning(kind)])
    } else if v == "v1"@ {
        (ordered(v1_raw_entity(doc)), v1_companions(doc), v1_warnings(doc))
    } else if v == "v2"@ {
        (ordered(v2_raw_entity(V2Schema::V2, doc)), v2_companions(doc), v2_warnings(V2Schema::V2, doc))
    } else if v == "v2.1"@ {
        (
            ordered(v2_raw_entity(V2Schema::V21, doc)),
            v2_companions(doc),
            v2_warnings(V2Schema::V21, doc),
        )
    } else if v == "v2.2"@ {
        (
            ordered(v2_raw_entity(V2Schema::V22, doc)),
            v2_companions(doc),
            v2_warnings(V2Schema::V22, doc),
        )
    } else {
        (doc, Seq::empty(), seq![undetected_warning()])
    }
}

fn single(m: String) -> (r: Vec<String>)
    ensures
        texts(r@) == seq![m@],
{
    let mut r: Vec<String> = Vec::new();
    r.push(m);
    assert(texts(r@) =~= seq![m@]);
    r
}

/// The migration of one document by its schema version (see
/// [`document_migration`]).
pub fn migrate_document(doc: &Json) -> (r: Migrated)
    ensures
        ({
            let (e, c, m) = document_migration(jv(*doc));
            &&& jv(r.entity) == e
            &&& jvs(r.companions@) == c
            &&& texts(r.messages@) == m
        }),
{
    let v = detect_version(doc);
    if str_eq(v, "v3") {
        let name = match nested_str(doc, "metadata", "name") {
            Some(n) => n,
            None => owned("(unknown)"),
        };
        let m = concat3("INFO: '", name.as_str(), "' is already v3, passing through unchanged.");
        let companions: Vec<Json> = Vec::new();
        assert(jvs(companions@) =~= Seq::<JsonV>::empty());
        Migrated { entity: copy_json(doc), companions, messages: single(m) }
    } else if str_eq(v, "v1-noncatalog") {
        let kind = match str_field(doc, "kind") {
            Some(k) => k,
            None => owned("unknown"),
        };
        let m = concat3(
            "WARNING: schema-version=v1, kind='",
            kind.as_str(),
            "' is not a catalog entity. Passing through.",
        );
        let companions: Vec<Json> = Vec::new();
        assert(jvs(companions@) =~= Seq::<JsonV>::empty());
        Migrated { entity: copy_json(doc), companions, messages: single(m) }
    } else if str_eq(v, "v1") {
        migrate_v1(doc)
    } else if str_eq(v, "v2") {
        migrate_v2(doc)
    } else if str_eq(v, "v2.1") {
        migrate_v2_1(doc)
    } else if str_eq(v, "v2.2") {
        migrate_v2_2(doc)
    } else {
        let companions: Vec<Json> = Vec::new();
        assert(jvs(companions@) =~= Seq::<JsonV>::empty());
        Migrated {
            entity: copy_json(doc),
            companions,
            messages: single(
                owned("WARNING: Could not detect schema version. Passing document through unchanged."),
            ),
        }
    }
}

/// The name of a companion system entity; none for other values.
pub open spec fn system_name(c: JsonV) -> Option<Seq<char>> {
    if str_at(c, "kind"@) == Some("system"@) {
        nested_str_at(c, "metadata"@, "name"@)
    } else {
        None
    }
}

/// The components a companion lists; none when it lists none.
pub open spec fn components_of(c: JsonV) -> Seq<JsonV> {
    match vget(c, "spec"@) {
        Some(s) => arr_at(s, "components"@),
        None => Seq::empty(),
    }
}

/// Whether a value has a spec object with a list of components.
pub open spec fn has_component_list(c: JsonV) -> bool {
    match vget(c, "spec"@) {
        Some(JsonV::Object(s)) => entry_get(s, "components"@) matches Some(JsonV::Array(_)),
        _ => false,
    }
}

/// Whether every named system among the companions lists its components, as
/// the companions made by a migration do.
pub open spec fn mergeable(cs: Seq<JsonV>) -> bool {
    forall|i: int| 0 <= i < cs.len() && (#[trigger] system_name(cs[i])) is Some ==> has_component_list(cs[i])
}

/// `existing` followed by the values of `new` it does not hold yet, in order.
pub open spec fn append_new(existing: Seq<JsonV>, new: Seq<JsonV>) -> Seq<JsonV>
    decreases new.len(),
{
    if new.len() == 0 {
        existing
    } else {
        let a = append_new(existing, new.drop_last());
        if a.contains(new.last()) {
            a
        } else {
            a.push(new.last())
        }
    }
}

/// A system entity with its list of components replaced.
pub open spec fn with_components(c: JsonV, comps: Seq<JsonV>) -> JsonV {
    match c {
        JsonV::Object(es) => match entry_get(es, "spec"@) {
            Some(JsonV::Object(s)) => JsonV::Object(
                vinsert(es, "spec"@, JsonV::Object(vinsert(s, "components"@, JsonV::Array(comps)))),
            ),
            _ => c,
        },
        _ => c,
    }
}

/// The companion system entities merged by name: one per name, in the order
/// names first appear, the first entity with a name taking in the components
/// of the later ones that it does not list yet. Other values are dropped.
pub open spec fn merged_systems(cs: Seq<JsonV>) -> Seq<JsonV>
    decreases cs.len(),
{
    if cs.len() == 0 {
        Seq::empty()
    } else {
        let m = merged_systems(cs.drop_last());
        let c = cs.last();
        match system_name(c) {
            None => m,
            Some(n) => if exists|i: int| 0 <= i < m.len() && system_name(#[trigger] m[i]) == Some(n) {
                let i = choose|i: int| 0 <= i < m.len() && system_name(#[trigger] m[i]) == Some(n);
                m.update(i, with_components(m[i], append_new(components_of(m[i]), components_of(c))))
            } else {
                m.push(c)
            },
        }
    }
}

/// Named systems that list their components, each name once.
pub open spec fn distinct_systems(m: Seq<JsonV>) -> bool {
    &&& forall|i: int|
        0 <= i < m.len() ==> (#[trigger] system_name(m[i])) is Some && has_component_list(m[i])
    &&& forall|i: int, j: int|
        0 <= i < m.len() && 0 <= j < m.len() && i != j ==> system_name(#[trigger] m[i])
            != system_name(#[trigger] m[j])
}

proof fn lemma_with_components(c: JsonV, comps: Seq<JsonV>)
    requires
        has_component_list(c),
    ensures
        system_name(with_components(c, comps)) == system_name(c),
        has_component_list(with_components(c, comps)),
        components_of(with_components(c, comps)) == comps,
{
    reveal_strlit("kind");
    reveal_strlit("spec");
    reveal_strlit("metadata");
    reveal_strlit("components");
    let es = c->Object_0;
    let s = entry_get(es, "spec"@)->0->Object_0;
    let s2 = vinsert(s, "components"@, JsonV::Array(comps));
    assert("kind"@ != "spec"@) by {
        assert("kind"@[0] != "spec"@[0]);
    }
    assert("metadata"@ != "spec"@) by {
        assert("metadata"@.len() != "spec"@.len());
    }
    lemma_entry_get_vinsert(es, "spec"@, JsonV::Object(s2), "kind"@);
    lemma_entry_get_vinsert(es, "spec"@, JsonV::Object(s2), "metadata"@);
    lemma_entry_get_vinsert(es, "spec"@, JsonV::Object(s2), "spec"@);
    lemma_entry_get_vinsert(s, "components"@, JsonV::Array(comps), "components"@);
}

fn system_name_exec(c: &Json) -> (r: Option<String>)
    ensures
        ostr(r) == system_name(jv(*c)),
{
    if opt_is(&str_field(c, "kind"), "system") {
        nested_str(c, "metadata", "name")
    } else {
        None
    }
}

fn components_exec(c: &Json) -> (r: Vec<Json>)
    ensures
        jvs(r@) == components_of(jv(*c)),
{
    match get(c, "spec") {
        Some(s) => arr_field(s, "components"),
        None => {
            let r: Vec<Json> = Vec::new();
            assert(jvs(r@) =~= Seq::<JsonV>::empty());
            r
        },
    }
}

fn contains_json(v: &Vec<Json>, x: &Json) -> (r: bool)
    ensures
        r == jvs(v@).contains(jv(*x)),
{
    let ghost vv = jvs(v@);
    let mut i: usize = 0;
    while i < v.len()
        invariant
            i <= v@.len(),
            vv == jvs(v@),
            forall|k: int| 0 <= k < i ==> vv[k] != jv(*x),
        decreases v@.len() - i,
    {
        if json_eq(&v[i], x) {
            assert(vv[i as int] == jv(*x));
            return true;
        }
        i += 1;
    }
    false
}

fn append_new_exec(existing: Vec<Json>, new: &Vec<Json>) -> (r: Vec<Json>)
    ensures
        jvs(r@) == append_new(jvs(existing@), jvs(new@)),
{
    let ghost ev = jvs(existing@);
    let ghost nv = jvs(new@);
    let mut out = existing;
    let mut i: usize = 0;
    assert(nv.take(0) =~= Seq::<JsonV>::empty());
    while i < new.len()
        invariant
            i <= new@.len(),
            nv == jvs(new@),
            jvs(out@) == append_new(ev, nv.take(i as int)),
        decreases new@.len() - i,
    {
        assert(nv.take(i + 1).drop_last() =~= nv.take(i as int));
        assert(nv.take(i + 1).last() == jv(new@[i as int]));
        if !contains_json(&out, &new[i]) {
            let ghost before = jvs(out@);
            let c = copy_json(&new[i]);
            out.push(c);
            assert(jvs(out@) =~= before.push(jv(new@[i as int])));
        }
        i += 1;
    }
    assert(nv.take(new@.len() as int) =~= nv);
    out
}

fn with_components_exec(c: &Json, new: &Vec<Json>) -> (r: Json)
    ensures
        jv(r) == with_components(jv(*c), append_new(components_of(jv(*c)), jvs(new@))),
{
    match c {
        Json::Object(es) => {
            assert(jv(*c)->Object_0 =~= jentries(es@));
            match crate::idp::migrate::entries_get(es, "spec") {
                Some(sv) => match sv {
                    Json::Object(s) => {
                        assert(jv(*sv)->Object_0 =~= jentries(s@));
                        let comps = append_new_exec(components_exec(c), new);
                        let mut s2 = match copy_json(sv) {
                            Json::Object(e) => e,
                            _ => Vec::new(),
                        };
                        assert(jentries(s2@) =~= jentries(s@));
                        obj_insert(&mut s2, crate::text::owned("components"), jarr(comps));
                        let mut es2 = match copy_json(c) {
                            Json::Object(e) => e,
                            _ => Vec::new(),
                        };
                        assert(jentries(es2@) =~= jentries(es@));
                        obj_insert(&mut es2, crate::text::owned("spec"), jobj(s2));
                        jobj(es2)
                    },
                    _ => copy_json(c),
                },
                None => copy_json(c),
            }
        },
        _ => copy_json(c),
    }
}

/// The companion system entities merged by name (see [`merged_systems`]).
pub fn merge_companion_systems(companions: Vec<Json>) -> (r: Vec<Json>)
    requires
        mergeable(jvs(companions@)),
    ensures
        jvs(r@) == merged_systems(jvs(companions@)),
        distinct_systems(jvs(r@)),
{
    let ghost cv = jvs(companions@);
    let mut out: Vec<Json> = Vec::new();
    let mut i: usize = 0;
    assert(jvs(out@) =~= merged_systems(cv.take(0)));
    while i < companions.len()
        invariant
            i <= companions@.len(),
            cv == jvs(companions@),
            mergeable(cv),
            jvs(out@) == merged_systems(cv.take(i as int)),
            distinct_systems(jvs(out@)),
        decreases companions@.len() - i,
    {
        let ghost m = jvs(out@);
        let ghost c = cv[i as int];
        assert(cv.take(i + 1).drop_last() =~= cv.take(i as int));
        assert(cv.take(i + 1).last() == c);
        assert(c == jv(companions@[i as int]));
        match system_name_exec(&companions[i]) {
            None => {},
            Some(n) => {
                assert(has_component_list(c));
                let mut j: usize = 0;
                let mut found = false;
                while j < out.len()
                    invariant_except_break
                        j <= out@.len(),
                        !found,
                        forall|k: int| 0 <= k < j ==> system_name(#[trigger] m[k]) != Some(n@),
                    invariant
                        m == jvs(out@),
                    ensures
                        found ==> j < out@.len() && system_name(m[j as int]) == Some(n@),
                        !found ==> forall|k: int|
                            0 <= k < out@.len() ==> system_name(#[trigger] m[k]) != Some(n@),
                    decreases out@.len() - j,
                {
                    if opt_is(&system_name_exec(&out[j]), n.as_str()) {
                        found = true;
                        break;
                    }
                    j += 1;
                }
                if found {
                    let e = with_components_exec(&out[j], &components_exec(&companions[i]));
                    proof {
                        let k = choose|k: int| 0 <= k < m.len() && system_name(#[trigger] m[k]) == Some(n@);
                        assert(k == j);
                        lemma_with_components(m[k], append_new(components_of(m[k]), components_of(c)));
                    }
                    out.set(j, e);
                    assert(jvs(out@) =~= m.update(
                        j as int,
                        with_components(m[j as int], append_new(components_of(m[j as int]), components_of(c))),
                    ));
                } else {
                    let e = copy_json(&companions[i]);
                    out.push(e);
                    assert(jvs(out@) =~= m.push(c));
                }
            },
        }
        i += 1;
    }
    assert(cv.take(companions@.len() as int) =~= cv);
    out
}

/// What `serde_norway` reads from a YAML document as a JSON value, or the text
/// of its error.
pub uninterp spec fn yaml_document(text: Seq<char>) -> Result<JsonV, Seq<char>>;

/// `serde_norway::from_str::<serde_json::Value>`: the value of a YAML
/// document (see [`yaml_document`]), or the text of the parser's error.
#[verifier::external_body]
fn parse_yaml_document(text: &str) -> (r: Result<Json, String>)
    ensures
        match r {
            Ok(j) => yaml_document(text@) == Ok::<JsonV, Seq<char>>(jv(j)),
            Err(e) => yaml_document(text@) == Err::<JsonV, Seq<char>>(e@),
        },
{
    match serde_norway::from_str::<serde_json::Value>(text) {
        Ok(v) => Ok(json_of_value(&v)),
        Err(e) => Err(e.to_string()),
    }
}

/// The YAML text of one document of a file split on its `---` separators:
/// the leading dashes and then one line break dropped, and the trailing
/// white space (the indentation of its lines is kept).
pub open spec fn document_text(seg: Seq<char>) -> Seq<char> {
    let st = strip_leading(seg, '-');
    trim_end(
        if st.len() > 0 && st[0] == '\n' {
            st.drop_first()
        } else {
            st
        },
    )
}

/// The warning for a document that is not a mapping.
pub open spec fn non_mapping_warning() -> Seq<char> {
    "WARNING: Skipping non-mapping YAML document."@
}

/// What migrating the next document of a file makes of the entities, the
/// companion systems and the messages so far, or its parse error. A blank
/// document changes nothing; one that is not a mapping is skipped with a
/// warning.
pub open spec fn segment_step(acc: (Seq<JsonV>, Seq<JsonV>, Seq<Seq<char>>), seg: Seq<char>) -> Result<
    (Seq<JsonV>, Seq<JsonV>, Seq<Seq<char>>),
    Seq<char>,
> {
    let t = document_text(seg);
    if trim(t).len() == 0 {
        Ok(acc)
    } else {
        match yaml_document(t) {
            Err(e) => Err("failed to parse YAML document: "@ + e),
            Ok(doc) => if doc is Object {
                let (e, cs, ms) = document_migration(doc);
                Ok((acc.0.push(e), acc.1 + cs, acc.2 + ms))
            } else {
                Ok((acc.0, acc.1, acc.2.push(non_mapping_warning())))
            },
        }
    }
}

/// The migration of the documents of a file, in order: the migrated entities,
/// the companion systems and the messages, or the first parse error.
pub open spec fn segments_migration(segs: Seq<Seq<char>>) -> Result<
    (Seq<JsonV>, Seq<JsonV>, Seq<Seq<char>>),
    Seq<char>,
>
    decreases segs.len(),
{
    if segs.len() == 0 {
        Ok((Seq::empty(), Seq::empty(), Seq::empty()))
    } else {
        match segments_migration(segs.drop_last()) {
            Err(e) => Err(e),
            Ok(acc) => segment_step(acc, segs.last()),
        }
    }
}

proof fn lemma_error_stays(segs: Seq<Seq<char>>, i: int, e: Seq<char>)
    requires
        0 <= i <= segs.len(),
        segments_migration(segs.take(i)) == Err::<(Seq<JsonV>, Seq<JsonV>, Seq<Seq<char>>), Seq<char>>(e),
    ensures
        segments_migration(segs) == Err::<(Seq<JsonV>, Seq<JsonV>, Seq<Seq<char>>), Seq<char>>(e),
    decreases segs.len() - i,
{
    if i < segs.len() {
        assert(segs.take(i + 1).drop_last() =~= segs.take(i));
        lemma_error_stays(segs, i + 1, e);
    } else {
        assert(segs.take(i) =~= segs);
    }
}

/// The migration of a catalog file: its entities in order, then the companion
/// systems merged by name, with the messages; or the first parse error.
pub open spec fn catalog_migration(text: Seq<char>) -> Result<(Seq<JsonV>, Seq<Seq<char>>), Seq<char>> {
    match segments_migration(split_str(text, "\n---"@)) {
        Ok((p, c, m)) => Ok((p + merged_systems(c), m)),
        Err(e) => Err(e),
    }
}

/// The migrated documents of a catalog file and the messages to show.
pub struct CatalogMigration {
    pub documents: Vec<Json>,
    pub messages: Vec<String>,
}

proof fn lemma_system_entity_lists(app: Seq<char>, team: Option<Seq<char>>, svc: Seq<char>)
    ensures
        has_component_list(system_entity(app, team, Some(svc))),
{
    reveal_strlit("apiVersion");
    reveal_strlit("kind");
    reveal_strlit("metadata");
    reveal_strlit("spec");
    reveal_strlit("components");
    assert("apiVersion"@ != "spec"@) by {
        assert("apiVersion"@.len() != "spec"@.len());
    }
    assert("kind"@ != "spec"@) by {
        assert("kind"@[0] != "spec"@[0]);
    }
    assert("metadata"@ != "spec"@) by {
        assert("metadata"@.len() != "spec"@.len());
    }
    let es = system_entity(app, team, Some(svc))->Object_0;
    assert(es.drop_first().drop_first().drop_first().drop_first() =~= Seq::<(Seq<char>, JsonV)>::empty());
    reveal_with_fuel(crate::json::entry_get, 5);
}

proof fn lemma_companions_list(doc: JsonV)
    ensures
        forall|k: int|
            0 <= k < document_migration(doc).1.len() ==> has_component_list(
                #[trigger] document_migration(doc).1[k],
            ),
{
    match crate::json::nested_str_at(doc, "org"@, "application"@) {
        Some(app) => lemma_system_entity_lists(
            app,
            nested_str_at(doc, "org"@, "team"@),
            crate::idp::migrate_v1::v1_kind_name(doc).1,
        ),
        None => {},
    }
    match str_at(doc, "application"@) {
        Some(app) => lemma_system_entity_lists(
            app,
            crate::idp::migrate_v2::team_of(doc),
            crate::idp::migrate::entity_kind_of(doc).1,
        ),
        None => {},
    }
}

fn document_text_exec(seg: &Vec<char>) -> (r: Vec<char>)
    ensures
        r@ == document_text(seg@),
{
    let st = strip_leading_chars(seg.as_slice(), '-');
    if st.len() > 0 && st[0] == '\n' {
        let rest = slice_chars(st.as_slice(), 1, st.len());
        assert(rest@ =~= st@.drop_first());
        trim_end_chars(rest.as_slice())
    } else {
        trim_end_chars(st.as_slice())
    }
}

fn migrate_segment(
    seg: &Vec<char>,
    primary: &mut Vec<Json>,
    companions: &mut Vec<Json>,
    messages: &mut Vec<String>,
) -> (r: Result<(), String>)
    requires
        forall|k: int| 0 <= k < old(companions)@.len() ==> has_component_list(#[trigger] jvs(old(companions)@)[k]),
    ensures
        match r {
            Ok(_) => {
                &&& segment_step((jvs(old(primary)@), jvs(old(companions)@), texts(old(messages)@)), seg@)
                    == Ok::<(Seq<JsonV>, Seq<JsonV>, Seq<Seq<char>>), Seq<char>>(
                    (jvs(final(primary)@), jvs(final(companions)@), texts(final(messages)@)),
                )
                &&& forall|k: int| 0 <= k < final(companions)@.len() ==> has_component_list(#[trigger] jvs(final(companions)@)[k])
            },
            Err(e) => segment_step((jvs(old(primary)@), jvs(old(companions)@), texts(old(messages)@)), seg@)
                == Err::<(Seq<JsonV>, Seq<JsonV>, Seq<Seq<char>>), Seq<char>>(e@),
        },
{
    let t = document_text_exec(seg);
    if trim_chars(t.as_slice()).len() == 0 {
        return Ok(());
    }
    let ts = from_chars(t.as_slice());
    match parse_yaml_document(ts.as_str()) {
        Err(e) => Err(concat2("failed to parse YAML document: ", e.as_str())),
        Ok(doc) => {
            match &doc {
                Json::Object(_) => {
                    let m = migrate_document(&doc);
                    let ghost (p0, c0, m0) = (jvs(primary@), jvs(companions@), texts(messages@));
                    let ghost (ev, cv, mv) = (jv(m.entity), jvs(m.companions@), texts(m.messages@));
                    proof {
                        lemma_companions_list(jv(doc));
                    }
                    primary.push(m.entity);
                    let mut mc = m.companions;
                    let mut mm = m.messages;
                    companions.append(&mut mc);
                    messages.append(&mut mm);
                    assert(jvs(primary@) =~= p0.push(ev));
                    assert(jvs(companions@) =~= c0 + cv);
                    assert(texts(messages@) =~= m0 + mv);
                },
                _ => {
                    let ghost m0 = texts(messages@);
                    messages.push(owned("WARNING: Skipping non-mapping YAML document."));
                    assert(texts(messages@) =~= m0.push(non_mapping_warning()));
                },
            }
            Ok(())
        },
    }
}

/// The migration of a catalog file (see [`catalog_migration`]).
pub fn migrate_all(text: &str) -> (r: Result<CatalogMigration, String>)
    ensures
        match r {
            Ok(m) => catalog_migration(text@) == Ok::<(Seq<JsonV>, Seq<Seq<char>>), Seq<char>>(
                (jvs(m.documents@), texts(m.messages@)),
            ),
            Err(e) => catalog_migration(text@) == Err::<(Seq<JsonV>, Seq<Seq<char>>), Seq<char>>(e@),
        },
{
    let sep = to_chars("\n---");
    proof {
        reveal_strlit("\n---");
    }
    let segs = split_str_chars(to_chars(text).as_slice(), sep.as_slice());
    let ghost sv = char_texts(segs@);
    let mut primary: Vec<Json> = Vec::new();
    let mut companions: Vec<Json> = Vec::new();
    let mut messages: Vec<String> = Vec::new();
    assert(sv.take(0) =~= Seq::<Seq<char>>::empty());
    assert(jvs(primary@) =~= Seq::<JsonV>::empty());
    assert(jvs(companions@) =~= Seq::<JsonV>::empty());
    assert(texts(messages@) =~= Seq::<Seq<char>>::empty());
    let mut i: usize = 0;
    while i < segs.len()
        invariant
            i <= segs@.len(),
            sv == char_texts(segs@),
            sv == split_str(text@, "\n---"@),
            segments_migration(sv.take(i as int)) == Ok::<
                (Seq<JsonV>, Seq<JsonV>, Seq<Seq<char>>),
                Seq<char>,
            >((jvs(primary@), jvs(companions@), texts(messages@))),
            forall|k: int| 0 <= k < companions@.len() ==> has_component_list(#[trigger] jvs(companions@)[k]),
        decreases segs@.len() - i,
    {
        assert(sv.take(i + 1).drop_last() =~= sv.take(i as int));
        assert(sv.take(i + 1).last() == segs@[i as int]@);
        match migrate_segment(&segs[i], &mut primary, &mut companions, &mut messages) {
            Ok(()) => {},
            Err(e) => {
                proof {
                    lemma_error_stays(sv, i + 1, e@);
                }
                return Err(e);
            },
        }
        i += 1;
    }
    assert(sv.take(segs@.len() as int) =~= sv);
    let ghost cv = jvs(companions@);
    let ghost p0 = jvs(primary@);
    assert(mergeable(cv));
    let mut merged = merge_companion_systems(companions);
    let ghost mv = jvs(merged@);
    primary.append(&mut merged);
    assert(jvs(primary@) =~= p0 + mv);
    Ok(CatalogMigration { documents: primary, messages })
}

proof fn lemma_raw_api_version(raw: JsonV)
    requires
        raw is Object,
        raw->Object_0.len() > 0,
        raw->Object_0[0] == ("apiVersion"@, JsonV::Str("v3"@)),
    ensures
        version_of(ordered(raw)) == "v3"@,
{
    let es = raw->Object_0;
    assert(entry_get(es, "apiVersion"@) == Some(JsonV::Str("v3"@)));
    lemma_ordered_api_version(es, "v3"@);
    assert(JsonV::Object(es) == raw);
}

proof fn lemma_v3_passes(doc: JsonV)
    requires
        version_of(doc) == "v3"@,
    ensures
        document_migration(doc).0 == doc,
{
}

proof fn lemma_v1_is_v3(doc: JsonV)
    requires
        version_of(doc) == "v1"@,
    ensures
        version_of(document_migration(doc).0) == "v3"@,
{
    reveal_strlit("v1");
    reveal_strlit("v3");
    reveal_strlit("v1-noncatalog");
    assert("v1"@ != "v3"@) by {
        assert("v1"@[1] != "v3"@[1]);
    }
    assert("v1"@ != "v1-noncatalog"@) by {
        assert("v1"@.len() != "v1-noncatalog"@.len());
    }
    let raw = v1_raw_entity(doc);
    assert(raw->Object_0[0] == ("apiVersion"@, JsonV::Str("v3"@)));
    lemma_raw_api_version(raw);
}

proof fn lemma_v2_is_v3(doc: JsonV, schema: V2Schema)
    requires
        version_of(doc) == match schema {
            V2Schema::V2 => "v2"@,
            V2Schema::V21 => "v2.1"@,
            V2Schema::V22 => "v2.2"@,
        },
    ensures
        version_of(document_migration(doc).0) == "v3"@,
{
    reveal_strlit("v1");
    reveal_strlit("v3");
    reveal_strlit("v1-noncatalog");
    reveal_strlit("v2");
    reveal_strlit("v2.1");
    reveal_strlit("v2.2");
    let v = version_of(doc);
    assert("v2"@ != "v3"@) by {
        assert("v2"@[1] != "v3"@[1]);
    }
    assert("v2"@ != "v1"@) by {
        assert("v2"@[1] != "v1"@[1]);
    }
    assert("v2.1"@.len() == 4 && "v2.2"@.len() == 4 && "v2"@.len() == 2 && "v3"@.len() == 2);
    assert("v1"@.len() == 2 && "v1-noncatalog"@.len() == 13);
    assert("v2.1"@ != "v2.2"@) by {
        assert("v2.1"@[3] != "v2.2"@[3]);
    }
    assert(v != "v3"@ && v != "v1"@ && v != "v1-noncatalog"@);
    let raw = v2_raw_entity(schema, doc);
    assert(raw->Object_0[0] == ("apiVersion"@, JsonV::Str("v3"@)));
    lemma_raw_api_version(raw);
}

/// Migration is idempotent: what it makes of a document is a v3 entity, or
/// the document passed through unchanged, so migrating that again gives it
/// back as it is.
pub proof fn law_migration_idempotent(doc: JsonV)
    ensures
        document_migration(document_migration(doc).0).0 == document_migration(doc).0,
{
    let v = version_of(doc);
    let m = document_migration(doc).0;
    if v == "v1"@ {
        lemma_v1_is_v3(doc);
        lemma_v3_passes(m);
    } else if v == "v2"@ {
        lemma_v2_is_v3(doc, V2Schema::V2);
        lemma_v3_passes(m);
    } else if v == "v2.1"@ {
        lemma_v2_is_v3(doc, V2Schema::V21);
        lemma_v3_passes(m);
    } else if v == "v2.2"@ {
        lemma_v2_is_v3(doc, V2Schema::V22);
        lemma_v3_passes(m);
    } else {
        assert(m == doc);
    }
}

proof fn lemma_merged_distinct(cs: Seq<JsonV>)
    requires
        mergeable(cs),
    ensures
        distinct_systems(merged_systems(cs)),
    decreases cs.len(),
{
    if cs.len() > 0 {
        let init = cs.drop_last();
        assert forall|i: int| 0 <= i < init.len() && (#[trigger] system_name(init[i])) is Some implies has_component_list(
            init[i],
        ) by {
            assert(init[i] == cs[i]);
        }
        lemma_merged_distinct(init);
        let m = merged_systems(init);
        let c = cs.last();
        assert(c == cs[cs.len() - 1]);
        match system_name(c) {
            None => {},
            Some(n) => {
                if exists|i: int| 0 <= i < m.len() && system_name(#[trigger] m[i]) == Some(n) {
                    let i = choose|i: int| 0 <= i < m.len() && system_name(#[trigger] m[i]) == Some(n);
                    lemma_with_components(m[i], append_new(components_of(m[i]), components_of(c)));
                    let r = merged_systems(cs);
                    assert(r == m.update(i, with_components(m[i], append_new(components_of(m[i]), components_of(c)))));
                    assert forall|j: int| 0 <= j < r.len() implies (#[trigger] system_name(r[j])) == system_name(m[j])
                        && has_component_list(r[j]) by {
                        if j != i {
                            assert(r[j] == m[j]);
                        }
                    }
                } else {
                    let r = merged_systems(cs);
                    assert(r == m.push(c));
                    assert forall|j: int| 0 <= j < r.len() implies (#[trigger] system_name(r[j])) is Some
                        && has_component_list(r[j]) by {
                        if j < m.len() {
                            assert(r[j] == m[j]);
                        }
                    }
                    assert forall|a: int, b: int|
                        0 <= a < r.len() && 0 <= b < r.len() && a != b implies system_name(#[trigger] r[a])
                        != system_name(#[trigger] r[b]) by {
                        if a < m.len() && b < m.len() {
                            assert(r[a] == m[a] && r[b] == m[b]);
                        } else if a < m.len() {
                            assert(r[a] == m[a]);
                        } else {
                            assert(r[b] == m[b]);
                        }
                    }
                }
            },
        }
    }
}

/// Merging companion systems keeps every system: each named system among the
/// companions has an entity of its name in the result, and each name is
/// there once.
pub proof fn law_merge_keeps_each_system_once(cs: Seq<JsonV>, k: int)
    requires
        mergeable(cs),
        0 <= k < cs.len(),
        system_name(cs[k]) is Some,
    ensures
        exists|i: int|
            0 <= i < merged_systems(cs).len() && system_name(#[trigger] merged_systems(cs)[i]) == system_name(cs[k]),
        distinct_systems(merged_systems(cs)),
    decreases cs.len(),
{
    lemma_merged_distinct(cs);
    let init = cs.drop_last();
    let c = cs.last();
    assert(c == cs[cs.len() - 1]);
    let m = merged_systems(init);
    assert forall|i: int| 0 <= i < init.len() && (#[trigger] system_name(init[i])) is Some implies has_component_list(
        init[i],
    ) by {
        assert(init[i] == cs[i]);
    }
    lemma_merged_distinct(init);
    let n = system_name(c)->0;
    if k < cs.len() - 1 {
        assert(init[k] == cs[k]);
        law_merge_keeps_each_system_once(init, k);
        let i = choose|i: int| 0 <= i < m.len() && system_name(#[trigger] m[i]) == system_name(cs[k]);
        let r = merged_systems(cs);
        match system_name(c) {
            None => {
                assert(r[i] == m[i]);
            },
            Some(n) => {
                if exists|j: int| 0 <= j < m.len() && system_name(#[trigger] m[j]) == Some(n) {
                    let j = choose|j: int| 0 <= j < m.len() && system_name(#[trigger] m[j]) == Some(n);
                    lemma_with_components(m[j], append_new(components_of(m[j]), components_of(c)));
                    if i == j {
                        assert(system_name(r[i]) == system_name(m[i]));
                    } else {
                        assert(r[i] == m[i]);
                    }
                } else {
                    assert(r[i] == m[i]);
                }
            },
        }
    } else {
        let r = merged_systems(cs);
        if exists|j: int| 0 <= j < m.len() && system_name(#[trigger] m[j]) == Some(n) {
            let j = choose|j: int| 0 <= j < m.len() && system_name(#[trigger] m[j]) == Some(n);
            lemma_with_components(m[j], append_new(components_of(m[j]), components_of(c)));
            assert(system_name(r[j]) == Some(n));
        } else {
            assert(r[m.len() as int] == c);
        }
    }
}

} // verus!
