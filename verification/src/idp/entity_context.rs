//! What `pup idp assist`, `owner`, `deps` and `register` read from the entity
//! graph's and the on-call API's JSON:API documents.
use vstd::prelude::*;

use crate::idp::assist::{
    compute_metadata_gaps, compute_next_actions, metadata_gaps_spec, next_actions_spec, service_ids,
    service_names, LinkEntry,
};
use crate::idp::entities::{
    opt_text, relationship_identifiers, relationship_identifiers_exec, texts,
};
use crate::idp::entity_query::{sorted_set_of, views};
use crate::json::{
    arr_at, get, jv, jvs, number_as_i64, number_as_u64, number_i64, number_u64, str_at, str_field,
    vget, Json, JsonV,
};
use crate::text::{concat2, concat3, owned, str_eq, usize_to_string, decimal};

verus! {

/// The string member `key` of an optional value.
pub open spec fn str_attr(attrs: Option<JsonV>, key: Seq<char>) -> Option<Seq<char>> {
    match attrs {
        Some(a) => str_at(a, key),
        None => None,
    }
}

/// The integer member `key` of an optional value; 0 when it is not an `i64`.
pub open spec fn i64_attr(attrs: Option<JsonV>, key: Seq<char>) -> int {
    match attrs {
        Some(a) => match vget(a, key) {
            Some(JsonV::Number(t)) => match number_i64(t) {
                Some(n) => n,
                None => 0,
            },
            _ => 0,
        },
        None => 0,
    }
}

fn str_attr_exec(attrs: Option<&Json>, key: &str) -> (r: Option<String>)
    ensures
        opt_text(r) == str_attr(
            match attrs {
                Some(a) => Some(jv(*a)),
                None => None,
            },
            key@,
        ),
{
    match attrs {
        Some(a) => str_field(a, key),
        None => None,
    }
}

fn i64_attr_exec(attrs: Option<&Json>, key: &str) -> (r: i64)
    ensures
        r as int == i64_attr(
            match attrs {
                Some(a) => Some(jv(*a)),
                None => None,
            },
            key@,
        ),
{
    match attrs {
        Some(a) => match get(a, key) {
            Some(Json::Number(t)) => match number_as_i64(t.as_str()) {
                Some(n) => n,
                None => 0,
            },
            _ => 0,
        },
        None => 0,
    }
}

/// What an entity is: its reference `<kind>:<name>`, name, kind and the
/// descriptive attributes it has.
pub struct EntitySummary {
    pub entity_ref: String,
    pub name: String,
    pub kind: String,
    pub description: Option<String>,
    pub lifecycle: Option<String>,
    pub tier: Option<String>,
    pub owner: Option<String>,
    pub definition_github_url: Option<String>,
}

/// The kind of an entity: its `type`, a service when it has none.
pub open spec fn summary_kind(entity: JsonV) -> Seq<char> {
    match str_at(entity, "type"@) {
        Some(k) => k,
        None => "service"@,
    }
}

/// The name of an entity: its `name` attribute, else its `display_name`, else
/// empty.
pub open spec fn summary_name(entity: JsonV) -> Seq<char> {
    let attrs = vget(entity, "attributes"@);
    match str_attr(attrs, "name"@) {
        Some(n) => n,
        None => match str_attr(attrs, "display_name"@) {
            Some(n) => n,
            None => Seq::empty(),
        },
    }
}

/// The summary of an entity of the graph.
pub open spec fn entity_summary(entity: JsonV, s: EntitySummary) -> bool {
    let attrs = vget(entity, "attributes"@);
    &&& s.kind@ == summary_kind(entity)
    &&& s.name@ == summary_name(entity)
    &&& s.entity_ref@ == summary_kind(entity) + ":"@ + summary_name(entity)
    &&& opt_text(s.description) == str_attr(attrs, "description"@)
    &&& opt_text(s.lifecycle) == str_attr(attrs, "lifecycle"@)
    &&& opt_text(s.tier) == str_attr(attrs, "tier"@)
    &&& opt_text(s.owner) == str_attr(attrs, "owner"@)
    &&& opt_text(s.definition_github_url) == str_attr(attrs, "definition_github_url"@)
}

/// An entity is named by its `name` attribute whenever it has one, with its
/// reference built from that name; the `display_name` is used only when there
/// is no `name`, and nothing when there is neither.
pub proof fn law_summary_named_by_name_attribute(entity: JsonV, s: EntitySummary)
    requires
        entity_summary(entity, s),
    ensures
        ({
            let attrs = vget(entity, "attributes"@);
            &&& str_attr(attrs, "name"@) matches Some(n) ==> s.name@ == n && s.entity_ref@ == s.kind@
                + ":"@ + n
            &&& str_attr(attrs, "name"@) is None ==> match str_attr(attrs, "display_name"@) {
                Some(d) => s.name@ == d,
                None => s.name@.len() == 0,
            }
        }),
{
}

/// The summary of an entity of the graph (see [`entity_summary`]).
pub fn extract_entity_summary(entity: &Json) -> (r: EntitySummary)
    ensures
        entity_summary(jv(*entity), r),
{
    let attrs = get(entity, "attributes");
    let kind = match str_field(entity, "type") {
        Some(k) => k,
        None => owned("service"),
    };
    let name = match str_attr_exec(attrs, "name") {
        Some(n) => n,
        None => match str_attr_exec(attrs, "display_name") {
            Some(n) => n,
            None => String::new(),
        },
    };
    EntitySummary {
        entity_ref: concat3(kind.as_str(), ":", name.as_str()),
        name,
        kind,
        description: str_attr_exec(attrs, "description"),
        lifecycle: str_attr_exec(attrs, "lifecycle"),
        tier: str_attr_exec(attrs, "tier"),
        owner: str_attr_exec(attrs, "owner"),
        definition_github_url: str_attr_exec(attrs, "definition_github_url"),
    }
}

/// A contact of an entity or a team.
pub struct ContactEntry {
    pub name: String,
    pub contact_type: String,
    pub contact: String,
}

/// The three strings of each item that has them all under `k1`, `k2`, `k3`.
pub open spec fn string_triples(items: Seq<JsonV>, k1: Seq<char>, k2: Seq<char>, k3: Seq<char>) -> Seq<
    (Seq<char>, Seq<char>, Seq<char>),
>
    decreases items.len(),
{
    if items.len() == 0 {
        Seq::empty()
    } else {
        let p = string_triples(items.drop_last(), k1, k2, k3);
        let x = items.last();
        match (str_at(x, k1), str_at(x, k2), str_at(x, k3)) {
            (Some(a), Some(b), Some(c)) => p.push((a, b, c)),
            _ => p,
        }
    }
}

/// The list member `key` of an optional value; empty when it has none.
pub open spec fn list_attr(attrs: Option<JsonV>, key: Seq<char>) -> Seq<JsonV> {
    match attrs {
        Some(a) => arr_at(a, key),
        None => Seq::empty(),
    }
}

pub open spec fn contact_views(v: Seq<ContactEntry>) -> Seq<(Seq<char>, Seq<char>, Seq<char>)> {
    Seq::new(v.len(), |i: int| (v[i].name@, v[i].contact_type@, v[i].contact@))
}

pub open spec fn link_views(v: Seq<LinkEntry>) -> Seq<(Seq<char>, Seq<char>, Seq<char>)> {
    Seq::new(v.len(), |i: int| (v[i].name@, v[i].link_type@, v[i].url@))
}

fn string_triples_exec(items: &Vec<Json>, k1: &str, k2: &str, k3: &str) -> (r: Vec<(String, String, String)>)
    ensures
        r@.map_values(|t: (String, String, String)| (t.0@, t.1@, t.2@)) == string_triples(
            jvs(items@),
            k1@,
            k2@,
            k3@,
        ),
{
    let ghost iv = jvs(items@);
    let mut out: Vec<(String, String, String)> = Vec::new();
    let mut i: usize = 0;
    assert(iv.take(0) =~= Seq::<JsonV>::empty());
    assert(out@.map_values(|t: (String, String, String)| (t.0@, t.1@, t.2@)) =~= Seq::<(Seq<char>, Seq<char>, Seq<char>)>::empty());
    while i < items.len()
        invariant
            i <= items@.len(),
            iv == jvs(items@),
            out@.map_values(|t: (String, String, String)| (t.0@, t.1@, t.2@)) == string_triples(
                iv.take(i as int),
                k1@,
                k2@,
                k3@,
            ),
        decreases items@.len() - i,
    {
        assert(iv.take(i + 1).drop_last() =~= iv.take(i as int));
        assert(iv.take(i + 1).last() == jv(items@[i as int]));
        let ghost before = out@.map_values(|t: (String, String, String)| (t.0@, t.1@, t.2@));
        match (str_field(&items[i], k1), str_field(&items[i], k2), str_field(&items[i], k3)) {
            (Some(a), Some(b), Some(c)) => {
                let ghost tv = (a@, b@, c@);
                out.push((a, b, c));
                assert(out@.map_values(|t: (String, String, String)| (t.0@, t.1@, t.2@)) =~= before.push(tv));
            },
            _ => {},
        }
        i += 1;
    }
    assert(iv.take(items@.len() as int) =~= iv);
    out
}

fn list_attr_exec(attrs: Option<&Json>, key: &str) -> (r: Vec<Json>)
    ensures
        jvs(r@) == list_attr(
            match attrs {
                Some(a) => Some(jv(*a)),
                None => None,
            },
            key@,
        ),
{
    match attrs {
        Some(a) => crate::json::arr_field(a, key),
        None => {
            let r: Vec<Json> = Vec::new();
            assert(jvs(r@) =~= Seq::<JsonV>::empty());
            r
        },
    }
}

/// The contacts of an entity's attributes: those with a name, a type and a
/// contact.
pub fn extract_contacts(attrs: Option<&Json>) -> (r: Vec<ContactEntry>)
    ensures
        contact_views(r@) == string_triples(
            list_attr(
                match attrs {
                    Some(a) => Some(jv(*a)),
                    None => None,
                },
                "contacts"@,
            ),
            "name"@,
            "type"@,
            "contact"@,
        ),
{
    let triples = string_triples_exec(&list_attr_exec(attrs, "contacts"), "name", "type", "contact");
    let ghost tv = triples@.map_values(|t: (String, String, String)| (t.0@, t.1@, t.2@));
    let mut out: Vec<ContactEntry> = Vec::new();
    let mut i: usize = 0;
    while i < triples.len()
        invariant
            i <= triples@.len(),
            tv == triples@.map_values(|t: (String, String, String)| (t.0@, t.1@, t.2@)),
            contact_views(out@) == tv.take(i as int),
        decreases triples@.len() - i,
    {
        let ghost before = contact_views(out@);
        let (a, b, c) = (triples[i].0.clone(), triples[i].1.clone(), triples[i].2.clone());
        assert(tv[i as int] == (a@, b@, c@));
        out.push(ContactEntry { name: a, contact_type: b, contact: c });
        assert(contact_views(out@) =~= before.push(tv[i as int]));
        assert(tv.take(i + 1) =~= tv.take(i as int).push(tv[i as int]));
        i += 1;
    }
    assert(tv.take(triples@.len() as int) =~= tv);
    out
}

/// The links of an entity's attributes: those with a name, a type and a url.
pub fn extract_links(attrs: Option<&Json>) -> (r: Vec<LinkEntry>)
    ensures
        link_views(r@) == string_triples(
            list_attr(
                match attrs {
                    Some(a) => Some(jv(*a)),
                    None => None,
                },
                "links"@,
            ),
            "name"@,
            "type"@,
            "url"@,
        ),
{
    let triples = string_triples_exec(&list_attr_exec(attrs, "links"), "name", "type", "url");
    let ghost tv = triples@.map_values(|t: (String, String, String)| (t.0@, t.1@, t.2@));
    let mut out: Vec<LinkEntry> = Vec::new();
    let mut i: usize = 0;
    while i < triples.len()
        invariant
            i <= triples@.len(),
            tv == triples@.map_values(|t: (String, String, String)| (t.0@, t.1@, t.2@)),
            link_views(out@) == tv.take(i as int),
        decreases triples@.len() - i,
    {
        let ghost before = link_views(out@);
        let (a, b, c) = (triples[i].0.clone(), triples[i].1.clone(), triples[i].2.clone());
        assert(tv[i as int] == (a@, b@, c@));
        out.push(LinkEntry { name: a, link_type: b, url: c });
        assert(link_views(out@) =~= before.push(tv[i as int]));
        assert(tv.take(i + 1) =~= tv.take(i as int).push(tv[i as int]));
        i += 1;
    }
    assert(tv.take(triples@.len() as int) =~= tv);
    out
}

/// The first item of type `t`.
pub open spec fn first_of_type(items: Seq<JsonV>, t: Seq<char>) -> Option<JsonV>
    decreases items.len(),
{
    if items.len() == 0 {
        None
    } else if str_at(items[0], "type"@) == Some(t) {
        Some(items[0])
    } else {
        first_of_type(items.drop_first(), t)
    }
}

fn first_of_type_exec<'a>(items: &'a Vec<Json>, t: &str) -> (r: Option<&'a Json>)
    ensures
        match r {
            Some(x) => first_of_type(jvs(items@), t@) == Some(jv(*x)),
            None => first_of_type(jvs(items@), t@) is None,
        },
{
    let ghost iv = jvs(items@);
    let mut i: usize = 0;
    assert(iv.skip(0) =~= iv);
    while i < items.len()
        invariant
            i <= items@.len(),
            iv == jvs(items@),
            first_of_type(iv, t@) == first_of_type(iv.skip(i as int), t@),
        decreases items@.len() - i,
    {
        assert(iv.skip(i as int).drop_first() =~= iv.skip(i + 1));
        assert(iv.skip(i as int)[0] == jv(items@[i as int]));
        let is_t = match str_field(&items[i], "type") {
            Some(k) => str_eq(k.as_str(), t),
            None => false,
        };
        if is_t {
            return Some(&items[i]);
        }
        i += 1;
    }
    None
}

/// The team that owns an entity, from the entity graph's `included` list.
pub struct OwnerInfo {
    pub team_handle: String,
    pub team_name: Option<String>,
    pub description: Option<String>,
    pub member_count: i64,
    pub contacts: Vec<ContactEntry>,
}

/// The owning team among the included entities: the first of type `team`.
pub open spec fn owner_team(included: JsonV) -> Option<JsonV> {
    match included {
        JsonV::Array(items) => first_of_type(items, "team"@),
        _ => None,
    }
}

/// The owner of an entity: its team's handle (empty when it has none), name,
/// summary or else description, member count, and the entity's contacts.
pub open spec fn owner_info(included: JsonV, o: Option<OwnerInfo>, contacts: Seq<(Seq<char>, Seq<char>, Seq<char>)>) -> bool {
    match owner_team(included) {
        None => o is None,
        Some(team) => {
            let attrs = vget(team, "attributes"@);
            &&& o is Some
            &&& o->0.team_handle@ == match str_attr(attrs, "handle"@) {
                Some(h) => h,
                None => Seq::empty(),
            }
            &&& opt_text(o->0.team_name) == str_attr(attrs, "name"@)
            &&& opt_text(o->0.description) == match str_attr(attrs, "summary"@) {
                Some(s) => Some(s),
                None => str_attr(attrs, "description"@),
            }
            &&& o->0.member_count as int == i64_attr(attrs, "user_count"@)
            &&& contact_views(o->0.contacts@) == contacts
        },
    }
}

fn owner_team_exec(included: &Json) -> (r: Option<&Json>)
    ensures
        match r {
            Some(t) => owner_team(jv(*included)) == Some(jv(*t)),
            None => owner_team(jv(*included)) is None,
        },
{
    match included {
        Json::Array(items) => {
            assert(jv(*included)->Array_0 =~= jvs(items@));
            first_of_type_exec(items, "team")
        },
        _ => None,
    }
}

/// The owner of an entity (see [`owner_info`]).
pub fn extract_owner(included: &Json, entity_contacts: Vec<ContactEntry>) -> (r: Option<OwnerInfo>)
    ensures
        owner_info(jv(*included), r, contact_views(entity_contacts@)),
{
    let team = match owner_team_exec(included) {
        Some(t) => t,
        None => {
            return None;
        },
    };
    let attrs = get(team, "attributes");
    Some(
        OwnerInfo {
            team_handle: match str_attr_exec(attrs, "handle") {
                Some(h) => h,
                None => String::new(),
            },
            team_name: str_attr_exec(attrs, "name"),
            description: match str_attr_exec(attrs, "summary") {
                Some(s) => Some(s),
                None => str_attr_exec(attrs, "description"),
            },
            member_count: i64_attr_exec(attrs, "user_count"),
            contacts: entity_contacts,
        },
    )
}

/// The id of the owning team, whose on-call is looked up.
pub open spec fn team_id(included: JsonV) -> Option<Seq<char>> {
    match owner_team(included) {
        Some(team) => str_attr(vget(team, "attributes"@), "id"@),
        None => None,
    }
}

/// The id of the owning team (see [`team_id`]).
pub fn extract_team_id(included: &Json) -> (r: Option<String>)
    ensures
        opt_text(r) == team_id(jv(*included)),
{
    match owner_team_exec(included) {
        Some(team) => str_attr_exec(get(team, "attributes"), "id"),
        None => None,
    }
}

/// Monitor counts by state.
pub struct MonitorCounts {
    pub ok: i64,
    pub alert: i64,
    pub warn: i64,
    pub no_data: i64,
}

/// Incident counts by state.
pub struct IncidentCounts {
    pub active: i64,
    pub stable: i64,
}

/// SLO counts by state.
pub struct SloCounts {
    pub ok: i64,
    pub breached: i64,
    pub warning: i64,
    pub no_data: i64,
}

/// The health of an entity: its service health status (`unknown` when it has
/// none) and its monitor, incident and SLO counts.
pub struct HealthSummary {
    pub status: String,
    pub monitors: MonitorCounts,
    pub incidents: IncidentCounts,
    pub slos: SloCounts,
}

/// The health read from an entity's attributes; a count that is not an `i64`
/// is 0.
pub open spec fn health_of(attrs: Option<JsonV>, h: HealthSummary) -> bool {
    &&& h.status@ == match str_attr(attrs, "service_health_status"@) {
        Some(s) => s,
        None => "unknown"@,
    }
    &&& h.monitors.ok as int == i64_attr(attrs, "ok_monitors_count"@)
    &&& h.monitors.alert as int == i64_attr(attrs, "alert_monitors_count"@)
    &&& h.monitors.warn as int == i64_attr(attrs, "warning_monitors_count"@)
    &&& h.monitors.no_data as int == i64_attr(attrs, "no_data_monitors_count"@)
    &&& h.incidents.active as int == i64_attr(attrs, "active_incidents_count"@)
    &&& h.incidents.stable as int == i64_attr(attrs, "stable_incidents_count"@)
    &&& h.slos.ok as int == i64_attr(attrs, "ok_slos_count"@)
    &&& h.slos.breached as int == i64_attr(attrs, "breached_slos_count"@)
    &&& h.slos.warning as int == i64_attr(attrs, "warning_slos_count"@)
    &&& h.slos.no_data as int == i64_attr(attrs, "no_data_slos_count"@)
}

/// The health of an entity (see [`health_of`]).
pub fn extract_health(attrs: Option<&Json>) -> (r: HealthSummary)
    ensures
        health_of(
            match attrs {
                Some(a) => Some(jv(*a)),
                None => None,
            },
            r,
        ),
{
    HealthSummary {
        status: match str_attr_exec(attrs, "service_health_status") {
            Some(s) => s,
            None => owned("unknown"),
        },
        monitors: MonitorCounts {
            ok: i64_attr_exec(attrs, "ok_monitors_count"),
            alert: i64_attr_exec(attrs, "alert_monitors_count"),
            warn: i64_attr_exec(attrs, "warning_monitors_count"),
            no_data: i64_attr_exec(attrs, "no_data_monitors_count"),
        },
        incidents: IncidentCounts {
            active: i64_attr_exec(attrs, "active_incidents_count"),
            stable: i64_attr_exec(attrs, "stable_incidents_count"),
        },
        slos: SloCounts {
            ok: i64_attr_exec(attrs, "ok_slos_count"),
            breached: i64_attr_exec(attrs, "breached_slos_count"),
            warning: i64_attr_exec(attrs, "warning_slos_count"),
            no_data: i64_attr_exec(attrs, "no_data_slos_count"),
        },
    }
}

/// The service names that a relationship of an entity links to (see
/// [`service_ids`]); none when the relationship is absent or undecodable.
pub open spec fn relationship_services(entity: JsonV, relation: Seq<char>) -> Seq<(Seq<char>, Seq<char>)> {
    let data = match vget(entity, "relationships"@) {
        Some(rs) => match vget(rs, relation) {
            Some(r) => vget(r, "data"@),
            None => None,
        },
        None => None,
    };
    let ids = match data {
        Some(d) => match relationship_identifiers(d) {
            Some(l) => l,
            None => Seq::empty(),
        },
        None => Seq::empty(),
    };
    Seq::new(ids.len(), |i: int| (ids[i].kind, ids[i].id))
}

/// The sorted, distinct service names that a relationship of an entity
/// links to, without their `ref:service:` prefix.
pub fn relationship_service_names(entity: &Json, relation: &str) -> (r: Vec<String>)
    ensures
        exists|ids: Seq<(String, String)>|
            ids.map_values(|p: (String, String)| (p.0@, p.1@)) == relationship_services(jv(*entity), relation@)
                && sorted_set_of(views(r@), service_ids(ids)),
{
    let data = match get(entity, "relationships") {
        Some(rs) => match get(rs, relation) {
            Some(r) => get(r, "data"),
            None => None,
        },
        None => None,
    };
    let idents = match data {
        Some(d) => match relationship_identifiers_exec(d) {
            Some(l) => l,
            None => Vec::new(),
        },
        None => Vec::new(),
    };
    let ghost target = relationship_services(jv(*entity), relation@);
    assert(target.len() == idents@.len());
    let mut pairs: Vec<(String, String)> = Vec::new();
    let mut i: usize = 0;
    while i < idents.len()
        invariant
            i <= idents@.len(),
            target == relationship_services(jv(*entity), relation@),
            target.len() == idents@.len(),
            forall|k: int| 0 <= k < idents@.len() ==> #[trigger] target[k] == (idents@[k].kind@, idents@[k].id@),
            pairs@.map_values(|p: (String, String)| (p.0@, p.1@)) == target.take(i as int),
        decreases idents@.len() - i,
    {
        let ghost before = pairs@.map_values(|p: (String, String)| (p.0@, p.1@));
        pairs.push((idents[i].kind.clone(), idents[i].id.clone()));
        assert(pairs@.map_values(|p: (String, String)| (p.0@, p.1@)) =~= before.push(target[i as int]));
        assert(target.take(i + 1) =~= target.take(i as int).push(target[i as int]));
        i += 1;
    }
    assert(target.take(idents@.len() as int) =~= target);
    service_names(&pairs)
}

/// The runtime dependencies of a service: the services upstream and
/// downstream of it.
pub struct DependencySummary {
    pub upstream: Vec<String>,
    pub downstream: Vec<String>,
}

/// The runtime dependencies of a service (see [`relationship_service_names`]).
pub fn extract_runtime_dependencies(entity: &Json) -> (r: DependencySummary)
    ensures
        exists|ids: Seq<(String, String)>|
            ids.map_values(|p: (String, String)| (p.0@, p.1@)) == relationship_services(
                jv(*entity),
                "runtime_upstream_services"@,
            ) && sorted_set_of(views(r.upstream@), service_ids(ids)),
        exists|ids: Seq<(String, String)>|
            ids.map_values(|p: (String, String)| (p.0@, p.1@)) == relationship_services(
                jv(*entity),
                "runtime_downstream_services"@,
            ) && sorted_set_of(views(r.downstream@), service_ids(ids)),
{
    DependencySummary {
        upstream: relationship_service_names(entity, "runtime_upstream_services"),
        downstream: relationship_service_names(entity, "runtime_downstream_services"),
    }
}

/// The first entity of an entity graph response, or why there is none.
pub open spec fn first_entity_of(data: JsonV, entity: Seq<char>) -> Result<JsonV, Seq<char>> {
    match vget(data, "data"@) {
        Some(JsonV::Array(items)) => if items.len() > 0 {
            Ok(items[0])
        } else {
            Err("no entity found matching '"@ + entity + "'"@)
        },
        _ => Err("entity graph response did not contain an entity list"@),
    }
}

/// The first entity of an entity graph response (see [`first_entity_of`]).
pub fn first_entity<'a>(data: &'a Json, entity: &str) -> (r: Result<&'a Json, String>)
    ensures
        match r {
            Ok(x) => first_entity_of(jv(*data), entity@) == Ok::<JsonV, Seq<char>>(jv(*x)),
            Err(e) => first_entity_of(jv(*data), entity@) == Err::<JsonV, Seq<char>>(e@),
        },
{
    match get(data, "data") {
        Some(d) => match d {
            Json::Array(items) => {
                assert(jv(*d)->Array_0 =~= jvs(items@));
                if items.len() > 0 {
                    Ok(&items[0])
                } else {
                    Err(concat3("no entity found matching '", entity, "'"))
                }
            },
            _ => Err(owned("entity graph response did not contain an entity list")),
        },
        None => Err(owned("entity graph response did not contain an entity list")),
    }
}

/// A responder on call for the owning team.
pub struct OnCallResponder {
    pub name: String,
    pub email: String,
    pub level: Option<String>,
}

/// Who is on call for the owning team.
pub struct OnCallInfo {
    pub responders: Vec<OnCallResponder>,
}

/// The string ids of the items.
pub open spec fn ids_of(items: Seq<JsonV>) -> Seq<Seq<char>>
    decreases items.len(),
{
    if items.len() == 0 {
        Seq::empty()
    } else {
        let p = ids_of(items.drop_last());
        match str_at(items.last(), "id"@) {
            Some(id) => p.push(id),
            None => p,
        }
    }
}

/// The linkage list of relationship `relation` of `v`.
pub open spec fn linkage(v: Option<JsonV>, relation: Seq<char>) -> Option<Seq<JsonV>> {
    let d = match v {
        Some(x) => match vget(x, "relationships"@) {
            Some(rs) => match vget(rs, relation) {
                Some(r) => vget(r, "data"@),
                None => None,
            },
            None => None,
        },
        None => None,
    };
    match d {
        Some(JsonV::Array(items)) => Some(items),
        _ => None,
    }
}

/// The responders of an escalation step: those of the first included item
/// with the step's id that lists responders.
pub open spec fn step_responders(included: Seq<JsonV>, step_id: Seq<char>) -> Option<Seq<Seq<char>>>
    decreases included.len(),
{
    if included.len() == 0 {
        None
    } else {
        let inc = included[0];
        if str_at(inc, "id"@) == Some(step_id) && linkage(Some(inc), "responders"@) is Some {
            Some(ids_of(linkage(Some(inc), "responders"@)->0))
        } else {
            step_responders(included.drop_first(), step_id)
        }
    }
}

/// The responders of the escalation steps, step after step.
pub open spec fn escalation_ids(included: Seq<JsonV>, steps: Seq<JsonV>) -> Seq<Seq<char>>
    decreases steps.len(),
{
    if steps.len() == 0 {
        Seq::empty()
    } else {
        let p = escalation_ids(included, steps.drop_last());
        match str_at(steps.last(), "id"@) {
            Some(step_id) => match step_responders(included, step_id) {
                Some(ids) => p + ids,
                None => p,
            },
            None => p,
        }
    }
}

/// The included user with an id: the first item of type `users` with it.
pub open spec fn user_with_id(included: Seq<JsonV>, uid: Seq<char>) -> Option<JsonV>
    decreases included.len(),
{
    if included.len() == 0 {
        None
    } else if str_at(included[0], "type"@) == Some("users"@) && str_at(included[0], "id"@) == Some(uid) {
        Some(included[0])
    } else {
        user_with_id(included.drop_first(), uid)
    }
}

/// A responder as plain values: name, email and level.
pub open spec fn responder_of(user: JsonV, level: Seq<char>) -> (Seq<char>, Seq<char>, Option<Seq<char>>) {
    let attrs = vget(user, "attributes"@);
    (
        match str_attr(attrs, "name"@) {
            Some(n) => n,
            None => Seq::empty(),
        },
        match str_attr(attrs, "email"@) {
            Some(e) => e,
            None => Seq::empty(),
        },
        Some(level),
    )
}

/// The responders for the ids found among the users: the primary ones, or
/// the escalation ones not already primary.
pub open spec fn responders_for(
    included: Seq<JsonV>,
    ids: Seq<Seq<char>>,
    level: Seq<char>,
    skip: Seq<Seq<char>>,
) -> Seq<(Seq<char>, Seq<char>, Option<Seq<char>>)>
    decreases ids.len(),
{
    if ids.len() == 0 {
        Seq::empty()
    } else {
        let p = responders_for(included, ids.drop_last(), level, skip);
        if skip.contains(ids.last()) {
            p
        } else {
            match user_with_id(included, ids.last()) {
                Some(u) => p.push(responder_of(u, level)),
                None => p,
            }
        }
    }
}

/// Who is on call according to the on-call API's response: the primary
/// responders, then the escalation responders who are not primary; none
/// when the response includes nothing or no responder is found.
pub open spec fn on_call_of(data: JsonV) -> Option<Seq<(Seq<char>, Seq<char>, Option<Seq<char>>)>> {
    match vget(data, "included"@) {
        Some(JsonV::Array(included)) => {
            let team = vget(data, "data"@);
            let primary = match linkage(team, "responders"@) {
                Some(items) => ids_of(items),
                None => Seq::empty(),
            };
            let escalation = match linkage(team, "escalations"@) {
                Some(steps) => escalation_ids(included, steps),
                None => Seq::empty(),
            };
            let r = responders_for(included, primary, "primary"@, Seq::empty()) + responders_for(
                included,
                escalation,
                "escalation"@,
                primary,
            );
            if r.len() == 0 {
                None
            } else {
                Some(r)
            }
        },
        _ => None,
    }
}

pub open spec fn responder_views(v: Seq<OnCallResponder>) -> Seq<(Seq<char>, Seq<char>, Option<Seq<char>>)> {
    Seq::new(v.len(), |i: int| (v[i].name@, v[i].email@, opt_text(v[i].level)))
}

fn ids_exec(items: &Vec<Json>) -> (r: Vec<String>)
    ensures
        texts(r@) == ids_of(jvs(items@)),
{
    let ghost iv = jvs(items@);
    let mut out: Vec<String> = Vec::new();
    let mut i: usize = 0;
    assert(iv.take(0) =~= Seq::<JsonV>::empty());
    assert(texts(out@) =~= Seq::<Seq<char>>::empty());
    while i < items.len()
        invariant
            i <= items@.len(),
            iv == jvs(items@),
            texts(out@) == ids_of(iv.take(i as int)),
        decreases items@.len() - i,
    {
        assert(iv.take(i + 1).drop_last() =~= iv.take(i as int));
        assert(iv.take(i + 1).last() == jv(items@[i as int]));
        let ghost before = texts(out@);
        match str_field(&items[i], "id") {
            Some(id) => {
                let ghost idv = id@;
                out.push(id);
                assert(texts(out@) =~= before.push(idv));
            },
            None => {},
        }
        i += 1;
    }
    assert(iv.take(items@.len() as int) =~= iv);
    out
}

fn linkage_exec<'a>(v: Option<&'a Json>, relation: &str) -> (r: Option<&'a Vec<Json>>)
    ensures
        match r {
            Some(items) => linkage(
                match v {
                    Some(x) => Some(jv(*x)),
                    None => None,
                },
                relation@,
            ) == Some(jvs(items@)),
            None => linkage(
                match v {
                    Some(x) => Some(jv(*x)),
                    None => None,
                },
                relation@,
            ) is None,
        },
{
    let d = match v {
        Some(x) => match get(x, "relationships") {
            Some(rs) => match get(rs, relation) {
                Some(r) => get(r, "data"),
                None => None,
            },
            None => None,
        },
        None => None,
    };
    match d {
        Some(dv) => match dv {
            Json::Array(items) => {
                assert(jv(*dv)->Array_0 =~= jvs(items@));
                Some(items)
            },
            _ => None,
        },
        None => None,
    }
}

fn step_responders_exec(included: &Vec<Json>, step_id: &str) -> (r: Option<Vec<String>>)
    ensures
        match r {
            Some(ids) => step_responders(jvs(included@), step_id@) == Some(texts(ids@)),
            None => step_responders(jvs(included@), step_id@) is None,
        },
{
    let ghost iv = jvs(included@);
    let mut i: usize = 0;
    assert(iv.skip(0) =~= iv);
    while i < included.len()
        invariant
            i <= included@.len(),
            iv == jvs(included@),
            step_responders(iv, step_id@) == step_responders(iv.skip(i as int), step_id@),
        decreases included@.len() - i,
    {
        assert(iv.skip(i as int).drop_first() =~= iv.skip(i + 1));
        assert(iv.skip(i as int)[0] == jv(included@[i as int]));
        let same = match str_field(&included[i], "id") {
            Some(id) => str_eq(id.as_str(), step_id),
            None => false,
        };
        if same {
            match linkage_exec(Some(&included[i]), "responders") {
                Some(items) => {
                    return Some(ids_exec(items));
                },
                None => {},
            }
        }
        i += 1;
    }
    None
}

fn escalation_ids_exec(included: &Vec<Json>, steps: &Vec<Json>) -> (r: Vec<String>)
    ensures
        texts(r@) == escalation_ids(jvs(included@), jvs(steps@)),
{
    let ghost sv = jvs(steps@);
    let mut out: Vec<String> = Vec::new();
    let mut i: usize = 0;
    assert(sv.take(0) =~= Seq::<JsonV>::empty());
    assert(texts(out@) =~= Seq::<Seq<char>>::empty());
    while i < steps.len()
        invariant
            i <= steps@.len(),
            sv == jvs(steps@),
            texts(out@) == escalation_ids(jvs(included@), sv.take(i as int)),
        decreases steps@.len() - i,
    {
        assert(sv.take(i + 1).drop_last() =~= sv.take(i as int));
        assert(sv.take(i + 1).last() == jv(steps@[i as int]));
        let ghost before = texts(out@);
        match str_field(&steps[i], "id") {
            Some(step_id) => match step_responders_exec(included, step_id.as_str()) {
                Some(mut ids) => {
                    let ghost idv = texts(ids@);
                    out.append(&mut ids);
                    assert(texts(out@) =~= before + idv);
                },
                None => {},
            },
            None => {},
        }
        i += 1;
    }
    assert(sv.take(steps@.len() as int) =~= sv);
    out
}

fn user_with_id_exec<'a>(included: &'a Vec<Json>, uid: &str) -> (r: Option<&'a Json>)
    ensures
        match r {
            Some(u) => user_with_id(jvs(included@), uid@) == Some(jv(*u)),
            None => user_with_id(jvs(included@), uid@) is None,
        },
{
    let ghost iv = jvs(included@);
    let mut i: usize = 0;
    assert(iv.skip(0) =~= iv);
    while i < included.len()
        invariant
            i <= included@.len(),
            iv == jvs(included@),
            user_with_id(iv, uid@) == user_with_id(iv.skip(i as int), uid@),
        decreases included@.len() - i,
    {
        assert(iv.skip(i as int).drop_first() =~= iv.skip(i + 1));
        assert(iv.skip(i as int)[0] == jv(included@[i as int]));
        let is_user = match str_field(&included[i], "type") {
            Some(t) => str_eq(t.as_str(), "users"),
            None => false,
        };
        let same = match str_field(&included[i], "id") {
            Some(id) => str_eq(id.as_str(), uid),
            None => false,
        };
        if is_user && same {
            return Some(&included[i]);
        }
        i += 1;
    }
    None
}

fn contains_text(v: &Vec<String>, s: &str) -> (r: bool)
    ensures
        r == texts(v@).contains(s@),
{
    let mut i: usize = 0;
    while i < v.len()
        invariant
            i <= v@.len(),
            forall|k: int| 0 <= k < i ==> texts(v@)[k] != s@,
        decreases v@.len() - i,
    {
        if str_eq(v[i].as_str(), s) {
            assert(texts(v@)[i as int] == s@);
            return true;
        }
        i += 1;
    }
    false
}

fn push_responders(
    out: &mut Vec<OnCallResponder>,
    included: &Vec<Json>,
    ids: &Vec<String>,
    level: &str,
    skip: &Vec<String>,
)
    ensures
        responder_views(final(out)@) == responder_views(old(out)@) + responders_for(
            jvs(included@),
            texts(ids@),
            level@,
            texts(skip@),
        ),
{
    let ghost idv = texts(ids@);
    let ghost r0 = responder_views(out@);
    let mut i: usize = 0;
    assert(idv.take(0) =~= Seq::<Seq<char>>::empty());
    assert(responder_views(out@) =~= r0 + Seq::<(Seq<char>, Seq<char>, Option<Seq<char>>)>::empty());
    while i < ids.len()
        invariant
            i <= ids@.len(),
            idv == texts(ids@),
            responder_views(out@) == r0 + responders_for(jvs(included@), idv.take(i as int), level@, texts(skip@)),
        decreases ids@.len() - i,
    {
        assert(idv.take(i + 1).drop_last() =~= idv.take(i as int));
        assert(idv.take(i + 1).last() == ids@[i as int]@);
        let ghost before = responder_views(out@);
        if !contains_text(skip, ids[i].as_str()) {
            match user_with_id_exec(included, ids[i].as_str()) {
                Some(u) => {
                    let attrs = get(u, "attributes");
                    let name = match str_attr_exec(attrs, "name") {
                        Some(n) => n,
                        None => String::new(),
                    };
                    let email = match str_attr_exec(attrs, "email") {
                        Some(e) => e,
                        None => String::new(),
                    };
                    let ghost rv = (name@, email@, Some(level@));
                    out.push(OnCallResponder { name, email, level: Some(owned(level)) });
                    assert(responder_views(out@) =~= before.push(rv));
                },
                None => {},
            }
        }
        i += 1;
    }
    assert(idv.take(ids@.len() as int) =~= idv);
}

/// Who is on call according to the on-call API's response (see
/// [`on_call_of`]).
pub fn on_call_from_response(data: &Json) -> (r: Option<OnCallInfo>)
    ensures
        match r {
            Some(info) => on_call_of(jv(*data)) == Some(responder_views(info.responders@)),
            None => on_call_of(jv(*data)) is None,
        },
{
    let included = match get(data, "included") {
        Some(iv) => match iv {
            Json::Array(items) => {
                assert(jv(*iv)->Array_0 =~= jvs(items@));
                items
            },
            _ => {
                return None;
            },
        },
        None => {
            return None;
        },
    };
    let team = get(data, "data");
    let primary = match linkage_exec(team, "responders") {
        Some(items) => ids_exec(items),
        None => {
            let v: Vec<String> = Vec::new();
            assert(texts(v@) =~= Seq::<Seq<char>>::empty());
            v
        },
    };
    let escalation = match linkage_exec(team, "escalations") {
        Some(steps) => escalation_ids_exec(included, steps),
        None => {
            let v: Vec<String> = Vec::new();
            assert(texts(v@) =~= Seq::<Seq<char>>::empty());
            v
        },
    };
    let mut responders: Vec<OnCallResponder> = Vec::new();
    let none: Vec<String> = Vec::new();
    assert(texts(none@) =~= Seq::<Seq<char>>::empty());
    assert(responder_views(responders@) =~= Seq::<(Seq<char>, Seq<char>, Option<Seq<char>>)>::empty());
    push_responders(&mut responders, included, &primary, "primary", &none);
    push_responders(&mut responders, included, &escalation, "escalation", &primary);
    if responders.len() == 0 {
        None
    } else {
        Some(OnCallInfo { responders })
    }
}

/// What is reported beside a command's output: a count, whether the output
/// is cut short, the command, and a suggested next step.
pub struct Metadata {
    pub count: Option<usize>,
    pub truncated: bool,
    pub command: Option<String>,
    pub next_action: Option<String>,
}

/// The count of registered entities: `meta.count` when it is a whole number
/// that fits a `usize`, else the length of the `data` list.
pub open spec fn registration_count(data: JsonV) -> Option<usize> {
    let meta_count = match vget(data, "meta"@) {
        Some(m) => match vget(m, "count"@) {
            Some(JsonV::Number(t)) => match number_u64(t) {
                Some(n) => if n <= usize::MAX {
                    Some(n as usize)
                } else {
                    None
                },
                None => None,
            },
            _ => None,
        },
        None => None,
    };
    match meta_count {
        Some(n) => Some(n),
        None => match vget(data, "data"@) {
            Some(JsonV::Array(items)) => Some(items.len() as usize),
            _ => None,
        },
    }
}

/// The reference `<kind>:<namespace>/<name>` of the first registered entity,
/// in the `default` namespace when it names none.
pub open spec fn first_registered_ref(data: JsonV) -> Option<Seq<char>> {
    let attrs = match vget(data, "data"@) {
        Some(JsonV::Array(items)) => if items.len() > 0 {
            vget(items[0], "attributes"@)
        } else {
            None
        },
        _ => None,
    };
    match attrs {
        Some(JsonV::Object(a)) => match (str_at(JsonV::Object(a), "kind"@), str_at(JsonV::Object(a), "name"@)) {
            (Some(k), Some(n)) => Some(
                k + ":"@ + match str_at(JsonV::Object(a), "namespace"@) {
                    Some(ns) => ns,
                    None => "default"@,
                } + "/"@ + n,
            ),
            _ => None,
        },
        _ => None,
    }
}

/// The number of schema warnings of one included item.
pub open spec fn schema_warning_count(item: JsonV) -> nat {
    let w = match vget(item, "attributes"@) {
        Some(a) => match vget(a, "schema"@) {
            Some(s) => match vget(s, "metadata"@) {
                Some(m) => match vget(m, "managed"@) {
                    Some(g) => match vget(g, "status"@) {
                        Some(st) => vget(st, "warnings"@),
                        None => None,
                    },
                    None => None,
                },
                None => None,
            },
            None => None,
        },
        None => None,
    };
    match w {
        Some(JsonV::Array(ws)) => ws.len(),
        _ => 0,
    }
}

/// The schema warnings of the included items, in all.
pub open spec fn warnings_total(items: Seq<JsonV>) -> nat
    decreases items.len(),
{
    if items.len() == 0 {
        0
    } else {
        warnings_total(items.drop_last()) + schema_warning_count(items.last())
    }
}

/// The schema warnings of a registration response, in all.
pub open spec fn registration_warnings(data: JsonV) -> nat {
    match vget(data, "included"@) {
        Some(JsonV::Array(items)) => warnings_total(items),
        _ => 0,
    }
}

/// The next step after a registration: review the schema warnings when there
/// are any, and verify the (first) registered entity when it is named.
pub open spec fn registration_next_action(data: JsonV) -> Option<Seq<char>> {
    let which = if registration_count(data) == Some(1usize) {
        "the registered entity"@
    } else {
        "the first registered entity"@
    };
    let n = registration_warnings(data);
    let review = "Review "@ + decimal(n as int)
        + " schema warning(s) in `included[].attributes.schema.metadata.managed.status.warnings`"@;
    match first_registered_ref(data) {
        Some(r) => if n == 0 {
            Some(
                "Use `pup --read-only software-catalog entities list --filter-ref '"@ + r
                    + "'` to verify "@ + which,
            )
        } else {
            Some(
                review + "; then use `pup --read-only software-catalog entities list --filter-ref '"@
                    + r + "'` to verify "@ + which,
            )
        },
        None => if n == 0 {
            None
        } else {
            Some(review)
        },
    }
}

fn warning_count_exec(item: &Json) -> (r: usize)
    ensures
        r as nat == schema_warning_count(jv(*item)),
{
    let a = match get(item, "attributes") {
        Some(a) => a,
        None => {
            return 0;
        },
    };
    let s = match get(a, "schema") {
        Some(s) => s,
        None => {
            return 0;
        },
    };
    let m = match get(s, "metadata") {
        Some(m) => m,
        None => {
            return 0;
        },
    };
    let g = match get(m, "managed") {
        Some(g) => g,
        None => {
            return 0;
        },
    };
    let st = match get(g, "status") {
        Some(st) => st,
        None => {
            return 0;
        },
    };
    match get(st, "warnings") {
        Some(w) => match w {
            Json::Array(ws) => {
                assert(jv(*w)->Array_0 =~= jvs(ws@));
                ws.len()
            },
            _ => 0,
        },
        None => 0,
    }
}

/// The count, command and next step reported after registering entities from
/// `file` (see [`registration_count`] and [`registration_next_action`]).
pub fn registration_metadata(data: &Json, file: &str) -> (r: Metadata)
    requires
        registration_warnings(jv(*data)) <= usize::MAX,
    ensures
        r.count == registration_count(jv(*data)),
        !r.truncated,
        opt_text(r.command) == Some("idp register "@ + file@),
        opt_text(r.next_action) == registration_next_action(jv(*data)),
{
    let ghost d = jv(*data);
    let meta_count: Option<usize> = match get(data, "meta") {
        Some(m) => match get(m, "count") {
            Some(Json::Number(t)) => match number_as_u64(t.as_str()) {
                Some(n) => if n <= usize::MAX as u64 {
                    Some(n as usize)
                } else {
                    None
                },
                None => None,
            },
            _ => None,
        },
        None => None,
    };
    let items_opt: Option<&Vec<Json>> = match get(data, "data") {
        Some(dv) => match dv {
            Json::Array(items) => {
                assert(jv(*dv)->Array_0 =~= jvs(items@));
                Some(items)
            },
            _ => None,
        },
        None => None,
    };
    let count = match meta_count {
        Some(n) => Some(n),
        None => match items_opt {
            Some(items) => Some(items.len()),
            None => None,
        },
    };
    let attrs: Option<&Json> = match items_opt {
        Some(items) => if items.len() > 0 {
            get(&items[0], "attributes")
        } else {
            None
        },
        None => None,
    };
    let first_ref: Option<String> = match attrs {
        Some(a) => match a {
            Json::Object(_) => match (str_field(a, "kind"), str_field(a, "name")) {
                (Some(k), Some(n)) => {
                    let ns = match str_field(a, "namespace") {
                        Some(ns) => ns,
                        None => owned("default"),
                    };
                    let mut r = concat3(k.as_str(), ":", ns.as_str());
                    r.append("/");
                    r.append(n.as_str());
                    Some(r)
                },
                _ => None,
            },
            _ => None,
        },
        None => None,
    };
    assert(opt_text(first_ref) == first_registered_ref(d));
    let mut total: usize = 0;
    match get(data, "included") {
        Some(iv) => match iv {
            Json::Array(items) => {
                assert(jv(*iv)->Array_0 =~= jvs(items@));
                let ghost xs = jvs(items@);
                let mut i: usize = 0;
                assert(xs.take(0) =~= Seq::<JsonV>::empty());
                while i < items.len()
                    invariant
                        i <= items@.len(),
                        xs == jvs(items@),
                        warnings_total(xs) <= usize::MAX,
                        total as nat == warnings_total(xs.take(i as int)),
                    decreases items@.len() - i,
                {
                    assert(xs.take(i + 1).drop_last() =~= xs.take(i as int));
                    assert(xs.take(i + 1).last() == jv(items@[i as int]));
                    proof {
                        lemma_warnings_total_prefix(xs, i + 1);
                    }
                    total = total + warning_count_exec(&items[i]);
                    i += 1;
                }
                assert(xs.take(items@.len() as int) =~= xs);
            },
            _ => {},
        },
        None => {},
    }
    assert(total as nat == registration_warnings(d));
    let which = if count == Some(1usize) {
        "the registered entity"
    } else {
        "the first registered entity"
    };
    let mut review = concat2("Review ", usize_to_string(total).as_str());
    review.append(" schema warning(s) in `included[].attributes.schema.metadata.managed.status.warnings`");
    let next_action = match &first_ref {
        Some(r) => {
            if total == 0 {
                let mut v = concat3("Use `pup --read-only software-catalog entities list --filter-ref '", r.as_str(), "'` to verify ");
                v.append(which);
                Some(v)
            } else {
                let mut v = review.clone();
                v.append("; then use `pup --read-only software-catalog entities list --filter-ref '");
                v.append(r.as_str());
                v.append("'` to verify ");
                v.append(which);
                Some(v)
            }
        },
        None => if total == 0 {
            None
        } else {
            Some(review)
        },
    };
    Metadata { count, truncated: false, command: Some(concat2("idp register ", file)), next_action }
}

proof fn lemma_warnings_total_prefix(xs: Seq<JsonV>, n: int)
    requires
        0 <= n <= xs.len(),
    ensures
        warnings_total(xs.take(n)) <= warnings_total(xs),
    decreases xs.len() - n,
{
    if n < xs.len() {
        lemma_warnings_total_prefix(xs, n + 1);
        assert(xs.take(n + 1).drop_last() =~= xs.take(n));
    } else {
        assert(xs.take(n) =~= xs);
    }
}

/// The `included` list of an entity graph response; an empty list when it
/// has none.
pub open spec fn included_of(data: JsonV) -> JsonV {
    match vget(data, "included"@) {
        Some(i) => i,
        None => JsonV::Array(Seq::empty()),
    }
}

/// The `included` list of an entity graph response (see [`included_of`]).
pub fn included_list(data: &Json) -> (r: Json)
    ensures
        jv(r) == included_of(jv(*data)),
{
    match get(data, "included") {
        Some(i) => crate::json::copy_json(i),
        None => {
            let r = Json::Array(Vec::new());
            assert(jv(r)->Array_0 =~= Seq::<JsonV>::empty());
            r
        },
    }
}

/// The context `pup idp assist` reports for an entity.
pub struct AssistResponse {
    pub entity: EntitySummary,
    pub owner: Option<OwnerInfo>,
    pub on_call: Option<OnCallInfo>,
    pub health: HealthSummary,
    pub dependencies: DependencySummary,
    pub metadata_gaps: Vec<String>,
    pub links: Vec<LinkEntry>,
    pub suggested_next_actions: Vec<String>,
}

/// The context of the first entity of an entity graph response, with who is
/// on call: its summary, owner, health, runtime dependencies, links, the
/// metadata it lacks and the next steps suggested; the error of
/// [`first_entity_of`] when there is no entity.
pub fn assist_report(entity: &str, entity_data: &Json, on_call: Option<OnCallInfo>) -> (r: Result<AssistResponse, String>)
    ensures
        match r {
            Err(e) => first_entity_of(jv(*entity_data), entity@) == Err::<JsonV, Seq<char>>(e@),
            Ok(a) => {
                &&& first_entity_of(jv(*entity_data), entity@) matches Ok(primary)
                &&& {
                    let attrs = vget(primary, "attributes"@);
                    let contacts = string_triples(list_attr(attrs, "contacts"@), "name"@, "type"@, "contact"@);
                    &&& entity_summary(primary, a.entity)
                    &&& owner_info(included_of(jv(*entity_data)), a.owner, contacts)
                    &&& health_of(attrs, a.health)
                    &&& link_views(a.links@) == string_triples(list_attr(attrs, "links"@), "name"@, "type"@, "url"@)
                    &&& views(a.metadata_gaps@) == metadata_gaps_spec(
                        a.entity.description is Some,
                        a.entity.lifecycle is Some,
                        a.entity.tier is Some,
                        a.links@,
                    )
                    &&& views(a.suggested_next_actions@) == next_actions_spec(
                        a.entity.name@,
                        a.health.monitors.alert > 0 || a.health.incidents.active > 0,
                        a.health.slos.breached > 0,
                        views(a.metadata_gaps@),
                    )
                    &&& exists|ids: Seq<(String, String)>|
                        ids.map_values(|p: (String, String)| (p.0@, p.1@)) == relationship_services(
                            primary,
                            "runtime_upstream_services"@,
                        ) && sorted_set_of(views(a.dependencies.upstream@), service_ids(ids))
                    &&& exists|ids: Seq<(String, String)>|
                        ids.map_values(|p: (String, String)| (p.0@, p.1@)) == relationship_services(
                            primary,
                            "runtime_downstream_services"@,
                        ) && sorted_set_of(views(a.dependencies.downstream@), service_ids(ids))
                }
                &&& a.on_call == on_call
            },
        },
{
    let primary = match first_entity(entity_data, entity) {
        Ok(p) => p,
        Err(e) => {
            return Err(e);
        },
    };
    let attrs = get(primary, "attributes");
    let included = included_list(entity_data);
    let summary = extract_entity_summary(primary);
    let contacts = extract_contacts(attrs);
    let owner = extract_owner(&included, contacts);
    let health = extract_health(attrs);
    let links = extract_links(attrs);
    let gaps = compute_metadata_gaps(&summary.description, &summary.lifecycle, &summary.tier, links.as_slice());
    let next_actions = compute_next_actions(
        summary.name.as_str(),
        health.monitors.alert,
        health.incidents.active,
        health.slos.breached,
        &gaps,
    );
    let dependencies = extract_runtime_dependencies(primary);
    Ok(
        AssistResponse {
            entity: summary,
            owner,
            on_call,
            health,
            dependencies,
            metadata_gaps: gaps,
            links,
            suggested_next_actions: next_actions,
        },
    )
}

/// What `pup idp assist` reports beside its output.
pub fn assist_metadata(entity: &str) -> (r: Metadata)
    ensures
        r.count == Some(1usize),
        !r.truncated,
        opt_text(r.command) == Some("idp assist "@ + entity@),
        opt_text(r.next_action) == Some(
            "Use `pup idp owner "@ + entity@ + "` for full ownership details, or `pup idp deps "@ + entity@
                + "` for dependency graph"@,
        ),
{
    let mut next = concat3("Use `pup idp owner ", entity, "` for full ownership details, or `pup idp deps ");
    next.append(entity);
    next.append("` for dependency graph");
    Metadata {
        count: Some(1),
        truncated: false,
        command: Some(concat2("idp assist ", entity)),
        next_action: Some(next),
    }
}

/// What `pup idp owner` reports beside its output.
pub fn owner_metadata(entity: &str) -> (r: Metadata)
    ensures
        r.count == Some(1usize),
        !r.truncated,
        opt_text(r.command) == Some("idp owner "@ + entity@),
        r.next_action is None,
{
    Metadata { count: Some(1), truncated: false, command: Some(concat2("idp owner ", entity)), next_action: None }
}

/// What `pup idp deps` reports beside its output: the number of
/// dependencies, upstream and downstream.
pub fn deps_metadata(entity: &str, dependencies: &DependencySummary) -> (r: Metadata)
    requires
        dependencies.upstream@.len() + dependencies.downstream@.len() <= usize::MAX,
    ensures
        r.count == Some((dependencies.upstream@.len() + dependencies.downstream@.len()) as usize),
        !r.truncated,
        opt_text(r.command) == Some("idp deps "@ + entity@),
        opt_text(r.next_action) == Some(
            "Use `pup idp entities query` for a different lookback or broader dependency relations"@,
        ),
{
    Metadata {
        count: Some(dependencies.upstream.len() + dependencies.downstream.len()),
        truncated: false,
        command: Some(concat2("idp deps ", entity)),
        next_action: Some(owned("Use `pup idp entities query` for a different lookback or broader dependency relations")),
    }
}

/// What `pup idp find` reports beside the raw page: its count and cursor,
/// and else the suggestion to assist on one entity.
pub fn find_metadata(query: &str, data: &Json) -> (r: Metadata)
    ensures
        ({
            let (c, t, n) = crate::idp::entities::raw_metadata(jv(*data));
            &&& match r.count {
                Some(k) => c == Some(k as nat),
                None => c is None,
            }
            &&& r.truncated == t
            &&& opt_text(r.command) == Some("idp find "@ + query@)
            &&& opt_text(r.next_action) == match n {
                Some(x) => Some(x),
                None => Some("Use `pup idp assist <entity>` for full context on a specific entity"@),
            }
        }),
{
    let (count, truncated, next) = crate::idp::entities::raw_response_metadata(data);
    Metadata {
        count,
        truncated,
        command: Some(concat2("idp find ", query)),
        next_action: match next {
            Some(n) => Some(n),
            None => Some(owned("Use `pup idp assist <entity>` for full context on a specific entity")),
        },
    }
}

} // verus!
