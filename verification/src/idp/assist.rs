//! `pup idp find`, `assist` and `deps`: the search query, the metadata gaps and
//! suggested next steps reported for an entity, and its runtime dependencies.
use vstd::prelude::*;

use crate::idp::entity_query::{
    agrees, scope_check, sorted_set_of, sorted_unique, validate_query_scope, views, QErr,
    QueryError,
};
use crate::text::{
    concat2, concat3, contains_str, contains_sub, from_chars, is_ws, is_ws_char, join, join_strings,
    owned, push_char, starts_with, starts_with_chars, str_eq, to_chars, trim, trim_chars,
};

verus! {

/// Characters that UEG glob syntax gives a meaning: whitespace and
/// `\ + - = & | > < ! ( ) { } [ ] ^ " ~ * ? :`.
pub open spec fn ueg_special(c: char) -> bool {
    is_ws(c) || c == '\\' || c == '+' || c == '-' || c == '=' || c == '&' || c == '|' || c == '>'
        || c == '<' || c == '!' || c == '(' || c == ')' || c == '{' || c == '}' || c == '['
        || c == ']' || c == '^' || c == '"' || c == '~' || c == '*' || c == '?' || c == ':'
}

/// `s` with a backslash before each special character (see [`ueg_special`]).
pub open spec fn ueg_escaped(s: Seq<char>) -> Seq<char>
    decreases s.len(),
{
    if s.len() == 0 {
        Seq::empty()
    } else {
        ueg_escaped(s.drop_last()) + if ueg_special(s.last()) {
            seq!['\\', s.last()]
        } else {
            seq![s.last()]
        }
    }
}

fn special_char(c: char) -> (r: bool)
    ensures
        r == ueg_special(c),
{
    is_ws_char(c) || c == '\\' || c == '+' || c == '-' || c == '=' || c == '&' || c == '|' || c
        == '>' || c == '<' || c == '!' || c == '(' || c == ')' || c == '{' || c == '}' || c == '['
        || c == ']' || c == '^' || c == '"' || c == '~' || c == '*' || c == '?' || c == ':'
}

/// Escapes `value` so that UEG reads it as literal text inside a glob.
pub fn escape_ueg_glob_literal(value: &str) -> (r: String)
    ensures
        r@ == ueg_escaped(value@),
{
    let v = to_chars(value);
    let mut out = String::new();
    let mut i: usize = 0;
    assert(out@ =~= ueg_escaped(v@.take(0)));
    while i < v.len()
        invariant
            i <= v@.len(),
            v@ == value@,
            out@ == ueg_escaped(v@.take(i as int)),
        decreases v@.len() - i,
    {
        let c = v[i];
        assert(v@.take(i + 1).drop_last() =~= v@.take(i as int));
        let ghost before = out@;
        if special_char(c) {
            push_char(&mut out, '\\');
        }
        push_char(&mut out, c);
        assert(out@ =~= ueg_escaped(v@.take(i + 1)));
        i += 1;
    }
    assert(v@.take(v@.len() as int) =~= v@);
    out
}

/// The entity query that `pup idp find` sends: a query that already names a
/// kind or ref is checked and kept; other text becomes a search of service
/// names that contain it literally.
pub open spec fn find_query_spec(query: Seq<char>) -> Result<Seq<char>, QErr> {
    let q = trim(query);
    if q.len() == 0 {
        Err(QErr::EmptySearch)
    } else if contains_str(q, "kind:"@) || contains_str(q, "ref:"@) {
        match scope_check(q) {
            Err(e) => Err(e),
            Ok(_) => Ok(q),
        }
    } else {
        Ok("kind:service AND name:*"@ + ueg_escaped(q) + "*"@)
    }
}

/// The entity query that `pup idp find` sends (see [`find_query_spec`]).
pub fn find_query(query: &str) -> (r: Result<String, QueryError>)
    ensures
        agrees(r, find_query_spec(query@), |s: String| s@),
{
    let q = trim_chars(&to_chars(query));
    if q.len() == 0 {
        return Err(QueryError::EmptySearch);
    }
    let qs = from_chars(&q);
    if contains_sub(&q, &to_chars("kind:")) || contains_sub(&q, &to_chars("ref:")) {
        match validate_query_scope(qs.as_str()) {
            Err(e) => {
                return Err(e);
            },
            Ok(_) => {},
        }
        return Ok(qs);
    }
    let escaped = escape_ueg_glob_literal(qs.as_str());
    Ok(concat3("kind:service AND name:*", escaped.as_str(), "*"))
}

/// A link of an entity's metadata.
pub struct LinkEntry {
    pub name: String,
    pub link_type: String,
    pub url: String,
}

/// Some link has type `t`.
pub open spec fn has_link(links: Seq<LinkEntry>, t: Seq<char>) -> bool {
    exists|i: int| 0 <= i < links.len() && (#[trigger] links[i]).link_type@ == t
}

/// Whether some link has type `link_type`.
pub fn has_link_type(links: &[LinkEntry], link_type: &str) -> (r: bool)
    ensures
        r == has_link(links@, link_type@),
{
    let mut i: usize = 0;
    while i < links.len()
        invariant
            i <= links@.len(),
            forall|j: int| 0 <= j < i ==> links@[j].link_type@ != link_type@,
        decreases links@.len() - i,
    {
        if str_eq(links[i].link_type.as_str(), link_type) {
            return true;
        }
        i += 1;
    }
    false
}

/// The metadata an entity lacks, in the order they are reported.
pub open spec fn metadata_gaps_spec(
    has_description: bool,
    has_lifecycle: bool,
    has_tier: bool,
    links: Seq<LinkEntry>,
) -> Seq<Seq<char>> {
    (if has_description {
        Seq::empty()
    } else {
        seq!["description not set"@]
    }) + (if has_lifecycle {
        Seq::empty()
    } else {
        seq!["lifecycle not set"@]
    }) + (if has_tier {
        Seq::empty()
    } else {
        seq!["tier not set"@]
    }) + (if has_link(links, "runbook"@) {
        Seq::empty()
    } else {
        seq!["no runbook link"@]
    }) + (if has_link(links, "doc"@) || has_link(links, "docs"@) {
        Seq::empty()
    } else {
        seq!["no documentation link"@]
    })
}

/// Each gap is reported exactly when its metadata is missing: a description, a
/// lifecycle, a tier, a link of type `runbook`, and a link of type `doc` or
/// `docs` (either counts as documentation).
pub proof fn law_gap_reported_exactly_when_missing(
    has_description: bool,
    has_lifecycle: bool,
    has_tier: bool,
    links: Seq<LinkEntry>,
)
    ensures
        ({
            let gaps = metadata_gaps_spec(has_description, has_lifecycle, has_tier, links);
            &&& gaps.contains("description not set"@) <==> !has_description
            &&& gaps.contains("lifecycle not set"@) <==> !has_lifecycle
            &&& gaps.contains("tier not set"@) <==> !has_tier
            &&& gaps.contains("no runbook link"@) <==> !has_link(links, "runbook"@)
            &&& gaps.contains("no documentation link"@) <==> !(has_link(links, "doc"@) || has_link(
                links,
                "docs"@,
            ))
        }),
{
    reveal_strlit("description not set");
    reveal_strlit("lifecycle not set");
    reveal_strlit("tier not set");
    reveal_strlit("no runbook link");
    reveal_strlit("no documentation link");
    assert("description not set"@.len() == 19);
    assert("lifecycle not set"@.len() == 17);
    assert("tier not set"@.len() == 12);
    assert("no runbook link"@.len() == 15);
    assert("no documentation link"@.len() == 21);
    let gaps = metadata_gaps_spec(has_description, has_lifecycle, has_tier, links);
    let t = seq!["description not set"@, "lifecycle not set"@, "tier not set"@, "no runbook link"@, "no documentation link"@];
    let present = seq![!has_description, !has_lifecycle, !has_tier, !has_link(links, "runbook"@), !(has_link(links, "doc"@) || has_link(links, "docs"@))];
    assert forall|k: int| 0 <= k < 5 implies (gaps.contains(#[trigger] t[k]) <==> present[k]) by {
        if present[k] {
            assert(gaps.contains(t[k])) by {
                let a = if has_description { Seq::<Seq<char>>::empty() } else { seq!["description not set"@] };
                let b = if has_lifecycle { Seq::<Seq<char>>::empty() } else { seq!["lifecycle not set"@] };
                let c = if has_tier { Seq::<Seq<char>>::empty() } else { seq!["tier not set"@] };
                let d = if has_link(links, "runbook"@) { Seq::<Seq<char>>::empty() } else { seq!["no runbook link"@] };
                let e = if has_link(links, "doc"@) || has_link(links, "docs"@) { Seq::<Seq<char>>::empty() } else { seq!["no documentation link"@] };
                assert(gaps == a + b + c + d + e);
                let idx = if k == 0 { 0 } else if k == 1 { a.len() as int } else if k == 2 { (a.len() + b.len()) as int } else if k == 3 { (a.len() + b.len() + c.len()) as int } else { (a.len() + b.len() + c.len() + d.len()) as int };
                assert(gaps[idx] == t[k]);
            }
        }
        if gaps.contains(t[k]) {
            let w = choose|w: int| 0 <= w < gaps.len() && gaps[w] == t[k];
            assert(gaps[w].len() == t[k].len());
        }
    }
    assert(t[0] == "description not set"@);
    assert(t[1] == "lifecycle not set"@);
    assert(t[2] == "tier not set"@);
    assert(t[3] == "no runbook link"@);
    assert(t[4] == "no documentation link"@);
}

fn push_if(out: &mut Vec<String>, missing: bool, text: &str)
    ensures
        views(final(out)@) == views(old(out)@) + if missing {
            seq![text@]
        } else {
            Seq::<Seq<char>>::empty()
        },
{
    let ghost before = views(out@);
    if missing {
        out.push(owned(text));
    }
    assert(views(out@) =~= before + if missing {
        seq![text@]
    } else {
        Seq::<Seq<char>>::empty()
    });
}

/// The metadata an entity lacks: description, lifecycle, tier, a runbook link
/// and a documentation (`doc` or `docs`) link.
pub fn compute_metadata_gaps(
    description: &Option<String>,
    lifecycle: &Option<String>,
    tier: &Option<String>,
    links: &[LinkEntry],
) -> (r: Vec<String>)
    ensures
        views(r@) == metadata_gaps_spec(
            description is Some,
            lifecycle is Some,
            tier is Some,
            links@,
        ),
{
    let mut gaps: Vec<String> = Vec::new();
    assert(views(gaps@) =~= Seq::<Seq<char>>::empty());
    push_if(&mut gaps, description.is_none(), "description not set");
    push_if(&mut gaps, lifecycle.is_none(), "lifecycle not set");
    push_if(&mut gaps, tier.is_none(), "tier not set");
    push_if(&mut gaps, !has_link_type(links, "runbook"), "no runbook link");
    let docs = has_link_type(links, "doc") || has_link_type(links, "docs");
    push_if(&mut gaps, !docs, "no documentation link");
    assert(Seq::<Seq<char>>::empty() + (if description is Some {
        Seq::<Seq<char>>::empty()
    } else {
        seq!["description not set"@]
    }) =~= (if description is Some {
        Seq::<Seq<char>>::empty()
    } else {
        seq!["description not set"@]
    }));
    gaps
}

/// The next steps suggested for an entity: investigate alerts when monitors
/// alert or incidents are active, review breached SLOs, fill the first three
/// metadata gaps, then look at dependencies and owners.
pub open spec fn next_actions_spec(
    name: Seq<char>,
    alerting: bool,
    breached: bool,
    gaps: Seq<Seq<char>>,
) -> Seq<Seq<char>> {
    (if alerting {
        seq![
            "Investigate active alerts: `pup monitors list --tag=\"service:"@ + name + "\"`"@,
        ]
    } else {
        Seq::empty()
    }) + (if breached {
        seq!["Review breached SLOs: `pup slos list` and filter for "@ + name]
    } else {
        Seq::empty()
    }) + (if gaps.len() > 0 {
        seq![
            "Fill metadata gaps: "@ + join(
                if gaps.len() > 3 {
                    gaps.take(3)
                } else {
                    gaps
                },
                ", "@,
            ),
        ]
    } else {
        Seq::empty()
    }) + seq![
        "View dependencies: `pup idp deps "@ + name + "`"@,
        "Get owner details: `pup idp owner "@ + name + "`"@,
    ]
}

/// The next steps suggested for an entity (see [`next_actions_spec`]); the
/// counts are those of alerting monitors, active incidents and breached SLOs.
pub fn compute_next_actions(
    entity_name: &str,
    alerting_monitors: i64,
    active_incidents: i64,
    breached_slos: i64,
    gaps: &Vec<String>,
) -> (r: Vec<String>)
    ensures
        views(r@) == next_actions_spec(
            entity_name@,
            alerting_monitors > 0 || active_incidents > 0,
            breached_slos > 0,
            views(gaps@),
        ),
{
    let mut actions: Vec<String> = Vec::new();
    let ghost p0 = views(actions@);
    if alerting_monitors > 0 || active_incidents > 0 {
        let head = concat3(
            "Investigate active alerts: `pup monitors list --tag=\"service:",
            entity_name,
            "\"`",
        );
        actions.push(head);
    }
    let ghost p1 = views(actions@);
    assert(p1 =~= p0 + if alerting_monitors > 0 || active_incidents > 0 {
        seq![
            "Investigate active alerts: `pup monitors list --tag=\"service:"@ + entity_name@
                + "\"`"@,
        ]
    } else {
        Seq::<Seq<char>>::empty()
    });
    if breached_slos > 0 {
        actions.push(concat2("Review breached SLOs: `pup slos list` and filter for ", entity_name));
    }
    let ghost p2 = views(actions@);
    assert(p2 =~= p1 + if breached_slos > 0 {
        seq!["Review breached SLOs: `pup slos list` and filter for "@ + entity_name@]
    } else {
        Seq::<Seq<char>>::empty()
    });
    if gaps.len() > 0 {
        let mut first: Vec<String> = Vec::new();
        let mut i: usize = 0;
        while i < gaps.len() && i < 3
            invariant
                i <= gaps@.len(),
                i <= 3,
                views(first@) == views(gaps@).take(i as int),
            decreases 3 - i,
        {
            let ghost before = views(first@);
            first.push(gaps[i].clone());
            assert(views(first@) =~= before.push(gaps@[i as int]@));
            assert(views(gaps@).take(i + 1) =~= views(gaps@).take(i as int).push(gaps@[i as int]@));
            i += 1;
        }
        assert(views(first@) =~= if gaps@.len() > 3 {
            views(gaps@).take(3)
        } else {
            views(gaps@)
        });
        let list = join_strings(&first, ", ");
        actions.push(concat2("Fill metadata gaps: ", list.as_str()));
    }
    let ghost p3 = views(actions@);
    actions.push(concat3("View dependencies: `pup idp deps ", entity_name, "`"));
    actions.push(concat3("Get owner details: `pup idp owner ", entity_name, "`"));
    assert(views(actions@) =~= next_actions_spec(
        entity_name@,
        alerting_monitors > 0 || active_incidents > 0,
        breached_slos > 0,
        views(gaps@),
    ));
    actions
}

/// The service names among related entities: the ids of those of kind
/// `service`, without a leading `ref:service:`.
pub open spec fn service_ids(ids: Seq<(String, String)>) -> Seq<Seq<char>>
    decreases ids.len(),
{
    if ids.len() == 0 {
        Seq::empty()
    } else {
        let p = service_ids(ids.drop_last());
        let (kind, id) = ids.last();
        if kind@ == "service"@ {
            p.push(
                if starts_with(id@, "ref:service:"@) {
                    id@.skip(12)
                } else {
                    id@
                },
            )
        } else {
            p
        }
    }
}

/// The service names of related entities (kind, id), sorted and without repeats
/// (see [`service_ids`]).
pub fn service_names(identifiers: &Vec<(String, String)>) -> (r: Vec<String>)
    ensures
        sorted_set_of(views(r@), service_ids(identifiers@)),
{
    let mut names: Vec<String> = Vec::new();
    let mut i: usize = 0;
    let prefix = to_chars("ref:service:");
    proof {
        reveal_strlit("ref:service:");
    }
    while i < identifiers.len()
        invariant
            i <= identifiers@.len(),
            prefix@ == "ref:service:"@,
            prefix@.len() == 12,
            views(names@) == service_ids(identifiers@.take(i as int)),
        decreases identifiers@.len() - i,
    {
        assert(identifiers@.take(i + 1).drop_last() =~= identifiers@.take(i as int));
        assert(identifiers@.take(i + 1).last() == identifiers@[i as int]);
        if str_eq(identifiers[i].0.as_str(), "service") {
            let id = to_chars(identifiers[i].1.as_str());
            let name = if starts_with_chars(&id, &prefix) {
                let mut rest: Vec<char> = Vec::new();
                let mut j: usize = 12;
                while j < id.len()
                    invariant
                        12 <= j <= id@.len(),
                        rest@ == id@.subrange(12, j as int),
                    decreases id@.len() - j,
                {
                    rest.push(id[j]);
                    assert(rest@ =~= id@.subrange(12, j + 1));
                    j += 1;
                }
                assert(rest@ =~= id@.skip(12));
                from_chars(&rest)
            } else {
                from_chars(&id)
            };
            let ghost before = views(names@);
            names.push(name);
            assert(views(names@) =~= before.push(name@));
        }
        i += 1;
    }
    assert(identifiers@.take(identifiers@.len() as int) =~= identifiers@);
    sorted_unique(&names)
}

} // verus!
