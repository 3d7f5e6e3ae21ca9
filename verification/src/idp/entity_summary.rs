//! `pup idp entities facets` and `aggregate`: validation of their options, the
//! request each one sends, the reading of the summary returned, and what is shown of it.
use vstd::prelude::*;

use crate::idp::entity_query::{
    agrees, clean, limit_check, normalize_order_by, order_all, scope_check, validate_limit,
    validate_query_scope, views, QErr, QueryError, MAX_PAGE_LIMIT,
};
use crate::text::{
    concat2, is_ascii_alnum, join, join_strings, owned, split_once, split_once_chars, to_chars,
    trim, trim_chars, trim_str, usize_to_string, decimal, from_chars,
};

use crate::json::{
    copy_json, entry_get, jentries, jv, jvs, obj_insert, vget, Json, JsonV, vinsert,
};
use crate::idp::migrate::entries_get;

verus! {

/// The two summary commands.
#[derive(Clone, Copy, Debug, PartialEq, Eq)]
pub enum SummaryCommand {
    Facets,
    Aggregate,
}

impl SummaryCommand {
    /// The command line that the output metadata names.
    pub fn name(self) -> (r: &'static str)
        ensures
            r@ == match self {
                SummaryCommand::Facets => "pup idp entities facets"@,
                SummaryCommand::Aggregate => "pup idp entities aggregate"@,
            },
    {
        match self {
            SummaryCommand::Facets => "pup idp entities facets",
            SummaryCommand::Aggregate => "pup idp entities aggregate",
        }
    }
}

/// Options of `pup idp entities aggregate`.
pub struct EntityAggregateOptions {
    pub query: String,
    pub group_by: Vec<String>,
    pub counts: Vec<String>,
    pub order_by: Vec<String>,
    pub limit: usize,
    pub cursor: Option<String>,
    pub raw: bool,
}

/// The names given, trimmed, first occurrences only; a blank name is refused.
pub open spec fn names_fold(names: Seq<Seq<char>>, flag: Seq<char>) -> Result<Seq<Seq<char>>, QErr>
    decreases names.len(),
{
    if names.len() == 0 {
        Ok(Seq::empty())
    } else {
        match names_fold(names.drop_last(), flag) {
            Err(e) => Err(e),
            Ok(acc) => {
                let n = trim(names.last());
                if n.len() == 0 {
                    Err(QErr::EmptyName(flag))
                } else if acc.contains(n) {
                    Ok(acc)
                } else {
                    Ok(acc.push(n))
                }
            },
        }
    }
}

/// The names given to `--<flag>` (see [`names_fold`]); at least one is needed.
pub open spec fn required_names_spec(names: Seq<Seq<char>>, flag: Seq<char>) -> Result<
    Seq<Seq<char>>,
    QErr,
> {
    match names_fold(names, flag) {
        Err(e) => Err(e),
        Ok(acc) => if acc.len() == 0 {
            Err(QErr::NoNames(flag))
        } else {
            Ok(acc)
        },
    }
}

fn contains_name(v: &Vec<String>, n: &[char]) -> (r: bool)
    ensures
        r == views(v@).contains(n@),
{
    let mut i: usize = 0;
    while i < v.len()
        invariant
            i <= v@.len(),
            forall|j: int| 0 <= j < i ==> v@[j]@ != n@,
        decreases v@.len() - i,
    {
        let c = to_chars(v[i].as_str());
        if crate::text::chars_eq(&c, n) {
            assert(views(v@)[i as int] == n@);
            return true;
        }
        i += 1;
    }
    assert forall|j: int| 0 <= j < views(v@).len() implies views(v@)[j] != n@ by {
        assert(views(v@)[j] == v@[j]@);
    }
    false
}

proof fn lemma_names_fold_err(names: Seq<Seq<char>>, flag: Seq<char>, i: int)
    requires
        0 <= i < names.len(),
        names_fold(names.take(i + 1), flag) is Err,
    ensures
        names_fold(names, flag) == names_fold(names.take(i + 1), flag),
    decreases names.len(),
{
    if names.len() == i + 1 {
        assert(names.take(i + 1) =~= names);
    } else {
        assert(names.drop_last().take(i + 1) =~= names.take(i + 1));
        lemma_names_fold_err(names.drop_last(), flag, i);
    }
}

/// The names given to `--<flag>` (see [`required_names_spec`]).
pub fn required_names(names: Vec<String>, flag: &str) -> (r: Result<Vec<String>, QueryError>)
    ensures
        agrees(r, required_names_spec(views(names@), flag@), |v: Vec<String>| views(v@)),
{
    let ghost w = views(names@);
    let mut result: Vec<String> = Vec::new();
    let mut i: usize = 0;
    assert(w.take(0) =~= Seq::<Seq<char>>::empty());
    assert(views(result@) =~= Seq::<Seq<char>>::empty());
    while i < names.len()
        invariant
            i <= names@.len(),
            w == views(names@),
            names_fold(w.take(i as int), flag@) == Ok::<Seq<Seq<char>>, QErr>(views(result@)),
        decreases names@.len() - i,
    {
        assert(w.take(i + 1).drop_last() =~= w.take(i as int));
        assert(w.take(i + 1).last() == names@[i as int]@);
        let n = trim_chars(&to_chars(names[i].as_str()));
        if n.len() == 0 {
            proof {
                lemma_names_fold_err(w, flag@, i as int);
                assert(w.take(names@.len() as int) =~= w);
            }
            return Err(QueryError::EmptyName(owned(flag)));
        }
        if !contains_name(&result, &n) {
            let ghost before = views(result@);
            result.push(from_chars(&n));
            assert(views(result@) =~= before.push(n@));
        }
        i += 1;
    }
    assert(w.take(names@.len() as int) =~= w);
    if result.len() == 0 {
        return Err(QueryError::NoNames(owned(flag)));
    }
    Ok(result)
}

/// A count name: nonempty ASCII letters, digits and `_`.
pub open spec fn count_name_ok(n: Seq<char>) -> bool {
    n.len() > 0 && forall|i: int| 0 <= i < n.len() ==> is_ascii_alnum(#[trigger] n[i]) || n[i] == '_'
}

/// One `--count <name>=<filter>`: its trimmed name and filter.
pub open spec fn count_metric(c: Seq<char>) -> Result<(Seq<char>, Seq<char>), QErr> {
    match split_once(c, '=') {
        None => Err(QErr::CountSyntax(c)),
        Some((n, f)) => if count_name_ok(trim(n)) && trim(f).len() > 0 {
            Ok((trim(n), trim(f)))
        } else {
            Err(QErr::InvalidCount(c))
        },
    }
}

/// The named counts in order, refusing a name used twice or the built-in `count`.
pub open spec fn metrics_fold(counts: Seq<Seq<char>>) -> Result<Seq<(Seq<char>, Seq<char>)>, QErr>
    decreases counts.len(),
{
    if counts.len() == 0 {
        Ok(Seq::empty())
    } else {
        match metrics_fold(counts.drop_last()) {
            Err(e) => Err(e),
            Ok(acc) => match count_metric(counts.last()) {
                Err(e) => Err(e),
                Ok((n, f)) => if n == "count"@ || exists|j: int|
                    0 <= j < acc.len() && (#[trigger] acc[j]).0 == n {
                    Err(QErr::DuplicateCount(n))
                } else {
                    Ok(acc.push((n, f)))
                },
            },
        }
    }
}

fn name_char(c: char) -> (r: bool)
    ensures
        r == (is_ascii_alnum(c) || c == '_'),
{
    ('0' <= c && c <= '9') || ('a' <= c && c <= 'z') || ('A' <= c && c <= 'Z') || c == '_'
}

fn parse_count(c: &String) -> (r: Result<(Vec<char>, Vec<char>), QueryError>)
    ensures
        match count_metric(c@) {
            Ok((n, f)) => r matches Ok((a, b)) && a@ == n && b@ == f,
            Err(e) => r matches Err(x) && x@ == e,
        },
{
    let v = to_chars(c.as_str());
    let (name, filter) = match split_once_chars(&v, '=') {
        None => {
            return Err(QueryError::CountSyntax(c.clone()));
        },
        Some(p) => p,
    };
    let n = trim_chars(&name);
    let f = trim_chars(&filter);
    let mut ok = n.len() > 0 && f.len() > 0;
    let mut i: usize = 0;
    while i < n.len()
        invariant
            i <= n@.len(),
            ok ==> n@.len() > 0 && f@.len() > 0,
            ok ==> forall|j: int| 0 <= j < i ==> is_ascii_alnum(#[trigger] n@[j]) || n@[j] == '_',
            !ok ==> !(count_name_ok(n@) && f@.len() > 0),
        decreases n@.len() - i,
    {
        if !name_char(n[i]) {
            ok = false;
        }
        i += 1;
    }
    if ok {
        Ok((n, f))
    } else {
        Err(QueryError::InvalidCount(c.clone()))
    }
}

/// The `metrics` of an aggregate request: the built-in total and the named counts.
pub struct Metric {
    pub name: String,
    pub func: String,
    pub filter: String,
}

/// The attributes of an aggregate request.
pub struct AggregateAttributes {
    pub query: String,
    pub group_by: Vec<String>,
    pub metrics: Vec<Metric>,
    pub order_by: Vec<String>,
    pub limit: usize,
    pub cursor: String,
}

/// The metrics as (name, function, filter) triples.
pub open spec fn metric_views(m: Seq<Metric>) -> Seq<(Seq<char>, Seq<char>, Seq<char>)> {
    m.map_values(|x: Metric| (x.name@, x.func@, x.filter@))
}

/// The attributes as character sequences.
pub struct AggregateView {
    pub query: Seq<char>,
    pub group_by: Seq<Seq<char>>,
    pub metrics: Seq<(Seq<char>, Seq<char>, Seq<char>)>,
    pub order_by: Seq<Seq<char>>,
    pub limit: usize,
    pub cursor: Seq<char>,
}

/// The attributes as character sequences.
pub open spec fn aggregate_view(a: AggregateAttributes) -> AggregateView {
    AggregateView {
        query: a.query@,
        group_by: views(a.group_by@),
        metrics: metric_views(a.metrics@),
        order_by: views(a.order_by@),
        limit: a.limit,
        cursor: a.cursor@,
    }
}

/// The attributes of the aggregate request for `o`, or why it is refused: the
/// query must name one kind, the page size lie in range, at least one group be
/// given, the ordering be well formed and each count be named uniquely.
pub open spec fn aggregate_spec(o: EntityAggregateOptions) -> Result<AggregateView, QErr> {
    match scope_check(o.query@) {
        Err(e) => Err(e),
        Ok(_) => match limit_check("limit"@, o.limit, MAX_PAGE_LIMIT) {
            Err(e) => Err(e),
            Ok(_) => match required_names_spec(views(o.group_by@), "group-by"@) {
                Err(e) => Err(e),
                Ok(group_by) => match order_all(clean(views(o.order_by@))) {
                    Err(e) => Err(e),
                    Ok(order_by) => match metrics_fold(views(o.counts@)) {
                        Err(e) => Err(e),
                        Ok(named) => Ok(
                            AggregateView {
                                query: trim(o.query@),
                                group_by,
                                metrics: seq![("count"@, "count"@, "*"@)] + named.map_values(
                                    |p: (Seq<char>, Seq<char>)| (p.0, "count"@, p.1),
                                ),
                                order_by,
                                limit: o.limit,
                                cursor: match o.cursor {
                                    Some(c) => c@,
                                    None => Seq::empty(),
                                },
                            },
                        ),
                    },
                },
            },
        },
    }
}

fn copy_strings(v: &Vec<String>) -> (r: Vec<String>)
    ensures
        views(r@) == views(v@),
{
    let mut r: Vec<String> = Vec::new();
    let mut i: usize = 0;
    while i < v.len()
        invariant
            i <= v@.len(),
            views(r@) == views(v@).take(i as int),
        decreases v@.len() - i,
    {
        let ghost before = views(r@);
        r.push(v[i].clone());
        assert(views(r@) =~= before.push(v@[i as int]@));
        assert(views(v@).take(i + 1) =~= views(v@).take(i as int).push(v@[i as int]@));
        i += 1;
    }
    assert(views(v@).take(v@.len() as int) =~= views(v@));
    r
}

proof fn lemma_metrics_fold_err(counts: Seq<Seq<char>>, i: int)
    requires
        0 <= i < counts.len(),
        metrics_fold(counts.take(i + 1)) is Err,
    ensures
        metrics_fold(counts) == metrics_fold(counts.take(i + 1)),
    decreases counts.len(),
{
    if counts.len() == i + 1 {
        assert(counts.take(i + 1) =~= counts);
    } else {
        assert(counts.drop_last().take(i + 1) =~= counts.take(i + 1));
        lemma_metrics_fold_err(counts.drop_last(), i);
    }
}

fn build_metrics(counts: &Vec<String>) -> (r: Result<Vec<Metric>, QueryError>)
    ensures
        match metrics_fold(views(counts@)) {
            Ok(named) => r matches Ok(m) && metric_views(m@) == seq![("count"@, "count"@, "*"@)]
                + named.map_values(|p: (Seq<char>, Seq<char>)| (p.0, "count"@, p.1)),
            Err(e) => r matches Err(x) && x@ == e,
        },
{
    let ghost w = views(counts@);
    let mut metrics: Vec<Metric> = Vec::new();
    metrics.push(Metric { name: owned("count"), func: owned("count"), filter: owned("*") });
    let mut names: Vec<String> = Vec::new();
    names.push(owned("count"));
    let ghost head = seq![("count"@, "count"@, "*"@)];
    assert(metric_views(metrics@) =~= head);
    assert(w.take(0) =~= Seq::<Seq<char>>::empty());
    let mut i: usize = 0;
    while i < counts.len()
        invariant
            i <= counts@.len(),
            w == views(counts@),
            head == seq![("count"@, "count"@, "*"@)],
            metrics_fold(w.take(i as int)) matches Ok(acc) && metric_views(metrics@) == head
                + acc.map_values(|p: (Seq<char>, Seq<char>)| (p.0, "count"@, p.1)) && views(names@)
                == seq!["count"@] + acc.map_values(|p: (Seq<char>, Seq<char>)| p.0),
        decreases counts@.len() - i,
    {
        let ghost acc = metrics_fold(w.take(i as int))->Ok_0;
        assert(w.take(i + 1).drop_last() =~= w.take(i as int));
        assert(w.take(i + 1).last() == counts@[i as int]@);
        match parse_count(&counts[i]) {
            Err(e) => {
                proof {
                    lemma_metrics_fold_err(w, i as int);
                    assert(w.take(counts@.len() as int) =~= w);
                }
                return Err(e);
            },
            Ok((n, f)) => {
                if contains_name(&names, &n) {
                    proof {
                        let k = choose|k: int| 0 <= k < views(names@).len() && views(names@)[k] == n@;
                        if k > 0 {
                            assert(acc[k - 1].0 == n@);
                        }
                        lemma_metrics_fold_err(w, i as int);
                        assert(w.take(counts@.len() as int) =~= w);
                    }
                    return Err(QueryError::DuplicateCount(from_chars(&n)));
                }
                proof {
                    if n@ == "count"@ {
                        assert(views(names@)[0] == n@);
                    }
                    assert forall|j: int| 0 <= j < acc.len() implies (#[trigger] acc[j]).0 != n@ by {
                        assert(views(names@)[j + 1] == acc[j].0);
                    }
                }
                let name = from_chars(&n);
                let filter = from_chars(&f);
                let ghost mb = metric_views(metrics@);
                let ghost nb = views(names@);
                names.push(from_chars(&n));
                metrics.push(Metric { name, func: owned("count"), filter });
                proof {
                    let acc2 = acc.push((n@, f@));
                    assert(metric_views(metrics@) =~= mb.push((n@, "count"@, f@)));
                    assert(views(names@) =~= nb.push(n@));
                    assert(acc2.map_values(|p: (Seq<char>, Seq<char>)| (p.0, "count"@, p.1))
                        =~= acc.map_values(|p: (Seq<char>, Seq<char>)| (p.0, "count"@, p.1)).push(
                        (n@, "count"@, f@),
                    ));
                    assert(acc2.map_values(|p: (Seq<char>, Seq<char>)| p.0) =~= acc.map_values(
                        |p: (Seq<char>, Seq<char>)| p.0,
                    ).push(n@));
                    assert(metrics_fold(w.take(i + 1)) == Ok::<
                        Seq<(Seq<char>, Seq<char>)>,
                        QErr,
                    >(acc2));
                    assert(metric_views(metrics@) =~= head + acc2.map_values(
                        |p: (Seq<char>, Seq<char>)| (p.0, "count"@, p.1),
                    ));
                    assert(views(names@) =~= seq!["count"@] + acc2.map_values(
                        |p: (Seq<char>, Seq<char>)| p.0,
                    ));
                }
            },
        }
        i += 1;
    }
    assert(w.take(counts@.len() as int) =~= w);
    Ok(metrics)
}

/// Validates the options of `pup idp entities aggregate` and builds the request
/// attributes (see [`aggregate_spec`]).
pub fn aggregate_attributes(options: &EntityAggregateOptions) -> (r: Result<
    AggregateAttributes,
    QueryError,
>)
    ensures
        agrees(r, aggregate_spec(*options), |a: AggregateAttributes| aggregate_view(a)),
{
    match validate_query_scope(options.query.as_str()) {
        Err(e) => {
            return Err(e);
        },
        Ok(_) => {},
    }
    match validate_limit("limit", options.limit, MAX_PAGE_LIMIT) {
        Err(e) => {
            return Err(e);
        },
        Ok(_) => {},
    }
    let group_by = match required_names(copy_strings(&options.group_by), "group-by") {
        Err(e) => {
            return Err(e);
        },
        Ok(g) => g,
    };
    let order_by = match normalize_order_by(copy_strings(&options.order_by)) {
        Err(e) => {
            return Err(e);
        },
        Ok(o) => o,
    };
    let metrics = match build_metrics(&options.counts) {
        Err(e) => {
            return Err(e);
        },
        Ok(m) => m,
    };
    let cursor = match &options.cursor {
        Some(c) => c.clone(),
        None => {
            let e = String::new();
            assert(e@ =~= Seq::<char>::empty());
            e
        },
    };
    Ok(
        AggregateAttributes {
            query: trim_str(options.query.as_str()),
            group_by,
            metrics,
            order_by,
            limit: options.limit,
            cursor,
        },
    )
}

/// The query parameters of a facets request, or why it is refused.
pub open spec fn facet_params_spec(
    query: Seq<char>,
    fields: Seq<Seq<char>>,
    limit: usize,
    cursor: Option<Seq<char>>,
) -> Result<Seq<(Seq<char>, Seq<char>)>, QErr> {
    match scope_check(query) {
        Err(e) => Err(e),
        Ok(_) => match limit_check("limit"@, limit, MAX_PAGE_LIMIT) {
            Err(e) => Err(e),
            Ok(_) => match required_names_spec(fields, "facet"@) {
                Err(e) => Err(e),
                Ok(names) => Ok(
                    seq![
                        ("query"@, query),
                        ("facets"@, join(names, ","@)),
                        ("page[limit]"@, decimal(limit as int)),
                    ] + match cursor {
                        Some(c) => if trim(c).len() > 0 {
                            seq![("page[cursor]"@, c)]
                        } else {
                            Seq::empty()
                        },
                        None => Seq::empty(),
                    },
                ),
            },
        },
    }
}

/// Validates a facets request and builds its query parameters (see
/// [`facet_params_spec`]).
pub fn facet_params(query: &str, fields: Vec<String>, limit: usize, cursor: Option<String>) -> (r:
    Result<Vec<(String, String)>, QueryError>)
    ensures
        agrees(
            r,
            facet_params_spec(
                query@,
                views(fields@),
                limit,
                match cursor {
                    Some(c) => Some(c@),
                    None => None,
                },
            ),
            |p: Vec<(String, String)>| p@.map_values(|e: (String, String)| (e.0@, e.1@)),
        ),
{
    match validate_query_scope(query) {
        Err(e) => {
            return Err(e);
        },
        Ok(_) => {},
    }
    match validate_limit("limit", limit, MAX_PAGE_LIMIT) {
        Err(e) => {
            return Err(e);
        },
        Ok(_) => {},
    }
    let names = match required_names(fields, "facet") {
        Err(e) => {
            return Err(e);
        },
        Ok(n) => n,
    };
    let mut params: Vec<(String, String)> = Vec::new();
    params.push((owned("query"), owned(query)));
    params.push((owned("facets"), join_strings(&names, ",")));
    params.push((owned("page[limit]"), usize_to_string(limit)));
    let ghost base = params@.map_values(|e: (String, String)| (e.0@, e.1@));
    match &cursor {
        Some(c) => {
            let t = trim_chars(&to_chars(c.as_str()));
            if t.len() > 0 {
                params.push((owned("page[cursor]"), c.clone()));
                assert(params@.map_values(|e: (String, String)| (e.0@, e.1@)) =~= base.push(
                    ("page[cursor]"@, c@),
                ));
            }
        },
        None => {},
    }
    assert(params@.map_values(|e: (String, String)| (e.0@, e.1@)) =~= facet_params_spec(
        query@,
        views(fields@),
        limit,
        match cursor {
            Some(c) => Some(c@),
            None => None,
        },
    )->Ok_0);
    Ok(params)
}

/// The paging metadata of a summary response: the number of resources it holds,
/// whether a next page exists (a nonempty cursor) and the hint to fetch it.
pub fn response_metadata(data_len: Option<usize>, next_cursor: Option<String>) -> (r: (
    Option<usize>,
    bool,
    Option<String>,
))
    ensures
        r.0 == data_len,
        r.1 == (next_cursor matches Some(c) && c@.len() > 0),
        match r.2 {
            Some(hint) => next_cursor matches Some(c) && c@.len() > 0 && hint@
                == "Fetch the next page with --cursor "@ + c@,
            None => !(next_cursor matches Some(c) && c@.len() > 0),
        },
{
    match next_cursor {
        Some(c) => {
            if to_chars(c.as_str()).len() > 0 {
                let hint = concat2("Fetch the next page with --cursor ", c.as_str());
                (data_len, true, Some(hint))
            } else {
                (data_len, false, None)
            }
        },
        None => (data_len, false, None),
    }
}

/// The attributes of each resource of a summary response: `data` must be a
/// list of resources, each with an `attributes` object.
pub open spec fn summary_results(response: JsonV) -> Option<Seq<Seq<(Seq<char>, JsonV)>>> {
    match vget(response, "data"@) {
        Some(JsonV::Array(items)) => attributes_all(items),
        _ => None,
    }
}

/// The `attributes` object of every item, or nothing when one lacks it.
pub open spec fn attributes_all(items: Seq<JsonV>) -> Option<Seq<Seq<(Seq<char>, JsonV)>>>
    decreases items.len(),
{
    if items.len() == 0 {
        Some(Seq::empty())
    } else {
        match (attributes_all(items.drop_last()), vget(items.last(), "attributes"@)) {
            (Some(p), Some(JsonV::Object(a))) => Some(p.push(a)),
            _ => None,
        }
    }
}

/// A facet with its values cut to `limit`, and how many were returned and
/// whether some were left out recorded beside them; nothing when it has no
/// list of values.
pub open spec fn limited_facet(facet: Seq<(Seq<char>, JsonV)>, limit: usize) -> Option<(Seq<(Seq<char>, JsonV)>, bool)> {
    match entry_get(facet, "values"@) {
        Some(JsonV::Array(values)) => {
            let n = values.len();
            let kept = if n > limit {
                values.take(limit as int)
            } else {
                values
            };
            let f1 = vinsert(facet, "values"@, JsonV::Array(kept));
            let f2 = vinsert(f1, "values_returned"@, JsonV::Number(decimal(n as int)));
            Some((vinsert(f2, "values_truncated"@, JsonV::Bool(n > limit)), n > limit))
        },
        _ => None,
    }
}

/// Every facet limited (see [`limited_facet`]), and whether any was sampled;
/// nothing when one has no list of values.
pub open spec fn limited_facets(facets: Seq<Seq<(Seq<char>, JsonV)>>, limit: usize) -> Option<(Seq<Seq<(Seq<char>, JsonV)>>, bool)>
    decreases facets.len(),
{
    if facets.len() == 0 {
        Some((Seq::empty(), false))
    } else {
        match (limited_facets(facets.drop_last(), limit), limited_facet(facets.last(), limit)) {
            (Some((p, s)), Some((f, t))) => Some((p.push(f), s || t)),
            _ => None,
        }
    }
}

/// The results of a summary response and whether facet values were sampled:
/// the attributes of its resources, with each facet's values limited for
/// `facets`; the decoding error otherwise.
pub open spec fn summary_of(response: JsonV, limit: usize, facets: bool) -> Result<(Seq<Seq<(Seq<char>, JsonV)>>, bool), Seq<char>> {
    match summary_results(response) {
        None => Err("failed to decode entity summary response"@),
        Some(results) => if facets {
            match limited_facets(results, limit) {
                Some(x) => Ok(x),
                None => Err("failed to decode entity facet response: expected a values array"@),
            }
        } else {
            Ok((results, false))
        },
    }
}

/// The hint given when facet values were sampled.
pub open spec fn sampled_hint() -> Seq<char> {
    "Facet values were sampled locally because the API returned more than --limit. Use --raw for all returned values, or aggregate --group-by <field> for pageable counts; a cursor does not recover locally omitted values."@
}

pub open spec fn entry_lists(v: Seq<Vec<(String, Json)>>) -> Seq<Seq<(Seq<char>, JsonV)>> {
    Seq::new(v.len(), |i: int| jentries(v[i]@))
}

fn limit_facet(facet: &Vec<(String, Json)>, limit: usize) -> (r: Option<(Vec<(String, Json)>, bool)>)
    ensures
        match r {
            Some((f, t)) => limited_facet(jentries(facet@), limit) == Some((jentries(f@), t)),
            None => limited_facet(jentries(facet@), limit) is None,
        },
{
    let values = match entries_get(facet, "values") {
        Some(v) => match v {
            Json::Array(vs) => {
                assert(jv(*v)->Array_0 =~= jvs(vs@));
                vs
            },
            _ => {
                return None;
            },
        },
        None => {
            return None;
        },
    };
    let n = values.len();
    let kept = first_values(values, limit);
    let mut f = crate::idp::entities::copy_entries(facet);
    obj_insert(&mut f, owned("values"), crate::json::jarr(kept));
    obj_insert(&mut f, owned("values_returned"), Json::Number(usize_to_string(n)));
    obj_insert(&mut f, owned("values_truncated"), Json::Bool(n > limit));
    Some((f, n > limit))
}

fn first_values(values: &Vec<Json>, limit: usize) -> (r: Vec<Json>)
    ensures
        jvs(r@) == if values@.len() > limit {
            jvs(values@).take(limit as int)
        } else {
            jvs(values@)
        },
{
    let n = values.len();
    let m = if n > limit {
        limit
    } else {
        n
    };
    let mut kept: Vec<Json> = Vec::new();
    let mut i: usize = 0;
    while i < m
        invariant
            i <= m <= values@.len(),
            jvs(kept@) == jvs(values@).take(i as int),
        decreases m - i,
    {
        let ghost before = jvs(kept@);
        let c = copy_json(&values[i]);
        let ghost cv = jv(c);
        kept.push(c);
        assert(jvs(kept@) =~= before.push(cv));
        assert(jvs(values@).take(i + 1) =~= jvs(values@).take(i as int).push(jv(values@[i as int])));
        i += 1;
    }
    assert(jvs(kept@) =~= if n > limit {
        jvs(values@).take(limit as int)
    } else {
        jvs(values@)
    });
    kept
}

/// The results of a summary response (see [`summary_of`]).
pub fn summarize_response(response: &Json, limit: usize, facets: bool) -> (r: Result<(Vec<Vec<(String, Json)>>, bool), String>)
    ensures
        match r {
            Ok((results, sampled)) => summary_of(jv(*response), limit, facets) == Ok::<
                (Seq<Seq<(Seq<char>, JsonV)>>, bool),
                Seq<char>,
            >((entry_lists(results@), sampled)),
            Err(e) => summary_of(jv(*response), limit, facets) == Err::<
                (Seq<Seq<(Seq<char>, JsonV)>>, bool),
                Seq<char>,
            >(e@),
        },
{
    let items = match crate::json::get(response, "data") {
        Some(d) => match d {
            Json::Array(items) => {
                assert(jv(*d)->Array_0 =~= jvs(items@));
                items
            },
            _ => {
                return Err(owned("failed to decode entity summary response"));
            },
        },
        None => {
            return Err(owned("failed to decode entity summary response"));
        },
    };
    let ghost iv = jvs(items@);
    let mut results: Vec<Vec<(String, Json)>> = Vec::new();
    let mut i: usize = 0;
    assert(iv.take(0) =~= Seq::<JsonV>::empty());
    assert(entry_lists(results@) =~= Seq::<Seq<(Seq<char>, JsonV)>>::empty());
    while i < items.len()
        invariant
            i <= items@.len(),
            iv == jvs(items@),
            vget(jv(*response), "data"@) == Some(JsonV::Array(iv)),
            attributes_all(iv.take(i as int)) == Some(entry_lists(results@)),
        decreases items@.len() - i,
    {
        assert(iv.take(i + 1).drop_last() =~= iv.take(i as int));
        assert(iv.take(i + 1).last() == jv(items@[i as int]));
        match crate::json::get(&items[i], "attributes") {
            Some(a) => match a {
                Json::Object(_) => {
                    let es = match copy_json(a) {
                        Json::Object(es) => es,
                        _ => Vec::new(),
                    };
                    let ghost before = entry_lists(results@);
                    let ghost ev = jentries(es@);
                    assert(jv(*a)->Object_0 =~= ev);
                    results.push(es);
                    assert(entry_lists(results@) =~= before.push(ev));
                },
                _ => {
                    proof {
                        lemma_attributes_fail(iv, i as int + 1);
                    }
                    assert(summary_results(jv(*response)) is None);
                    return Err(owned("failed to decode entity summary response"));
                },
            },
            None => {
                proof {
                    lemma_attributes_fail(iv, i as int + 1);
                }
                assert(summary_results(jv(*response)) is None);
                return Err(owned("failed to decode entity summary response"));
            },
        }
        i += 1;
    }
    assert(iv.take(items@.len() as int) =~= iv);
    assert(summary_results(jv(*response)) == Some(entry_lists(results@)));
    if !facets {
        return Ok((results, false));
    }
    let ghost rv = entry_lists(results@);
    let mut out: Vec<Vec<(String, Json)>> = Vec::new();
    let mut sampled = false;
    let mut k: usize = 0;
    assert(rv.take(0) =~= Seq::<Seq<(Seq<char>, JsonV)>>::empty());
    assert(entry_lists(out@) =~= Seq::<Seq<(Seq<char>, JsonV)>>::empty());
    while k < results.len()
        invariant
            k <= results@.len(),
            rv == entry_lists(results@),
            facets,
            summary_results(jv(*response)) == Some(rv),
            limited_facets(rv.take(k as int), limit) == Some((entry_lists(out@), sampled)),
        decreases results@.len() - k,
    {
        assert(rv.take(k + 1).drop_last() =~= rv.take(k as int));
        assert(rv.take(k + 1).last() == jentries(results@[k as int]@));
        match limit_facet(&results[k], limit) {
            Some((f, t)) => {
                let ghost before = entry_lists(out@);
                let ghost fv = jentries(f@);
                out.push(f);
                sampled = sampled || t;
                assert(entry_lists(out@) =~= before.push(fv));
            },
            None => {
                proof {
                    lemma_facets_fail(rv, k as int + 1, limit);
                }
                assert(summary_results(jv(*response)) == Some(rv));
                return Err(owned("failed to decode entity facet response: expected a values array"));
            },
        }
        k += 1;
    }
    assert(rv.take(results@.len() as int) =~= rv);
    Ok((out, sampled))
}

proof fn lemma_attributes_fail(items: Seq<JsonV>, n: int)
    requires
        0 < n <= items.len(),
        attributes_all(items.take(n)) is None,
    ensures
        attributes_all(items) is None,
    decreases items.len() - n,
{
    if n < items.len() {
        assert(items.take(n + 1).drop_last() =~= items.take(n));
        lemma_attributes_fail(items, n + 1);
    } else {
        assert(items.take(n) =~= items);
    }
}

proof fn lemma_facets_fail(facets: Seq<Seq<(Seq<char>, JsonV)>>, n: int, limit: usize)
    requires
        0 < n <= facets.len(),
        limited_facets(facets.take(n), limit) is None,
    ensures
        limited_facets(facets, limit) is None,
    decreases facets.len() - n,
{
    if n < facets.len() {
        assert(facets.take(n + 1).drop_last() =~= facets.take(n));
        lemma_facets_fail(facets, n + 1, limit);
    } else {
        assert(facets.take(n) =~= facets);
    }
}

/// The next cursor a summary response reports at `/meta/page/next_cursor`,
/// when it is a nonempty string; `null` otherwise.
pub open spec fn summary_next_cursor(response: JsonV) -> JsonV {
    match vget(response, "meta"@) {
        Some(m) => match vget(m, "page"@) {
            Some(p) => match vget(p, "next_cursor"@) {
                Some(JsonV::Str(c)) => if c.len() > 0 {
                    JsonV::Str(c)
                } else {
                    JsonV::Null
                },
                _ => JsonV::Null,
            },
            None => JsonV::Null,
        },
        None => JsonV::Null,
    }
}

/// The warnings the server reported at `/meta/warnings`, or `null`.
pub open spec fn server_warnings(response: JsonV) -> JsonV {
    match vget(response, "meta"@) {
        Some(m) => match vget(m, "warnings"@) {
            Some(w) => w,
            None => JsonV::Null,
        },
        None => JsonV::Null,
    }
}

/// What is shown of a summary: the raw response, or the document built from
/// its results, with the count, truncation and next step of the metadata.
pub open spec fn summary_display(response: JsonV, query: JsonV, limit: usize, raw: bool, facets: bool) -> Result<(JsonV, Option<nat>, bool, Option<Seq<char>>), Seq<char>> {
    let (count, truncated, next) = crate::idp::entities::raw_metadata(response);
    if raw {
        Ok((response, count, truncated, next))
    } else {
        match summary_of(response, limit, facets) {
            Err(e) => Err(e),
            Ok((results, sampled)) => {
                let truncated2 = truncated || sampled;
                let next2 = if sampled {
                    Some(sampled_hint())
                } else {
                    next
                };
                Ok(
                    (
                        JsonV::Object(seq![
                            ("query"@, query),
                            ("results"@, JsonV::Array(results.map_values(|r: Seq<(Seq<char>, JsonV)>| JsonV::Object(r)))),
                            ("count"@, match count {
                                Some(c) => JsonV::Number(decimal(c as int)),
                                None => JsonV::Null,
                            }),
                            ("page"@, JsonV::Object(seq![
                                ("limit"@, JsonV::Number(decimal(limit as int))),
                                ("truncated"@, JsonV::Bool(truncated2)),
                                ("next_cursor"@, summary_next_cursor(response)),
                            ])),
                            ("warnings"@, JsonV::Array(if sampled {
                                seq![JsonV::Str(sampled_hint())]
                            } else {
                                Seq::empty()
                            })),
                            ("server_warnings"@, server_warnings(response)),
                        ]),
                        count,
                        truncated2,
                        next2,
                    ),
                )
            },
        }
    }
}

/// What a summary command shows and the metadata it reports.
pub struct SummaryDisplay {
    pub output: Json,
    pub count: Option<usize>,
    pub truncated: bool,
    pub next_action: Option<String>,
}

fn next_cursor_value(response: &Json) -> (r: Json)
    ensures
        jv(r) == summary_next_cursor(jv(*response)),
{
    match crate::json::get(response, "meta") {
        Some(m) => match crate::json::get(m, "page") {
            Some(p) => match crate::json::get(p, "next_cursor") {
                Some(Json::Str(c)) => if to_chars(c.as_str()).len() > 0 {
                    Json::Str(c.clone())
                } else {
                    Json::Null
                },
                _ => Json::Null,
            },
            None => Json::Null,
        },
        None => Json::Null,
    }
}

fn server_warnings_value(response: &Json) -> (r: Json)
    ensures
        jv(r) == server_warnings(jv(*response)),
{
    match crate::json::get(response, "meta") {
        Some(m) => match crate::json::get(m, "warnings") {
            Some(w) => copy_json(w),
            None => Json::Null,
        },
        None => Json::Null,
    }
}

/// The display of a summary response (see [`summary_display`]).
pub fn summary_output(response: &Json, query: Json, limit: usize, raw: bool, facets: bool) -> (r: Result<SummaryDisplay, String>)
    ensures
        match summary_display(jv(*response), jv(query), limit, raw, facets) {
            Ok((o, c, t, n)) => r matches Ok(d) && jv(d.output) == o && match d.count {
                Some(k) => c == Some(k as nat),
                None => c is None,
            } && d.truncated == t && crate::idp::entities::opt_text(d.next_action) == n,
            Err(e) => r matches Err(m) && m@ == e,
        },
{
    let (count, truncated, next_action) = crate::idp::entities::raw_response_metadata(response);
    if raw {
        return Ok(SummaryDisplay { output: copy_json(response), count, truncated, next_action });
    }
    let (results, sampled) = match summarize_response(response, limit, facets) {
        Ok(x) => x,
        Err(e) => {
            return Err(e);
        },
    };
    let truncated2 = truncated || sampled;
    let hint = "Facet values were sampled locally because the API returned more than --limit. Use --raw for all returned values, or aggregate --group-by <field> for pageable counts; a cursor does not recover locally omitted values.";
    let next2 = if sampled {
        Some(owned(hint))
    } else {
        next_action
    };
    let ghost rv = entry_lists(results@);
    let mut objects: Vec<Json> = Vec::new();
    let mut i: usize = 0;
    while i < results.len()
        invariant
            i <= results@.len(),
            rv == entry_lists(results@),
            jvs(objects@) == rv.take(i as int).map_values(|r: Seq<(Seq<char>, JsonV)>| JsonV::Object(r)),
        decreases results@.len() - i,
    {
        let es = crate::idp::entities::copy_entries(&results[i]);
        let ghost before = jvs(objects@);
        let o = crate::json::jobj(es);
        objects.push(o);
        assert(jvs(objects@) =~= before.push(JsonV::Object(rv[i as int])));
        assert(rv.take(i + 1).map_values(|r: Seq<(Seq<char>, JsonV)>| JsonV::Object(r)) =~= rv.take(i as int).map_values(|r: Seq<(Seq<char>, JsonV)>| JsonV::Object(r)).push(JsonV::Object(rv[i as int])));
        i += 1;
    }
    assert(rv.take(results@.len() as int) =~= rv);
    let mut page = crate::idp::migrate::entries1("limit", Json::Number(usize_to_string(limit)));
    crate::idp::migrate::push_member(&mut page, "truncated", Json::Bool(truncated2));
    crate::idp::migrate::push_member(&mut page, "next_cursor", next_cursor_value(response));
    let mut warnings: Vec<Json> = Vec::new();
    if sampled {
        warnings.push(Json::Str(owned(hint)));
    }
    let ghost qv = jv(query);
    let ghost wv = jvs(warnings@);
    assert(wv =~= if sampled {
        seq![JsonV::Str(sampled_hint())]
    } else {
        Seq::<JsonV>::empty()
    });
    let mut es = crate::idp::migrate::entries1("query", query);
    crate::idp::migrate::push_member(&mut es, "results", crate::json::jarr(objects));
    let count_value = match count {
        Some(c) => Json::Number(usize_to_string(c)),
        None => Json::Null,
    };
    crate::idp::migrate::push_member(&mut es, "count", count_value);
    crate::idp::migrate::push_member(&mut es, "page", crate::json::jobj(page));
    crate::idp::migrate::push_member(&mut es, "warnings", crate::json::jarr(warnings));
    crate::idp::migrate::push_member(&mut es, "server_warnings", server_warnings_value(response));
    proof {
        reveal_strlit("Facet values were sampled locally because the API returned more than --limit. Use --raw for all returned values, or aggregate --group-by <field> for pageable counts; a cursor does not recover locally omitted values.");
    }
    let ghost expected = summary_display(jv(*response), qv, limit, raw, facets);
    assert(expected is Ok);
    assert(jentries(page@) =~= seq![
        ("limit"@, JsonV::Number(decimal(limit as int))),
        ("truncated"@, JsonV::Bool(truncated2)),
        ("next_cursor"@, summary_next_cursor(jv(*response))),
    ]);
    assert(jentries(es@) =~= expected->Ok_0.0->Object_0);
    Ok(SummaryDisplay { output: crate::json::jobj(es), count, truncated: truncated2, next_action: next2 })
}

} // verus!
