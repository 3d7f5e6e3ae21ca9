//! Header parsing and the flame-graph request of the profiling commands.
use vstd::prelude::*;

use crate::idp::migrate::{entries1, push_member};
use crate::json::{jentries, jobj, jv, Json, JsonV};
use crate::text::{
    concat3, decimal, from_chars, i64_to_string, owned, split_once, split_once_chars, str_eq, to_chars,
    trim, trim_chars,
};

verus! {

/// Why a `--header` value was refused.
#[derive(Debug, PartialEq, Eq)]
pub enum HeaderError {
    /// Neither `:` nor `=` occurs in the value.
    MissingSeparator(String),
    /// The part before the separator is blank.
    EmptyName(String),
}

impl HeaderError {
    /// The user-facing message.
    pub fn to_string(&self) -> (r: String)
        ensures
            r@ == match self {
                HeaderError::MissingSeparator(h) => "invalid --header '"@ + h@
                    + "': expected 'Name: Value' or 'Name=Value'"@,
                HeaderError::EmptyName(h) => "invalid --header '"@ + h@
                    + "': header name cannot be empty"@,
            },
    {
        match self {
            HeaderError::MissingSeparator(h) => concat3(
                "invalid --header '",
                h.as_str(),
                "': expected 'Name: Value' or 'Name=Value'",
            ),
            HeaderError::EmptyName(h) => concat3(
                "invalid --header '",
                h.as_str(),
                "': header name cannot be empty",
            ),
        }
    }
}

/// The raw name and value of a header: split at the first `:`, or else at the first `=`.
pub open spec fn header_split(h: Seq<char>) -> Option<(Seq<char>, Seq<char>)> {
    match split_once(h, ':') {
        Some(p) => Some(p),
        None => split_once(h, '='),
    }
}

/// Whether a header value is accepted.
pub open spec fn header_ok(h: Seq<char>) -> bool {
    match header_split(h) {
        Some((name, _)) => trim(name).len() > 0,
        None => false,
    }
}

/// The `(name, value)` pair of an accepted header.
pub open spec fn header_pair(h: Seq<char>) -> (Seq<char>, Seq<char>) {
    let (name, value) = header_split(h)->0;
    (trim(name), trim(value))
}

/// The error for a refused header.
pub open spec fn header_error_of(h: String) -> HeaderError {
    if header_split(h@) is None {
        HeaderError::MissingSeparator(h)
    } else {
        HeaderError::EmptyName(h)
    }
}

/// Parses `--header` values of the form `Name: Value` or `Name=Value` into
/// `(name, value)` pairs; both sides are trimmed and the name must not be blank.
/// The first refused value decides the error.
pub fn parse_extra_headers(headers: &[String]) -> (r: Result<Vec<(String, String)>, HeaderError>)
    ensures
        match r {
            Ok(pairs) => {
                &&& forall|i: int| 0 <= i < headers@.len() ==> header_ok(#[trigger] headers@[i]@)
                &&& pairs@.len() == headers@.len()
                &&& forall|i: int|
                    0 <= i < headers@.len() ==> (#[trigger] pairs@[i].0@, pairs@[i].1@)
                        == header_pair(headers@[i]@)
            },
            Err(e) => exists|k: int|
                0 <= k < headers@.len() && !header_ok(#[trigger] headers@[k]@) && (forall|i: int|
                    0 <= i < k ==> header_ok(#[trigger] headers@[i]@)) && e == header_error_of(
                    headers@[k],
                ),
        },
{
    let mut pairs: Vec<(String, String)> = Vec::new();
    let mut i: usize = 0;
    while i < headers.len()
        invariant
            i <= headers@.len(),
            pairs@.len() == i,
            forall|j: int| 0 <= j < i ==> header_ok(#[trigger] headers@[j]@),
            forall|j: int|
                0 <= j < i ==> (#[trigger] pairs@[j].0@, pairs@[j].1@) == header_pair(headers@[j]@),
        decreases headers@.len() - i,
    {
        let h = &headers[i];
        let v = to_chars(h.as_str());
        let split = match split_once_chars(&v, ':') {
            Some(p) => Some(p),
            None => split_once_chars(&v, '='),
        };
        match split {
            None => {
                return Err(HeaderError::MissingSeparator(h.clone()));
            },
            Some((name, value)) => {
                let name = trim_chars(&name);
                let value = trim_chars(&value);
                if name.len() == 0 {
                    return Err(HeaderError::EmptyName(h.clone()));
                }
                pairs.push((from_chars(&name), from_chars(&value)));
            },
        }
        i += 1;
    }
    Ok(pairs)
}

/// Why a flame-graph request was refused before it was sent.
#[derive(Debug, PartialEq, Eq, Structural)]
pub enum FlamegraphScopeError {
    /// No query, trace id or profile id narrows the flame graph.
    MissingScope,
    /// Exactly one of the profile id and the event id was given.
    UnpairedProfile,
}

impl FlamegraphScopeError {
    /// The user-facing message.
    pub fn to_string(&self) -> (r: String)
        ensures
            r@ == match self {
                FlamegraphScopeError::MissingScope =>
                    "one of --query, --trace-id, or --profile-id is required to scope the flame graph"@,
                FlamegraphScopeError::UnpairedProfile =>
                    "--profile-id and --event-id must be used together"@,
            },
    {
        match self {
            FlamegraphScopeError::MissingScope => owned(
                "one of --query, --trace-id, or --profile-id is required to scope the flame graph",
            ),
            FlamegraphScopeError::UnpairedProfile => owned(
                "--profile-id and --event-id must be used together",
            ),
        }
    }
}

/// What a flame-graph exploration asks for. The time bounds are already
/// RFC 3339 texts, and the percent cutoff is the text of its number.
pub struct FlamegraphRequest {
    pub profile_type: String,
    pub query: String,
    pub from: String,
    pub to: String,
    pub trace_id: Option<String>,
    pub span_id: Option<String>,
    pub profile_id: Option<String>,
    pub event_id: Option<String>,
    pub attribute: Option<String>,
    pub percent_cutoff: String,
    pub limit_top_stacktraces: i32,
    pub max_stack_trace_size: i32,
    pub frame_regex_filter: Option<String>,
    pub endpoint_regex_filter: Option<String>,
    pub attribute_values_regex_filter: Option<String>,
    pub frame_format: String,
    pub frame_grouping: String,
    pub bypass_kind_truncation: bool,
}

/// The refusal a request meets, if any: a blank query with neither a trace
/// id nor a profile id, then a profile id without an event id or the reverse.
pub open spec fn flamegraph_scope_error(req: FlamegraphRequest) -> Option<FlamegraphScopeError> {
    if req.trace_id.is_none() && req.profile_id.is_none() && trim(req.query@).len() == 0 {
        Some(FlamegraphScopeError::MissingScope)
    } else if req.profile_id.is_some() != req.event_id.is_some() {
        Some(FlamegraphScopeError::UnpairedProfile)
    } else {
        None
    }
}

/// An optional text as a JSON value: the string, or `null`.
pub open spec fn opt_str_value(o: Option<String>) -> JsonV {
    match o {
        Some(s) => JsonV::Str(s@),
        None => JsonV::Null,
    }
}

/// The members of the request body, before the trace and profile contexts.
pub open spec fn flamegraph_members(req: FlamegraphRequest) -> Seq<(Seq<char>, JsonV)> {
    seq![
        ("filter"@, JsonV::Object(seq![
            ("from"@, JsonV::Str(req.from@)),
            ("to"@, JsonV::Str(req.to@)),
            ("query"@, JsonV::Str(req.query@)),
        ])),
        ("profileType"@, JsonV::Str(req.profile_type@)),
        ("attribute"@, opt_str_value(req.attribute)),
        ("percentCutoff"@, JsonV::Number(req.percent_cutoff@)),
        ("limitTopStacktraces"@, JsonV::Number(decimal(req.limit_top_stacktraces as int))),
        ("maxStackTraceSize"@, JsonV::Number(decimal(req.max_stack_trace_size as int))),
        ("frameRegexFilter"@, opt_str_value(req.frame_regex_filter)),
        ("endpointRegexFilter"@, opt_str_value(req.endpoint_regex_filter)),
        ("attributeValuesRegexFilter"@, opt_str_value(req.attribute_values_regex_filter)),
        ("frameFormat"@, JsonV::Str(if req.frame_format@ == "full"@ { "FULL"@ } else { "SIMPLE_STRING"@ })),
        ("frameGrouping"@, JsonV::Str(if req.frame_grouping@ == "line"@ { "LINE"@ } else { "METHOD"@ })),
        ("bypassKindTruncation"@, JsonV::Bool(req.bypass_kind_truncation)),
    ]
}

/// The request body: the members above, then `traceContext` when a trace id
/// is given and `profileContext` when a profile id is given.
pub open spec fn flamegraph_body(req: FlamegraphRequest) -> JsonV {
    let base = flamegraph_members(req);
    let with_trace = match req.trace_id {
        Some(t) => base.push(("traceContext"@, JsonV::Object(seq![
            ("traceId"@, JsonV::Str(t@)),
            ("spanId"@, opt_str_value(req.span_id)),
            ("timeHint"@, JsonV::Null),
        ]))),
        None => base,
    };
    JsonV::Object(
        match req.profile_id {
            Some(p) => with_trace.push(("profileContext"@, JsonV::Object(seq![
                ("profileId"@, JsonV::Str(p@)),
                ("eventId"@, opt_str_value(req.event_id)),
            ]))),
            None => with_trace,
        },
    )
}

fn opt_str_json(o: &Option<String>) -> (r: Json)
    ensures
        jv(r) == opt_str_value(*o),
{
    match o {
        Some(s) => Json::Str(s.clone()),
        None => Json::Null,
    }
}

fn flamegraph_filter(req: &FlamegraphRequest) -> (r: Json)
    ensures
        jv(r) == JsonV::Object(seq![
            ("from"@, JsonV::Str(req.from@)),
            ("to"@, JsonV::Str(req.to@)),
            ("query"@, JsonV::Str(req.query@)),
        ]),
{
    let mut es = entries1("from", Json::Str(req.from.clone()));
    push_member(&mut es, "to", Json::Str(req.to.clone()));
    push_member(&mut es, "query", Json::Str(req.query.clone()));
    assert(jentries(es@) =~= seq![
        ("from"@, JsonV::Str(req.from@)),
        ("to"@, JsonV::Str(req.to@)),
        ("query"@, JsonV::Str(req.query@)),
    ]);
    jobj(es)
}

fn flamegraph_member_entries(req: &FlamegraphRequest) -> (r: Vec<(String, Json)>)
    ensures
        jentries(r@) == flamegraph_members(*req),
{
    let mut es = entries1("filter", flamegraph_filter(req));
    push_member(&mut es, "profileType", Json::Str(req.profile_type.clone()));
    push_member(&mut es, "attribute", opt_str_json(&req.attribute));
    push_member(&mut es, "percentCutoff", Json::Number(req.percent_cutoff.clone()));
    push_member(&mut es, "limitTopStacktraces", Json::Number(i64_to_string(req.limit_top_stacktraces as i64)));
    push_member(&mut es, "maxStackTraceSize", Json::Number(i64_to_string(req.max_stack_trace_size as i64)));
    push_member(&mut es, "frameRegexFilter", opt_str_json(&req.frame_regex_filter));
    push_member(&mut es, "endpointRegexFilter", opt_str_json(&req.endpoint_regex_filter));
    push_member(&mut es, "attributeValuesRegexFilter", opt_str_json(&req.attribute_values_regex_filter));
    let format = if str_eq(req.frame_format.as_str(), "full") { "FULL" } else { "SIMPLE_STRING" };
    push_member(&mut es, "frameFormat", Json::Str(owned(format)));
    let grouping = if str_eq(req.frame_grouping.as_str(), "line") { "LINE" } else { "METHOD" };
    push_member(&mut es, "frameGrouping", Json::Str(owned(grouping)));
    push_member(&mut es, "bypassKindTruncation", Json::Bool(req.bypass_kind_truncation));
    assert(jentries(es@) =~= flamegraph_members(*req));
    es
}

/// The checks made before a flame graph is explored, in order.
pub fn check_flamegraph_scope(req: &FlamegraphRequest) -> (r: Result<(), FlamegraphScopeError>)
    ensures
        match flamegraph_scope_error(*req) {
            Some(e) => r == Err::<(), FlamegraphScopeError>(e),
            None => r is Ok,
        },
{
    let q = to_chars(req.query.as_str());
    let t = trim_chars(&q);
    if req.trace_id.is_none() && req.profile_id.is_none() && t.len() == 0 {
        return Err(FlamegraphScopeError::MissingScope);
    }
    if req.profile_id.is_some() != req.event_id.is_some() {
        return Err(FlamegraphScopeError::UnpairedProfile);
    }
    Ok(())
}

/// The body of a flame-graph exploration, or the refusal the request meets
/// (see [`flamegraph_scope_error`] and [`flamegraph_body`]).
pub fn explore_flamegraph_body(req: &FlamegraphRequest) -> (r: Result<Json, FlamegraphScopeError>)
    ensures
        match flamegraph_scope_error(*req) {
            Some(e) => r == Err::<Json, FlamegraphScopeError>(e),
            None => r matches Ok(b) && jv(b) == flamegraph_body(*req),
        },
{
    match check_flamegraph_scope(req) {
        Err(e) => return Err(e),
        Ok(()) => {},
    }
    let mut es = flamegraph_member_entries(req);
    let ghost base = jentries(es@);
    match &req.trace_id {
        Some(t) => {
            let mut tc = entries1("traceId", Json::Str(t.clone()));
            push_member(&mut tc, "spanId", opt_str_json(&req.span_id));
            push_member(&mut tc, "timeHint", Json::Null);
            assert(jentries(tc@) =~= seq![
                ("traceId"@, JsonV::Str(t@)),
                ("spanId"@, opt_str_value(req.span_id)),
                ("timeHint"@, JsonV::Null),
            ]);
            push_member(&mut es, "traceContext", jobj(tc));
        },
        None => {},
    }
    let ghost with_trace = jentries(es@);
    assert(with_trace =~= match req.trace_id {
        Some(t) => base.push(("traceContext"@, JsonV::Object(seq![
            ("traceId"@, JsonV::Str(t@)),
            ("spanId"@, opt_str_value(req.span_id)),
            ("timeHint"@, JsonV::Null),
        ]))),
        None => base,
    });
    match &req.profile_id {
        Some(p) => {
            let mut pc = entries1("profileId", Json::Str(p.clone()));
            push_member(&mut pc, "eventId", opt_str_json(&req.event_id));
            assert(jentries(pc@) =~= seq![
                ("profileId"@, JsonV::Str(p@)),
                ("eventId"@, opt_str_value(req.event_id)),
            ]);
            push_member(&mut es, "profileContext", jobj(pc));
        },
        None => {},
    }
    Ok(jobj(es))
}

} // verus!
