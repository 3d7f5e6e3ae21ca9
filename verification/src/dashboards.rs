//! `pup dashboards`: dashboard links with a time window, widget selection, and
//! the catalogue of widget types with their templates, and the widget listing.
use vstd::prelude::*;

use crate::idp::migrate::{entries1, push_member};
use crate::json::{copy_json, get, jentries, jobj, jv, str_at, Json, JsonV};
use crate::text::{
    concat2, concat3, debug_quoted, debug_str, owned, str_eq, usize_to_string, decimal,
    i64_to_string,
};

verus! {

/// The widget types of the dashboards API, each with its description.
pub open spec fn widget_type_table() -> Seq<(Seq<char>, Seq<char>)> {
    seq![
        ("alert_graph"@, "Alert graphs are timeseries graphs showing the current status of any monitor defined on your system."@),
        ("alert_value"@, "Alert values are query values showing the current value of the metric in any monitor defined on your system."@),
        ("change"@, "The Change graph shows you the change in a value over the time period chosen."@),
        ("check_status"@, "Check status shows the current status or number of results for any check performed."@),
        ("distribution"@, "The Distribution visualization is another way of showing metrics aggregated across one or several tags, such as hosts."@),
        ("event_stream"@, "The event stream is a widget version of the stream of events on the Event Stream view. Only available on FREE layout dashboards."@),
        ("event_timeline"@, "The event timeline is a widget version of the timeline that appears at the top of the Event Stream view. Only available on FREE layout dashboards."@),
        ("free_text"@, "Free text is a widget that allows you to add headings to your dashboard. Commonly used to state the overall purpose of the dashboard."@),
        ("funnel"@, "The funnel visualization displays a funnel of user sessions that maps a sequence of view navigation and user interaction in your application."@),
        ("geomap"@, "This visualization displays a series of values by country on a world map."@),
        ("group"@, "The group widget allows you to keep similar graphs together on your dashboard. Each group has a custom header, can hold one to many graphs, and is collapsible."@),
        ("heatmap"@, "The heat map visualization shows metrics aggregated across many tags, such as hosts. The more hosts that have a particular value, the darker that square is."@),
        ("hostmap"@, "The host map widget graphs any metric across your hosts using the same visualization available from the main Host Map page."@),
        ("iframe"@, "The iframe widget allows you to embed a portion of any other web page on your dashboard."@),
        ("image"@, "The image widget allows you to embed an image on your dashboard. An image can be a PNG, JPG, or animated GIF."@),
        ("list_stream"@, "The list stream visualization displays a table of recent events in your application that match a search criteria using user-defined columns."@),
        ("log_stream"@, "The Log Stream displays a log flow matching the defined query."@),
        ("manage_status"@, "The monitor summary widget displays a summary view of all your Datadog monitors, or a subset based on a query."@),
        ("note"@, "The notes and links widget is similar to free text widget, but allows for more formatting options."@),
        ("powerpack"@, "The powerpack widget allows you to keep similar graphs together on your dashboard. Each group has a custom header, can hold one to many graphs, and is collapsible."@),
        ("query_value"@, "Query values display the current value of a given metric, APM, or log query."@),
        ("query_table"@, "The table visualization is available on dashboards. It displays columns of metrics grouped by tag key."@),
        ("run_workflow"@, "The run workflow widget allows you to run a workflow from a dashboard."@),
        ("scatterplot"@, "The scatter plot visualization allows you to graph a chosen scope over two different metrics with their respective aggregation."@),
        ("servicemap"@, "This widget displays a map of a service to all of the services that call it, and all of the services that it calls."@),
        ("slo"@, "Use the SLO and uptime widget to track your SLOs (Service Level Objectives) and uptime on dashboards."@),
        ("slo_list"@, "Use the SLO List widget to track your SLOs (Service Level Objectives) on dashboards."@),
        ("sunburst"@, "Sunbursts are spot on to highlight how groups contribute to the total of a query."@),
        ("timeseries"@, "The timeseries visualization allows you to display the evolution of one or more metrics, log events, or Indexed Spans over time."@),
        ("toplist"@, "The top list visualization enables you to display a list of Tag value like hostname or service with the most or least of any metric value, such as highest consumers of CPU, hosts with the least disk space, etc."@),
        ("topology_map"@, "This widget displays a topology of nodes and edges for different data sources. It replaces the service map widget."@),
        ("trace_service"@, "The service summary displays the graphs of a chosen service in your dashboard."@),
        ("treemap"@, "The treemap visualization enables you to display hierarchical and nested data. It is well suited for queries that describe part-whole relationships, such as resource usage by availability zone, data center, or team."@),
        ("wildcard"@, "Custom visualization widget using Vega or Vega-Lite specifications. Combines standard Datadog data requests with a Vega or Vega-Lite JSON specification for flexible, custom visualizations."@)
    ]
}

/// The widget types of the dashboards API, each with its description
/// (see [`widget_type_table`]).
pub fn widget_types() -> (r: Vec<(&'static str, &'static str)>)
    ensures
        r@.map_values(|e: (&'static str, &'static str)| (e.0@, e.1@)) == widget_type_table(),
{
    let mut v: Vec<(&'static str, &'static str)> = Vec::new();
    v.push(("alert_graph", "Alert graphs are timeseries graphs showing the current status of any monitor defined on your system."));
    v.push(("alert_value", "Alert values are query values showing the current value of the metric in any monitor defined on your system."));
    v.push(("change", "The Change graph shows you the change in a value over the time period chosen."));
    v.push(("check_status", "Check status shows the current status or number of results for any check performed."));
    v.push(("distribution", "The Distribution visualization is another way of showing metrics aggregated across one or several tags, such as hosts."));
    v.push(("event_stream", "The event stream is a widget version of the stream of events on the Event Stream view. Only available on FREE layout dashboards."));
    v.push(("event_timeline", "The event timeline is a widget version of the timeline that appears at the top of the Event Stream view. Only available on FREE layout dashboards."));
    v.push(("free_text", "Free text is a widget that allows you to add headings to your dashboard. Commonly used to state the overall purpose of the dashboard."));
    v.push(("funnel", "The funnel visualization displays a funnel of user sessions that maps a sequence of view navigation and user interaction in your application."));
    v.push(("geomap", "This visualization displays a series of values by country on a world map."));
    v.push(("group", "The group widget allows you to keep similar graphs together on your dashboard. Each group has a custom header, can hold one to many graphs, and is collapsible."));
    v.push(("heatmap", "The heat map visualization shows metrics aggregated across many tags, such as hosts. The more hosts that have a particular value, the darker that square is."));
    v.push(("hostmap", "The host map widget graphs any metric across your hosts using the same visualization available from the main Host Map page."));
    v.push(("iframe", "The iframe widget allows you to embed a portion of any other web page on your dashboard."));
    v.push(("image", "The image widget allows you to embed an image on your dashboard. An image can be a PNG, JPG, or animated GIF."));
    v.push(("list_stream", "The list stream visualization displays a table of recent events in your application that match a search criteria using user-defined columns."));
    v.push(("log_stream", "The Log Stream displays a log flow matching the defined query."));
    v.push(("manage_status", "The monitor summary widget displays a summary view of all your Datadog monitors, or a subset based on a query."));
    v.push(("note", "The notes and links widget is similar to free text widget, but allows for more formatting options."));
    v.push(("powerpack", "The powerpack widget allows you to keep similar graphs together on your dashboard. Each group has a custom header, can hold one to many graphs, and is collapsible."));
    v.push(("query_value", "Query values display the current value of a given metric, APM, or log query."));
    v.push(("query_table", "The table visualization is available on dashboards. It displays columns of metrics grouped by tag key."));
    v.push(("run_workflow", "The run workflow widget allows you to run a workflow from a dashboard."));
    v.push(("scatterplot", "The scatter plot visualization allows you to graph a chosen scope over two different metrics with their respective aggregation."));
    v.push(("servicemap", "This widget displays a map of a service to all of the services that call it, and all of the services that it calls."));
    v.push(("slo", "Use the SLO and uptime widget to track your SLOs (Service Level Objectives) and uptime on dashboards."));
    v.push(("slo_list", "Use the SLO List widget to track your SLOs (Service Level Objectives) on dashboards."));
    v.push(("sunburst", "Sunbursts are spot on to highlight how groups contribute to the total of a query."));
    v.push(("timeseries", "The timeseries visualization allows you to display the evolution of one or more metrics, log events, or Indexed Spans over time."));
    v.push(("toplist", "The top list visualization enables you to display a list of Tag value like hostname or service with the most or least of any metric value, such as highest consumers of CPU, hosts with the least disk space, etc."));
    v.push(("topology_map", "This widget displays a topology of nodes and edges for different data sources. It replaces the service map widget."));
    v.push(("trace_service", "The service summary displays the graphs of a chosen service in your dashboard."));
    v.push(("treemap", "The treemap visualization enables you to display hierarchical and nested data. It is well suited for queries that describe part-whole relationships, such as resource usage by availability zone, data center, or team."));
    v.push(("wildcard", "Custom visualization widget using Vega or Vega-Lite specifications. Combines standard Datadog data requests with a Vega or Vega-Lite JSON specification for flexible, custom visualizations."));
    assert(v@.map_values(|e: (&'static str, &'static str)| (e.0@, e.1@)) =~= widget_type_table());
    v
}


/// `t` is one of the widget types.
pub open spec fn known_widget_type(t: Seq<char>) -> bool {
    exists|i: int| 0 <= i < widget_type_table().len() && (#[trigger] widget_type_table()[i]).0 == t
}

/// The description of a widget type: the first entry of the table with that type.
pub open spec fn widget_description(t: Seq<char>) -> Option<Seq<char>> {
    if known_widget_type(t) {
        let i = choose|i: int|
            0 <= i < widget_type_table().len() && (#[trigger] widget_type_table()[i]).0 == t
                && forall|j: int| 0 <= j < i ==> widget_type_table()[j].0 != t;
        Some(widget_type_table()[i].1)
    } else {
        None
    }
}

/// `{"definition": {...}}` with the given members.
pub open spec fn definition_of(members: Seq<(Seq<char>, JsonV)>) -> JsonV {
    JsonV::Object(seq![("definition"@, JsonV::Object(members))])
}

/// A one-request list.
pub open spec fn one_request(request: Seq<(Seq<char>, JsonV)>) -> JsonV {
    JsonV::Array(seq![JsonV::Object(request)])
}

/// The empty string as a JSON value.
pub open spec fn blank() -> JsonV {
    JsonV::Str(Seq::empty())
}

/// The JSON skeleton offered for a widget type: a fuller one for the common
/// types, `{"definition":{"type":...}}` for the other known types, none for an
/// unknown type. Members are in the order `serde_json` writes them.
pub open spec fn widget_template_value(t: Seq<char>) -> Option<JsonV> {
    if t == "timeseries"@ {
        Some(definition_of(seq![
            ("requests"@, one_request(seq![("display_type"@, JsonV::Str("line"@)), ("q"@, blank())])),
            ("title"@, blank()),
            ("type"@, JsonV::Str(t)),
        ]))
    } else if t == "query_value"@ || t == "query_table"@ {
        Some(definition_of(seq![
            ("requests"@, one_request(seq![("aggregator"@, JsonV::Str("avg"@)), ("q"@, blank())])),
            ("title"@, blank()),
            ("type"@, JsonV::Str(t)),
        ]))
    } else if t == "toplist"@ || t == "heatmap"@ {
        Some(definition_of(seq![
            ("requests"@, one_request(seq![("q"@, blank())])),
            ("title"@, blank()),
            ("type"@, JsonV::Str(t)),
        ]))
    } else if t == "note"@ {
        Some(definition_of(seq![("content"@, blank()), ("type"@, JsonV::Str(t))]))
    } else if t == "free_text"@ {
        Some(definition_of(seq![("text"@, blank()), ("type"@, JsonV::Str(t))]))
    } else if t == "slo"@ {
        Some(definition_of(seq![
            ("slo_id"@, blank()),
            ("time_windows"@, JsonV::Array(seq![JsonV::Str("7d"@)])),
            ("type"@, JsonV::Str(t)),
            ("view_type"@, JsonV::Str("detail"@)),
        ]))
    } else if known_widget_type(t) {
        Some(definition_of(seq![("type"@, JsonV::Str(t))]))
    } else {
        None
    }
}

fn find_widget_type(t: &str) -> (r: Option<usize>)
    ensures
        match r {
            Some(i) => i < widget_type_table().len() && widget_type_table()[i as int].0 == t@
                && forall|j: int| 0 <= j < i ==> widget_type_table()[j].0 != t@,
            None => !known_widget_type(t@),
        },
{
    let table = widget_types();
    let mut i: usize = 0;
    while i < table.len()
        invariant
            i <= table@.len(),
            table@.map_values(|e: (&'static str, &'static str)| (e.0@, e.1@)) == widget_type_table(),
            forall|j: int| 0 <= j < i ==> widget_type_table()[j].0 != t@,
        decreases table@.len() - i,
    {
        assert(widget_type_table()[i as int].0 == table@[i as int].0@);
        if str_eq(table[i].0, t) {
            return Some(i);
        }
        i += 1;
    }
    None
}

/// The description of a widget type (see [`widget_description`]).
pub fn widget_type_description(t: &str) -> (r: Option<&'static str>)
    ensures
        match r {
            Some(d) => widget_description(t@) == Some(d@),
            None => widget_description(t@) is None,
        },
{
    let table = widget_types();
    match find_widget_type(t) {
        None => None,
        Some(i) => {
            proof {
                let k = choose|k: int|
                    0 <= k < widget_type_table().len() && (#[trigger] widget_type_table()[k]).0
                        == t@ && forall|j: int| 0 <= j < k ==> widget_type_table()[j].0 != t@;
                if k < i {
                } else if k > i {
                    assert(widget_type_table()[i as int].0 == t@);
                }
                assert(k == i);
            }
            assert(table@[i as int].1@ == widget_type_table()[i as int].1);
            Some(table[i].1)
        },
    }
}

fn blank_json() -> (r: Json)
    ensures
        jv(r) == blank(),
{
    let e = String::new();
    assert(e@ =~= Seq::<char>::empty());
    Json::Str(e)
}

fn definition_json(es: Vec<(String, Json)>) -> (r: Json)
    ensures
        jv(r) == definition_of(jentries(es@)),
{
    let ghost ev = jentries(es@);
    let r = jobj(entries1("definition", jobj(es)));
    assert(jv(r)->Object_0 =~= seq![("definition"@, JsonV::Object(ev))]);
    r
}

fn one_request_json(es: Vec<(String, Json)>) -> (r: Json)
    ensures
        jv(r) == one_request(jentries(es@)),
{
    let ghost ev = jentries(es@);
    let mut v: Vec<Json> = Vec::new();
    v.push(jobj(es));
    let r = crate::json::jarr(v);
    assert(jv(r)->Array_0 =~= seq![JsonV::Object(ev)]);
    r
}

fn requests_skeleton(request: Vec<(String, Json)>, t: &str) -> (r: Json)
    ensures
        jv(r) == definition_of(seq![
            ("requests"@, one_request(jentries(request@))),
            ("title"@, blank()),
            ("type"@, JsonV::Str(t@)),
        ]),
{
    let ghost rv = jentries(request@);
    let mut es = entries1("requests", one_request_json(request));
    push_member(&mut es, "title", blank_json());
    push_member(&mut es, "type", Json::Str(owned(t)));
    assert(jentries(es@) =~= seq![
        ("requests"@, one_request(rv)),
        ("title"@, blank()),
        ("type"@, JsonV::Str(t@)),
    ]);
    definition_json(es)
}

/// The JSON skeleton offered for a widget type (see [`widget_template_value`]).
pub fn widget_template(t: &str) -> (r: Option<Json>)
    ensures
        match r {
            Some(v) => widget_template_value(t@) == Some(jv(v)),
            None => widget_template_value(t@) is None,
        },
{
    if str_eq(t, "timeseries") {
        let mut req = entries1("display_type", Json::Str(owned("line")));
        push_member(&mut req, "q", blank_json());
        assert(jentries(req@) =~= seq![("display_type"@, JsonV::Str("line"@)), ("q"@, blank())]);
        Some(requests_skeleton(req, t))
    } else if str_eq(t, "query_value") || str_eq(t, "query_table") {
        let mut req = entries1("aggregator", Json::Str(owned("avg")));
        push_member(&mut req, "q", blank_json());
        assert(jentries(req@) =~= seq![("aggregator"@, JsonV::Str("avg"@)), ("q"@, blank())]);
        Some(requests_skeleton(req, t))
    } else if str_eq(t, "toplist") || str_eq(t, "heatmap") {
        let req = entries1("q", blank_json());
        Some(requests_skeleton(req, t))
    } else if str_eq(t, "note") {
        let mut es = entries1("content", blank_json());
        push_member(&mut es, "type", Json::Str(owned(t)));
        assert(jentries(es@) =~= seq![("content"@, blank()), ("type"@, JsonV::Str(t@))]);
        Some(definition_json(es))
    } else if str_eq(t, "free_text") {
        let mut es = entries1("text", blank_json());
        push_member(&mut es, "type", Json::Str(owned(t)));
        assert(jentries(es@) =~= seq![("text"@, blank()), ("type"@, JsonV::Str(t@))]);
        Some(definition_json(es))
    } else if str_eq(t, "slo") {
        let mut es = entries1("slo_id", blank_json());
        let mut windows: Vec<Json> = Vec::new();
        windows.push(Json::Str(owned("7d")));
        let w = crate::json::jarr(windows);
        assert(jv(w)->Array_0 =~= seq![JsonV::Str("7d"@)]);
        push_member(&mut es, "time_windows", w);
        push_member(&mut es, "type", Json::Str(owned(t)));
        push_member(&mut es, "view_type", Json::Str(owned("detail")));
        assert(jentries(es@) =~= seq![
            ("slo_id"@, blank()),
            ("time_windows"@, JsonV::Array(seq![JsonV::Str("7d"@)])),
            ("type"@, JsonV::Str(t@)),
            ("view_type"@, JsonV::Str("detail"@)),
        ]);
        Some(definition_json(es))
    } else if find_widget_type(t).is_some() {
        Some(definition_json(entries1("type", Json::Str(owned(t)))))
    } else {
        None
    }
}

/// Every widget type of the catalogue has a template, and only those do.
pub proof fn law_template_exactly_for_known_types(t: Seq<char>)
    ensures
        widget_template_value(t) is Some <==> known_widget_type(t),
{
    if t == "timeseries"@ {
        assert(widget_type_table()[28].0 == t);
    } else if t == "query_value"@ {
        assert(widget_type_table()[20].0 == t);
    } else if t == "query_table"@ {
        assert(widget_type_table()[21].0 == t);
    } else if t == "toplist"@ {
        assert(widget_type_table()[29].0 == t);
    } else if t == "note"@ {
        assert(widget_type_table()[18].0 == t);
    } else if t == "free_text"@ {
        assert(widget_type_table()[7].0 == t);
    } else if t == "heatmap"@ {
        assert(widget_type_table()[11].0 == t);
    } else if t == "slo"@ {
        assert(widget_type_table()[25].0 == t);
    }
}

/// The template of a widget type names that type at `definition.type`.
pub proof fn law_template_names_its_type(t: Seq<char>)
    ensures
        widget_template_value(t) matches Some(v) ==> crate::json::nested_str_at(v, "definition"@, "type"@)
            == Some(t),
{
    reveal_strlit("type");
    reveal_strlit("requests");
    reveal_strlit("title");
    reveal_strlit("content");
    reveal_strlit("text");
    reveal_strlit("slo_id");
    reveal_strlit("time_windows");
    assert("type"@.len() == 4);
    assert("requests"@.len() == 8);
    assert("title"@.len() == 5);
    assert("content"@.len() == 7);
    assert("text"@.len() == 4 && "text"@[2] == 'x' && "type"@[2] == 'p');
    assert("slo_id"@.len() == 6);
    assert("time_windows"@.len() == 12);
    reveal_with_fuel(crate::json::entry_get, 4);
}

/// Why a dashboard request was refused.
#[derive(Debug, PartialEq, Eq)]
pub enum DashboardError {
    IndexOutOfRange { index: usize, count: usize },
    SelectorMissing,
    WidgetNotFound(i64),
    WidgetAmbiguous { id: i64, matches: usize },
    UnknownWidgetType(String),
    InvalidUrl { url: String, reason: String },
    FreeLayoutNeedsLayout,
}

impl DashboardError {
    /// The user-facing message.
    pub fn to_string(&self) -> (r: String)
        ensures
            r@ == match self {
                DashboardError::IndexOutOfRange { index, count } => "index "@ + decimal(
                    *index as int,
                ) + " out of range; dashboard has "@ + decimal(*count as int) + " widget(s)"@,
                DashboardError::SelectorMissing => "--widget-id or --index is required"@,
                DashboardError::WidgetNotFound(id) => "no widget with id "@ + decimal(*id as int)
                    + " found in dashboard"@,
                DashboardError::WidgetAmbiguous { id, matches } => "widget id "@ + decimal(
                    *id as int,
                ) + " is ambiguous ("@ + decimal(*matches as int)
                    + " matches); use --index instead"@,
                DashboardError::UnknownWidgetType(t) => "unknown widget type "@ + debug_quoted(t@)
                    + "; run `pup dashboards widgets types` to see supported types"@,
                DashboardError::InvalidUrl { url, reason } => "dashboard response included invalid url "@
                    + debug_quoted(url@) + ": "@ + reason@,
                DashboardError::FreeLayoutNeedsLayout => "this is a free-layout dashboard; the widget JSON must include a `layout` object with `x`, `y`, `width`, and `height` fields"@,
            },
    {
        match self {
            DashboardError::IndexOutOfRange { index, count } => {
                let a = usize_to_string(*index);
                let b = usize_to_string(*count);
                let head = concat3("index ", a.as_str(), " out of range; dashboard has ");
                concat3(head.as_str(), b.as_str(), " widget(s)")
            },
            DashboardError::SelectorMissing => owned("--widget-id or --index is required"),
            DashboardError::WidgetNotFound(id) => {
                let a = i64_to_string(*id);
                concat3("no widget with id ", a.as_str(), " found in dashboard")
            },
            DashboardError::WidgetAmbiguous { id, matches } => {
                let a = i64_to_string(*id);
                let b = usize_to_string(*matches);
                let head = concat3("widget id ", a.as_str(), " is ambiguous (");
                concat3(head.as_str(), b.as_str(), " matches); use --index instead")
            },
            DashboardError::UnknownWidgetType(t) => concat3(
                "unknown widget type ",
                debug_str(t.as_str()).as_str(),
                "; run `pup dashboards widgets types` to see supported types",
            ),
            DashboardError::InvalidUrl { url, reason } => {
                let head = concat3(
                    "dashboard response included invalid url ",
                    debug_str(url.as_str()).as_str(),
                    ": ",
                );
                concat2(head.as_str(), reason.as_str())
            },
            DashboardError::FreeLayoutNeedsLayout => owned(
                "this is a free-layout dashboard; the widget JSON must include a `layout` object with `x`, `y`, `width`, and `height` fields",
            ),
        }
    }
}

/// The description and template of a known widget type.
pub fn widget_schema(type_str: &str) -> (r: Result<(&'static str, Json), DashboardError>)
    ensures
        match widget_description(type_str@) {
            Some(d) => r matches Ok((x, t)) && x@ == d && widget_template_value(type_str@) == Some(
                jv(t),
            ),
            None => r matches Err(DashboardError::UnknownWidgetType(s)) && s@ == type_str@,
        },
{
    let description = match widget_type_description(type_str) {
        None => {
            return Err(DashboardError::UnknownWidgetType(owned(type_str)));
        },
        Some(d) => d,
    };
    proof {
        law_template_exactly_for_known_types(type_str@);
    }
    match widget_template(type_str) {
        Some(t) => Ok((description, t)),
        None => {
            proof {
                assert(false);
            }
            Err(DashboardError::UnknownWidgetType(owned(type_str)))
        },
    }
}

/// The positions of the widgets whose id is `id`, in order.
pub open spec fn id_hits(ids: Seq<Option<i64>>, id: i64) -> Seq<int>
    decreases ids.len(),
{
    if ids.len() == 0 {
        Seq::empty()
    } else if ids.last() == Some(id) {
        id_hits(ids.drop_last(), id).push(ids.len() - 1)
    } else {
        id_hits(ids.drop_last(), id)
    }
}

/// The widget a `--index` or `--widget-id` selects, given the ids of the
/// dashboard's widgets in order: an index must be in range; an id must match
/// exactly one widget.
pub open spec fn locate_spec(ids: Seq<Option<i64>>, widget_id: Option<i64>, index: Option<usize>) -> Result<
    int,
    DashboardError,
> {
    match index {
        Some(i) => if i < ids.len() {
            Ok(i as int)
        } else {
            Err(DashboardError::IndexOutOfRange { index: i, count: ids.len() as usize })
        },
        None => match widget_id {
            None => Err(DashboardError::SelectorMissing),
            Some(w) => {
                let hits = id_hits(ids, w);
                if hits.len() == 0 {
                    Err(DashboardError::WidgetNotFound(w))
                } else if hits.len() == 1 {
                    Ok(hits[0])
                } else {
                    Err(DashboardError::WidgetAmbiguous { id: w, matches: hits.len() as usize })
                }
            },
        },
    }
}

proof fn lemma_id_hits_bounds(ids: Seq<Option<i64>>, id: i64)
    ensures
        id_hits(ids, id).len() <= ids.len(),
        forall|k: int| 0 <= k < id_hits(ids, id).len() ==> 0 <= #[trigger] id_hits(ids, id)[k] < ids.len(),
    decreases ids.len(),
{
    if ids.len() > 0 {
        lemma_id_hits_bounds(ids.drop_last(), id);
    }
}

/// Resolves a `--widget-id` or `--index` selector to a widget position (see
/// [`locate_spec`]).
pub fn locate_widget_index(ids: &[Option<i64>], widget_id: Option<i64>, index: Option<usize>) -> (r:
    Result<usize, DashboardError>)
    ensures
        match (r, locate_spec(ids@, widget_id, index)) {
            (Ok(a), Ok(b)) => a as int == b,
            (Err(a), Err(b)) => a == b,
            _ => false,
        },
{
    if let Some(idx) = index {
        if idx >= ids.len() {
            return Err(DashboardError::IndexOutOfRange { index: idx, count: ids.len() });
        }
        return Ok(idx);
    }
    let wid = match widget_id {
        None => {
            return Err(DashboardError::SelectorMissing);
        },
        Some(w) => w,
    };
    let mut hits: Vec<usize> = Vec::new();
    let mut i: usize = 0;
    assert(ids@.take(0) =~= Seq::<Option<i64>>::empty());
    while i < ids.len()
        invariant
            i <= ids@.len(),
            hits@.len() == id_hits(ids@.take(i as int), wid).len(),
            forall|k: int| 0 <= k < hits@.len() ==> hits@[k] as int == #[trigger] id_hits(ids@.take(i as int), wid)[k],
        decreases ids@.len() - i,
    {
        assert(ids@.take(i + 1).drop_last() =~= ids@.take(i as int));
        if ids[i] == Some(wid) {
            hits.push(i);
        }
        i += 1;
    }
    assert(ids@.take(ids@.len() as int) =~= ids@);
    proof {
        lemma_id_hits_bounds(ids@, wid);
    }
    if hits.len() == 0 {
        Err(DashboardError::WidgetNotFound(wid))
    } else if hits.len() == 1 {
        Ok(hits[0])
    } else {
        Err(DashboardError::WidgetAmbiguous { id: wid, matches: hits.len() })
    }
}

/// What adding a widget keeps of its layout: a free-layout dashboard needs one;
/// an ordered dashboard drops it. The new widget never keeps its id.
pub fn widget_layout_for_add(free_layout: bool, has_layout: bool) -> (r: Result<bool, DashboardError>)
    ensures
        free_layout && !has_layout ==> r == Err::<bool, DashboardError>(
            DashboardError::FreeLayoutNeedsLayout,
        ),
        free_layout && has_layout ==> r == Ok::<bool, DashboardError>(true),
        !free_layout ==> r == Ok::<bool, DashboardError>(false),
{
    if free_layout {
        if !has_layout {
            return Err(DashboardError::FreeLayoutNeedsLayout);
        }
        Ok(true)
    } else {
        Ok(false)
    }
}

/// What the `url` crate makes of a URL: its query pairs, decoded, in order, or
/// the parse error's message when it is not a valid absolute URL.
pub uninterp spec fn url_query_pairs(url: Seq<char>) -> Result<Seq<(Seq<char>, Seq<char>)>, Seq<char>>;

/// The URL with its query replaced by the pairs, encoded, as the `url` crate
/// writes it (meaningful for a URL that parses).
pub uninterp spec fn url_with_query(url: Seq<char>, pairs: Seq<(Seq<char>, Seq<char>)>) -> Seq<char>;

/// `url::Url::parse` and `Url::query_pairs`, collected.
#[verifier::external_body]
fn parse_query_pairs(url: &str) -> (r: Result<Vec<(String, String)>, String>)
    ensures
        match r {
            Ok(p) => url_query_pairs(url@) == Ok::<Seq<(Seq<char>, Seq<char>)>, Seq<char>>(
                p@.map_values(|e: (String, String)| (e.0@, e.1@)),
            ),
            Err(e) => url_query_pairs(url@) == Err::<Seq<(Seq<char>, Seq<char>)>, Seq<char>>(e@),
        },
{
    let parsed = url::Url::parse(url).map_err(|e| e.to_string())?;
    Ok(parsed.query_pairs().map(|(k, v)| (k.into_owned(), v.into_owned())).collect())
}

/// `Url::query_pairs_mut().clear().extend_pairs(..)` on a parsed URL, written
/// with `Url::to_string`.
#[verifier::external_body]
fn replace_query(url: &str, pairs: &Vec<(String, String)>) -> (r: String)
    requires
        url_query_pairs(url@) is Ok,
    ensures
        r@ == url_with_query(url@, pairs@.map_values(|e: (String, String)| (e.0@, e.1@))),
{
    let mut parsed = url::Url::parse(url).expect("the url parsed before");
    parsed.query_pairs_mut().clear().extend_pairs(pairs.iter().map(|(k, v)| (k.as_str(), v.as_str())));
    parsed.to_string()
}

/// The query pairs other than the time window ones (`from_ts`, `to_ts`, `live`).
pub open spec fn other_pairs(p: Seq<(Seq<char>, Seq<char>)>) -> Seq<(Seq<char>, Seq<char>)>
    decreases p.len(),
{
    if p.len() == 0 {
        Seq::empty()
    } else {
        let q = other_pairs(p.drop_last());
        let k = p.last().0;
        if k == "from_ts"@ || k == "to_ts"@ || k == "live"@ {
            q
        } else {
            q.push(p.last())
        }
    }
}

/// The query pairs of a dashboard link with its time window set.
pub open spec fn window_pairs(pairs: Seq<(Seq<char>, Seq<char>)>, from: Seq<char>, to: Seq<char>, live: bool) -> Seq<(Seq<char>, Seq<char>)> {
    other_pairs(pairs) + seq![
        ("from_ts"@, from),
        ("to_ts"@, to),
        ("live"@, if live {
            "true"@
        } else {
            "false"@
        }),
    ]
}

/// The query pairs of a link with its time window set (see [`window_pairs`]):
/// the other pairs kept in order, then `from_ts`, `to_ts` and `live`.
pub fn time_window_pairs(pairs: &Vec<(String, String)>, from: &str, to: &str, live: bool) -> (r: Vec<(String, String)>)
    ensures
        r@.map_values(|e: (String, String)| (e.0@, e.1@)) == window_pairs(
            pairs@.map_values(|e: (String, String)| (e.0@, e.1@)),
            from@,
            to@,
            live,
        ),
{
    let ghost pv = pairs@.map_values(|e: (String, String)| (e.0@, e.1@));
    let mut kept: Vec<(String, String)> = Vec::new();
    let mut i: usize = 0;
    assert(pv.take(0) =~= Seq::<(Seq<char>, Seq<char>)>::empty());
    assert(kept@.map_values(|e: (String, String)| (e.0@, e.1@)) =~= Seq::<(Seq<char>, Seq<char>)>::empty());
    while i < pairs.len()
        invariant
            i <= pairs@.len(),
            pv == pairs@.map_values(|e: (String, String)| (e.0@, e.1@)),
            kept@.map_values(|e: (String, String)| (e.0@, e.1@)) == other_pairs(pv.take(i as int)),
        decreases pairs@.len() - i,
    {
        assert(pv.take(i + 1).drop_last() =~= pv.take(i as int));
        assert(pv.take(i + 1).last() == pv[i as int]);
        let k = pairs[i].0.as_str();
        if !(str_eq(k, "from_ts") || str_eq(k, "to_ts") || str_eq(k, "live")) {
            let ghost before = kept@.map_values(|e: (String, String)| (e.0@, e.1@));
            kept.push((pairs[i].0.clone(), pairs[i].1.clone()));
            assert(kept@.map_values(|e: (String, String)| (e.0@, e.1@)) =~= before.push(pv[i as int]));
        }
        i += 1;
    }
    assert(pv.take(pairs@.len() as int) =~= pv);
    let ghost kv = kept@.map_values(|e: (String, String)| (e.0@, e.1@));
    kept.push((owned("from_ts"), owned(from)));
    kept.push((owned("to_ts"), owned(to)));
    kept.push((owned("live"), if live {
        owned("true")
    } else {
        owned("false")
    }));
    assert(kept@.map_values(|e: (String, String)| (e.0@, e.1@)) =~= kv + seq![
        ("from_ts"@, from@),
        ("to_ts"@, to@),
        ("live"@, if live {
            "true"@
        } else {
            "false"@
        }),
    ]);
    kept
}

/// The dashboard link with its time window set: the other query pairs kept in
/// order, then `from_ts`, `to_ts` and `live`.
pub fn dashboard_url_with_time(base_url: &str, from: &str, to: &str, live: bool) -> (r: Result<
    String,
    DashboardError,
>)
    ensures
        match url_query_pairs(base_url@) {
            Err(reason) => r matches Err(DashboardError::InvalidUrl { url, reason: why }) && url@
                == base_url@ && why@ == reason,
            Ok(pairs) => r matches Ok(s) && s@ == url_with_query(base_url@, window_pairs(pairs, from@, to@, live)),
        },
{
    let pairs = match parse_query_pairs(base_url) {
        Err(e) => {
            return Err(DashboardError::InvalidUrl { url: owned(base_url), reason: e });
        },
        Ok(p) => p,
    };
    let kept = time_window_pairs(&pairs, from, to, live);
    Ok(replace_query(base_url, &kept))
}

/// What the widget listing reads of a widget: its id, its definition and its
/// layout (`null` when it has none), as JSON.
pub struct WidgetSummary {
    pub id: Option<i64>,
    pub definition: Json,
    pub layout: Json,
}

/// The listing row of the widget at `index`: its position, id, type
/// (`"unknown"` when the definition names none), title (or `null`) and layout.
pub open spec fn widget_row(index: int, w: WidgetSummary) -> JsonV {
    JsonV::Object(seq![
        ("index"@, JsonV::Number(decimal(index))),
        ("id"@, match w.id {
            Some(i) => JsonV::Number(decimal(i as int)),
            None => JsonV::Null,
        }),
        ("type"@, JsonV::Str(match str_at(jv(w.definition), "type"@) {
            Some(t) => t,
            None => "unknown"@,
        })),
        ("title"@, match str_at(jv(w.definition), "title"@) {
            Some(t) => JsonV::Str(t),
            None => JsonV::Null,
        }),
        ("layout"@, jv(w.layout)),
    ])
}

fn str_member(j: &Json, key: &str) -> (r: Option<String>)
    ensures
        match r {
            Some(s) => str_at(jv(*j), key@) == Some(s@),
            None => str_at(jv(*j), key@) is None,
        },
{
    match get(j, key) {
        Some(Json::Str(s)) => Some(s.clone()),
        _ => None,
    }
}

/// The rows of `pup dashboards widgets list`, one per widget in order (see
/// [`widget_row`]).
pub fn widget_rows(widgets: &[WidgetSummary]) -> (r: Vec<Json>)
    ensures
        r@.len() == widgets@.len(),
        forall|i: int| 0 <= i < widgets@.len() ==> jv(#[trigger] r@[i]) == widget_row(i, widgets@[i]),
{
    let mut rows: Vec<Json> = Vec::new();
    let mut i: usize = 0;
    while i < widgets.len()
        invariant
            i <= widgets@.len(),
            rows@.len() == i,
            forall|k: int| 0 <= k < i ==> jv(#[trigger] rows@[k]) == widget_row(k, widgets@[k]),
        decreases widgets@.len() - i,
    {
        let w = &widgets[i];
        let mut es = entries1("index", Json::Number(usize_to_string(i)));
        let id = match w.id {
            Some(n) => Json::Number(i64_to_string(n)),
            None => Json::Null,
        };
        push_member(&mut es, "id", id);
        let t = match str_member(&w.definition, "type") {
            Some(t) => t,
            None => owned("unknown"),
        };
        push_member(&mut es, "type", Json::Str(t));
        let title = match str_member(&w.definition, "title") {
            Some(t) => Json::Str(t),
            None => Json::Null,
        };
        push_member(&mut es, "title", title);
        push_member(&mut es, "layout", copy_json(&w.layout));
        assert(jentries(es@) =~= widget_row(i as int, *w)->Object_0);
        rows.push(jobj(es));
        i += 1;
    }
    rows
}

} // verus!
