//! `pup model-lab`: the run statuses and facet types its filters accept, and
//! the filters of a run listing.
use vstd::prelude::*;

use crate::text::{concat3, str_eq};

verus! {

/// The status of a Model Lab run.
#[derive(Clone, Copy, Debug, PartialEq, Eq, Structural)]
pub enum RunStatus {
    Pending,
    Running,
    Completed,
    Failed,
    Killed,
    Unresponsive,
    Paused,
}

/// The status named exactly: `pending`, `running`, `completed`, `failed`,
/// `killed`, `unresponsive` or `paused`.
pub open spec fn run_status_named(s: Seq<char>) -> Option<RunStatus> {
    if s == "pending"@ {
        Some(RunStatus::Pending)
    } else if s == "running"@ {
        Some(RunStatus::Running)
    } else if s == "completed"@ {
        Some(RunStatus::Completed)
    } else if s == "failed"@ {
        Some(RunStatus::Failed)
    } else if s == "killed"@ {
        Some(RunStatus::Killed)
    } else if s == "unresponsive"@ {
        Some(RunStatus::Unresponsive)
    } else if s == "paused"@ {
        Some(RunStatus::Paused)
    } else {
        None
    }
}

/// Parses a run status (see [`run_status_named`]).
pub fn parse_run_status(s: &str) -> (r: Result<RunStatus, String>)
    ensures
        match r {
            Ok(st) => run_status_named(s@) == Some(st),
            Err(e) => run_status_named(s@) is None && e@ == "unknown status '"@ + s@
                + "'; valid values: pending, running, completed, failed, killed, unresponsive, paused"@,
        },
{
    if str_eq(s, "pending") {
        Ok(RunStatus::Pending)
    } else if str_eq(s, "running") {
        Ok(RunStatus::Running)
    } else if str_eq(s, "completed") {
        Ok(RunStatus::Completed)
    } else if str_eq(s, "failed") {
        Ok(RunStatus::Failed)
    } else if str_eq(s, "killed") {
        Ok(RunStatus::Killed)
    } else if str_eq(s, "unresponsive") {
        Ok(RunStatus::Unresponsive)
    } else if str_eq(s, "paused") {
        Ok(RunStatus::Paused)
    } else {
        Err(
            concat3(
                "unknown status '",
                s,
                "'; valid values: pending, running, completed, failed, killed, unresponsive, paused",
            ),
        )
    }
}

/// The kind of a Model Lab facet.
#[derive(Clone, Copy, Debug, PartialEq, Eq, Structural)]
pub enum FacetType {
    Parameter,
    Attribute,
    Tag,
    Metric,
}

/// The facet type named exactly: `parameter`, `attribute`, `tag` or `metric`.
pub open spec fn facet_type_named(s: Seq<char>) -> Option<FacetType> {
    if s == "parameter"@ {
        Some(FacetType::Parameter)
    } else if s == "attribute"@ {
        Some(FacetType::Attribute)
    } else if s == "tag"@ {
        Some(FacetType::Tag)
    } else if s == "metric"@ {
        Some(FacetType::Metric)
    } else {
        None
    }
}

/// Parses a facet type (see [`facet_type_named`]).
pub fn parse_facet_type(s: &str) -> (r: Result<FacetType, String>)
    ensures
        match r {
            Ok(t) => facet_type_named(s@) == Some(t),
            Err(e) => facet_type_named(s@) is None && e@ == "unknown facet type '"@ + s@
                + "'; valid values: parameter, attribute, tag, metric"@,
        },
{
    if str_eq(s, "parameter") {
        Ok(FacetType::Parameter)
    } else if str_eq(s, "attribute") {
        Ok(FacetType::Attribute)
    } else if str_eq(s, "tag") {
        Ok(FacetType::Tag)
    } else if str_eq(s, "metric") {
        Ok(FacetType::Metric)
    } else {
        Err(concat3("unknown facet type '", s, "'; valid values: parameter, attribute, tag, metric"))
    }
}

/// The options of `pup model-lab runs list`, as given.
pub struct RunsListOptions {
    pub filter: Option<String>,
    pub filter_project_id: Option<i64>,
    pub filter_status: Option<String>,
    pub filter_tags: Option<String>,
    pub filter_params: Option<String>,
    pub filter_parent_run_id: Option<String>,
    pub pinned_first: bool,
    pub include_pinned: bool,
    pub sort: Option<String>,
    pub page_size: Option<i64>,
    pub page_number: Option<i64>,
}

/// The optional parameters a run listing sends: each option given, the status
/// parsed, and the two pinning flags only when set.
pub struct RunsListParams {
    pub filter: Option<String>,
    pub filter_project_id: Option<i64>,
    pub filter_status: Option<RunStatus>,
    pub filter_tags: Option<String>,
    pub filter_params: Option<String>,
    pub filter_parent_run_id: Option<String>,
    pub pinned_first: Option<bool>,
    pub include_pinned: Option<bool>,
    pub sort: Option<String>,
    pub page_size: Option<i64>,
    pub page_number: Option<i64>,
}

/// The parameters of a run listing; the error of the status when it names none.
pub fn runs_list_params(o: RunsListOptions) -> (r: Result<RunsListParams, String>)
    ensures
        match o.filter_status {
            Some(s) => match run_status_named(s@) {
                None => r matches Err(e) && e@ == "unknown status '"@ + s@
                    + "'; valid values: pending, running, completed, failed, killed, unresponsive, paused"@,
                Some(st) => r matches Ok(p) && p.filter_status == Some(st),
            },
            None => r matches Ok(p) && p.filter_status is None,
        },
        r matches Ok(p) ==> {
            &&& p.filter == o.filter
            &&& p.filter_project_id == o.filter_project_id
            &&& p.filter_tags == o.filter_tags
            &&& p.filter_params == o.filter_params
            &&& p.filter_parent_run_id == o.filter_parent_run_id
            &&& p.pinned_first == if o.pinned_first { Some(true) } else { None::<bool> }
            &&& p.include_pinned == if o.include_pinned { Some(true) } else { None::<bool> }
            &&& p.sort == o.sort
            &&& p.page_size == o.page_size
            &&& p.page_number == o.page_number
        },
{
    let status = match &o.filter_status {
        Some(s) => match parse_run_status(s.as_str()) {
            Ok(st) => Some(st),
            Err(e) => {
                return Err(e);
            },
        },
        None => None,
    };
    Ok(RunsListParams {
        filter: o.filter,
        filter_project_id: o.filter_project_id,
        filter_status: status,
        filter_tags: o.filter_tags,
        filter_params: o.filter_params,
        filter_parent_run_id: o.filter_parent_run_id,
        pinned_first: if o.pinned_first { Some(true) } else { None },
        include_pinned: if o.include_pinned { Some(true) } else { None },
        sort: o.sort,
        page_size: o.page_size,
        page_number: o.page_number,
    })
}

} // verus!
