//! `pup cases`: the priorities and statuses a case accepts, and the comments
//! among the cells of a case's timeline.
use vstd::prelude::*;

use crate::json::{get, jv, jvs, str_at, vget, copy_json, Json, JsonV};
use crate::text::{concat3, str_eq, to_uppercase, unicode_uppercase};

verus! {

/// The priority of a case.
#[derive(Clone, Copy, Debug, PartialEq, Eq, Structural)]
pub enum CasePriority {
    P1,
    P2,
    P3,
    P4,
    P5,
    NotDefined,
}

/// The priority named, case-insensitively: `P1` to `P5` or `NOT_DEFINED`.
pub open spec fn priority_named(upper: Seq<char>) -> Option<CasePriority> {
    if upper == "P1"@ {
        Some(CasePriority::P1)
    } else if upper == "P2"@ {
        Some(CasePriority::P2)
    } else if upper == "P3"@ {
        Some(CasePriority::P3)
    } else if upper == "P4"@ {
        Some(CasePriority::P4)
    } else if upper == "P5"@ {
        Some(CasePriority::P5)
    } else if upper == "NOT_DEFINED"@ {
        Some(CasePriority::NotDefined)
    } else {
        None
    }
}

/// Parses a priority (see [`priority_named`]), matched on its uppercase form.
pub fn parse_priority(s: &str) -> (r: Result<CasePriority, String>)
    ensures
        match r {
            Ok(p) => priority_named(unicode_uppercase(s@)) == Some(p),
            Err(e) => priority_named(unicode_uppercase(s@)) is None && e@ == "invalid priority: "@ + s@
                + " (use P1, P2, P3, P4, P5, NOT_DEFINED)"@,
        },
{
    let u = to_uppercase(s);
    let u = u.as_str();
    if str_eq(u, "P1") {
        Ok(CasePriority::P1)
    } else if str_eq(u, "P2") {
        Ok(CasePriority::P2)
    } else if str_eq(u, "P3") {
        Ok(CasePriority::P3)
    } else if str_eq(u, "P4") {
        Ok(CasePriority::P4)
    } else if str_eq(u, "P5") {
        Ok(CasePriority::P5)
    } else if str_eq(u, "NOT_DEFINED") {
        Ok(CasePriority::NotDefined)
    } else {
        Err(concat3("invalid priority: ", s, " (use P1, P2, P3, P4, P5, NOT_DEFINED)"))
    }
}

/// The status of a case.
#[derive(Clone, Copy, Debug, PartialEq, Eq, Structural)]
pub enum CaseStatus {
    Open,
    InProgress,
    Closed,
}

/// The status named, case-insensitively: `OPEN`, `IN_PROGRESS` or `CLOSED`.
pub open spec fn status_named(upper: Seq<char>) -> Option<CaseStatus> {
    if upper == "OPEN"@ {
        Some(CaseStatus::Open)
    } else if upper == "IN_PROGRESS"@ {
        Some(CaseStatus::InProgress)
    } else if upper == "CLOSED"@ {
        Some(CaseStatus::Closed)
    } else {
        None
    }
}

/// Parses a status (see [`status_named`]), matched on its uppercase form.
pub fn parse_status(s: &str) -> (r: Result<CaseStatus, String>)
    ensures
        match r {
            Ok(st) => status_named(unicode_uppercase(s@)) == Some(st),
            Err(e) => status_named(unicode_uppercase(s@)) is None && e@ == "invalid status: "@ + s@
                + " (use OPEN, IN_PROGRESS, CLOSED)"@,
        },
{
    let u = to_uppercase(s);
    let u = u.as_str();
    if str_eq(u, "OPEN") {
        Ok(CaseStatus::Open)
    } else if str_eq(u, "IN_PROGRESS") {
        Ok(CaseStatus::InProgress)
    } else if str_eq(u, "CLOSED") {
        Ok(CaseStatus::Closed)
    } else {
        Err(concat3("invalid status: ", s, " (use OPEN, IN_PROGRESS, CLOSED)"))
    }
}

/// Whether a timeline cell is a comment: its `attributes.type` is `COMMENT`.
pub open spec fn is_comment(cell: JsonV) -> bool {
    match vget(cell, "attributes"@) {
        Some(a) => str_at(a, "type"@) == Some("COMMENT"@),
        None => false,
    }
}

/// The comments among the cells, in order.
pub open spec fn comments_among(cells: Seq<JsonV>) -> Seq<JsonV>
    decreases cells.len(),
{
    if cells.len() == 0 {
        Seq::empty()
    } else {
        let p = comments_among(cells.drop_last());
        if is_comment(cells.last()) {
            p.push(cells.last())
        } else {
            p
        }
    }
}

/// The comment cells of a case's timeline (its `data` list); none when it
/// has no list.
pub fn comment_cells(resp: &Json) -> (r: Vec<Json>)
    ensures
        jvs(r@) == match vget(jv(*resp), "data"@) {
            Some(JsonV::Array(cells)) => comments_among(cells),
            _ => Seq::<JsonV>::empty(),
        },
{
    let mut out: Vec<Json> = Vec::new();
    assert(jvs(out@) =~= Seq::<JsonV>::empty());
    let cells = match get(resp, "data") {
        Some(d) => match d {
            Json::Array(cells) => {
                assert(jv(*d)->Array_0 =~= jvs(cells@));
                cells
            },
            _ => {
                return out;
            },
        },
        None => {
            return out;
        },
    };
    let ghost cv = jvs(cells@);
    let mut i: usize = 0;
    assert(cv.take(0) =~= Seq::<JsonV>::empty());
    while i < cells.len()
        invariant
            i <= cells@.len(),
            cv == jvs(cells@),
            jvs(out@) == comments_among(cv.take(i as int)),
        decreases cells@.len() - i,
    {
        assert(cv.take(i + 1).drop_last() =~= cv.take(i as int));
        assert(cv.take(i + 1).last() == jv(cells@[i as int]));
        let comment = match get(&cells[i], "attributes") {
            Some(a) => match crate::json::str_field(a, "type") {
                Some(t) => str_eq(t.as_str(), "COMMENT"),
                None => false,
            },
            None => false,
        };
        if comment {
            let ghost before = jvs(out@);
            let c = copy_json(&cells[i]);
            out.push(c);
            assert(jvs(out@) =~= before.push(jv(cells@[i as int])));
        }
        i += 1;
    }
    assert(cv.take(cells@.len() as int) =~= cv);
    out
}

} // verus!
