//! Validation and normalization of `pup idp entities query` options, and the
//! request parameters built from them.
use vstd::prelude::*;

use crate::idp::kind_fields::{
    default_fields, default_fields_for_kind, has_specific_default_fields, specific_kind, str_views,
};
use crate::idp::query_syntax::{
    go_duration, has_free_text_filter, has_semantic_top_level_or, infer_kind, inferred_kind,
    is_valid_go_duration, mentions_free_text, opt_view, top_level_or,
};
use crate::strmap::{
    has_key, insert_sorted, keys_sorted, lemma_key_index_unique, lemma_map_view_insert,
    lemma_map_view_update, map_view, replace_value, find_key, lemma_map_view_remove, lex_lt,
    lemma_lex_irreflexive, insert_sorted as insert_sorted_entry,
};
use crate::text::{
    ascii_lower, ascii_lower_chars, chars_eq, first_index, from_chars, is_ascii_alnum, push_char,
    push_chars, split_chars, split_on, to_chars, trim, trim_chars, trim_str, split_once,
    split_once_chars, contains_char, decimal, i64_to_string, join, join_strings, join_strs,
    usize_to_string, concat2, concat3, owned, debug_quoted, debug_str,
};
use crate::duration::{duration_millis, parse_duration_to_millis};

verus! {

/// Options of `pup idp entities query`, as given on the command line.
#[derive(Clone, Debug)]
pub struct EntityQueryOptions {
    pub query: String,
    pub fields: Vec<String>,
    pub fields_by_kind: Vec<String>,
    pub edge_fields: Vec<String>,
    pub includes: Vec<String>,
    pub order_by: Vec<String>,
    pub limit: usize,
    pub max_results: Option<usize>,
    pub cursor: Option<String>,
    pub free_text_match: Option<String>,
    pub include_total_count: bool,
    pub timeseries_interval: Option<String>,
    pub from: Option<String>,
    pub to: Option<String>,
    pub scopes: Vec<String>,
    pub relation_limit: usize,
    pub raw: bool,
}

/// Why query options were refused.
#[derive(Debug, PartialEq, Eq)]
pub enum QueryError {
    QueryRequired,
    MissingKind,
    TopLevelOr,
    FreeTextField,
    LimitOutOfRange { name: String, maximum: usize, value: usize },
    MaxResultsWithRaw,
    RangeWithInterval,
    RangeReversed,
    RangeIncomplete,
    IntervalNotPositive,
    InvalidInterval(String),
    InvalidTime(String),
    InvalidDuration(String),
    DottedKindScopes,
    ScopeSyntax,
    InvalidScope { name: String, value: String },
    DuplicateScope(String),
    InvalidFreeTextMatch(String),
    SelectionSyntax { flag: String, value: String },
    InvalidFieldName { flag: String, value: String },
    InvalidKindName(String),
    FieldConflict(String),
    EdgeFieldsWithoutInclude(String),
    FieldsWithoutInclude,
    InvalidOrderBy(String),
    InvalidDirection { direction: String, field: String },
    EmptyName(String),
    NoNames(String),
    CountSyntax(String),
    InvalidCount(String),
    DuplicateCount(String),
    EmptySearch,
}

/// [`QueryError`] with its texts as character sequences.
pub enum QErr {
    QueryRequired,
    MissingKind,
    TopLevelOr,
    FreeTextField,
    LimitOutOfRange { name: Seq<char>, maximum: usize, value: usize },
    MaxResultsWithRaw,
    RangeWithInterval,
    RangeReversed,
    RangeIncomplete,
    IntervalNotPositive,
    InvalidInterval(Seq<char>),
    InvalidTime(Seq<char>),
    InvalidDuration(Seq<char>),
    DottedKindScopes,
    ScopeSyntax,
    InvalidScope { name: Seq<char>, value: Seq<char> },
    DuplicateScope(Seq<char>),
    InvalidFreeTextMatch(Seq<char>),
    SelectionSyntax { flag: Seq<char>, value: Seq<char> },
    InvalidFieldName { flag: Seq<char>, value: Seq<char> },
    InvalidKindName(Seq<char>),
    FieldConflict(Seq<char>),
    EdgeFieldsWithoutInclude(Seq<char>),
    FieldsWithoutInclude,
    InvalidOrderBy(Seq<char>),
    InvalidDirection { direction: Seq<char>, field: Seq<char> },
    EmptyName(Seq<char>),
    NoNames(Seq<char>),
    CountSyntax(Seq<char>),
    InvalidCount(Seq<char>),
    DuplicateCount(Seq<char>),
    EmptySearch,
}

impl View for QueryError {
    type V = QErr;

    open spec fn view(&self) -> QErr {
        match self {
            QueryError::QueryRequired => QErr::QueryRequired,
            QueryError::MissingKind => QErr::MissingKind,
            QueryError::TopLevelOr => QErr::TopLevelOr,
            QueryError::FreeTextField => QErr::FreeTextField,
            QueryError::LimitOutOfRange { name, maximum, value } => QErr::LimitOutOfRange {
                name: name@,
                maximum: *maximum,
                value: *value,
            },
            QueryError::MaxResultsWithRaw => QErr::MaxResultsWithRaw,
            QueryError::RangeWithInterval => QErr::RangeWithInterval,
            QueryError::RangeReversed => QErr::RangeReversed,
            QueryError::RangeIncomplete => QErr::RangeIncomplete,
            QueryError::IntervalNotPositive => QErr::IntervalNotPositive,
            QueryError::InvalidInterval(s) => QErr::InvalidInterval(s@),
            QueryError::InvalidTime(s) => QErr::InvalidTime(s@),
            QueryError::InvalidDuration(s) => QErr::InvalidDuration(s@),
            QueryError::DottedKindScopes => QErr::DottedKindScopes,
            QueryError::ScopeSyntax => QErr::ScopeSyntax,
            QueryError::InvalidScope { name, value } => QErr::InvalidScope {
                name: name@,
                value: value@,
            },
            QueryError::DuplicateScope(s) => QErr::DuplicateScope(s@),
            QueryError::InvalidFreeTextMatch(s) => QErr::InvalidFreeTextMatch(s@),
            QueryError::SelectionSyntax { flag, value } => QErr::SelectionSyntax {
                flag: flag@,
                value: value@,
            },
            QueryError::InvalidFieldName { flag, value } => QErr::InvalidFieldName {
                flag: flag@,
                value: value@,
            },
            QueryError::InvalidKindName(s) => QErr::InvalidKindName(s@),
            QueryError::FieldConflict(s) => QErr::FieldConflict(s@),
            QueryError::EdgeFieldsWithoutInclude(s) => QErr::EdgeFieldsWithoutInclude(s@),
            QueryError::FieldsWithoutInclude => QErr::FieldsWithoutInclude,
            QueryError::InvalidOrderBy(s) => QErr::InvalidOrderBy(s@),
            QueryError::InvalidDirection { direction, field } => QErr::InvalidDirection {
                direction: direction@,
                field: field@,
            },
            QueryError::EmptyName(f) => QErr::EmptyName(f@),
            QueryError::NoNames(f) => QErr::NoNames(f@),
            QueryError::CountSyntax(c) => QErr::CountSyntax(c@),
            QueryError::InvalidCount(c) => QErr::InvalidCount(c@),
            QueryError::DuplicateCount(n) => QErr::DuplicateCount(n@),
            QueryError::EmptySearch => QErr::EmptySearch,
        }
    }
}

/// The user-facing message of a refusal.
pub open spec fn query_error_message(e: QErr) -> Seq<char> {
    match e {
        QErr::QueryRequired => "query is required"@,
        QErr::MissingKind => "query must include kind:<kind> or ref:\"ref:<kind>:<id>\"; quoted kind filters like kind:\"service\" are invalid"@,
        QErr::TopLevelOr => "top-level OR is invalid because the entity graph cannot determine one result kind; keep kind:<kind> or ref:\"ref:<kind>:<id>\" in the shared scope, for example kind:service AND (owner:idp OR team:idp)"@,
        QErr::FreeTextField => "free_text is not an entity field; use name:*text* for a field filter, or a bare term such as 'kind:service AND catalog' with --free-text-match partial"@,
        QErr::LimitOutOfRange { name, maximum, value } => "--"@ + name + " must be between 1 and "@
            + decimal(maximum as int) + ", got "@ + decimal(value as int),
        QErr::MaxResultsWithRaw => "--max-results cannot be combined with --raw; raw mode returns one API response"@,
        QErr::RangeWithInterval => "--from/--to cannot be combined with --timeseries-interval"@,
        QErr::RangeReversed => "--from must be earlier than --to"@,
        QErr::RangeIncomplete => "--from and --to must be supplied together"@,
        QErr::IntervalNotPositive => "--timeseries-interval must be positive"@,
        QErr::InvalidInterval(i) => "invalid timeseries interval "@ + debug_quoted(i)
            + ": use a positive duration such as 1h, 24h, or 7d"@,
        QErr::InvalidTime(t) => "unable to parse time "@ + debug_quoted(t)
            + ": use an RFC 3339 timestamp such as 2026-09-17T10:00:00Z"@,
        QErr::InvalidDuration(d) => "unable to parse duration \""@ + d + "\""@,
        QErr::DottedKindScopes => "the UEG HTTP API does not support property scope parameters for dotted kind names"@,
        QErr::ScopeSyntax => "invalid --scope: use <name>=<value>"@,
        QErr::InvalidScope { name, value } => "invalid --scope "@ + name + "="@ + value
            + ": use nonempty names and values supported by the UEG scope API"@,
        QErr::DuplicateScope(n) => "duplicate --scope "@ + debug_quoted(n),
        QErr::InvalidFreeTextMatch(v) => "invalid free-text match "@ + debug_quoted(v)
            + ": use partial or fuzzy with a bare search term such as 'kind:service AND catalog'"@,
        QErr::SelectionSyntax { flag, value } => "invalid --"@ + flag + " "@ + debug_quoted(value)
            + ": use <kind-or-relation>=<field>,<field>"@,
        QErr::InvalidFieldName { flag, value } => "invalid --"@ + flag + " "@ + debug_quoted(value)
            + ": field names cannot be empty or contain '='"@,
        QErr::InvalidKindName(k) => "invalid kind or relation name "@ + debug_quoted(k)
            + ": use ASCII letters, digits, '.', '_' or '-'"@,
        QErr::FieldConflict(k) => "use either --field or --fields "@ + k
            + "=... for the result kind, not both"@,
        QErr::EdgeFieldsWithoutInclude(r) => "--edge-fields "@ + r + "=... requires --include "@
            + r,
        QErr::FieldsWithoutInclude => "--fields for related kinds requires --include to expand their relations"@,
        QErr::InvalidOrderBy(v) => "invalid --order-by "@ + debug_quoted(v)
            + ": use <field> or <field>:<asc|desc>"@,
        QErr::InvalidDirection { direction, field } => "invalid --order-by direction "@
            + debug_quoted(direction) + " for field "@ + debug_quoted(field)
            + ": use asc or desc"@,
        QErr::EmptyName(f) => "--"@ + f + " cannot contain an empty field name"@,
        QErr::NoNames(f) => "at least one --"@ + f + " is required"@,
        QErr::CountSyntax(c) => "invalid --count "@ + debug_quoted(c) + ": use <name>=<filter>"@,
        QErr::InvalidCount(c) => "invalid --count "@ + debug_quoted(c)
            + ": use a name containing letters, numbers, or underscores and a nonempty filter"@,
        QErr::DuplicateCount(n) => "duplicate count name "@ + debug_quoted(n)
            + "; 'count' is the built-in total per group"@,
        QErr::EmptySearch => "search query cannot be empty"@,
    }
}

fn cat5(a: &str, b: &str, c: &str, d: &str, e: &str) -> (r: String)
    ensures
        r@ == a@ + b@ + c@ + d@ + e@,
{
    let x = concat3(a, b, c);
    concat3(x.as_str(), d, e)
}

impl QueryError {
    /// The user-facing message (see [`query_error_message`]).
    pub fn to_string(&self) -> (r: String)
        ensures
            r@ == query_error_message(self@),
    {
        match self {
            QueryError::QueryRequired => owned("query is required"),
            QueryError::MissingKind => owned("query must include kind:<kind> or ref:\"ref:<kind>:<id>\"; quoted kind filters like kind:\"service\" are invalid"),
            QueryError::TopLevelOr => owned("top-level OR is invalid because the entity graph cannot determine one result kind; keep kind:<kind> or ref:\"ref:<kind>:<id>\" in the shared scope, for example kind:service AND (owner:idp OR team:idp)"),
            QueryError::FreeTextField => owned("free_text is not an entity field; use name:*text* for a field filter, or a bare term such as 'kind:service AND catalog' with --free-text-match partial"),
            QueryError::LimitOutOfRange { name, maximum, value } => {
                let m = usize_to_string(*maximum);
                let v = usize_to_string(*value);
                let head = cat5("--", name.as_str(), " must be between 1 and ", m.as_str(), ", got ");
                concat2(head.as_str(), v.as_str())
            },
            QueryError::MaxResultsWithRaw => owned("--max-results cannot be combined with --raw; raw mode returns one API response"),
            QueryError::RangeWithInterval => owned("--from/--to cannot be combined with --timeseries-interval"),
            QueryError::RangeReversed => owned("--from must be earlier than --to"),
            QueryError::RangeIncomplete => owned("--from and --to must be supplied together"),
            QueryError::IntervalNotPositive => owned("--timeseries-interval must be positive"),
            QueryError::InvalidInterval(i) => concat3(
                "invalid timeseries interval ",
                debug_str(i.as_str()).as_str(),
                ": use a positive duration such as 1h, 24h, or 7d",
            ),
            QueryError::InvalidTime(t) => concat3(
                "unable to parse time ",
                debug_str(t.as_str()).as_str(),
                ": use an RFC 3339 timestamp such as 2026-09-17T10:00:00Z",
            ),
            QueryError::InvalidDuration(d) => concat3("unable to parse duration \"", d.as_str(), "\""),
            QueryError::DottedKindScopes => owned("the UEG HTTP API does not support property scope parameters for dotted kind names"),
            QueryError::ScopeSyntax => owned("invalid --scope: use <name>=<value>"),
            QueryError::InvalidScope { name, value } => cat5(
                "invalid --scope ",
                name.as_str(),
                "=",
                value.as_str(),
                ": use nonempty names and values supported by the UEG scope API",
            ),
            QueryError::DuplicateScope(n) => concat2("duplicate --scope ", debug_str(n.as_str()).as_str()),
            QueryError::InvalidFreeTextMatch(v) => concat3(
                "invalid free-text match ",
                debug_str(v.as_str()).as_str(),
                ": use partial or fuzzy with a bare search term such as 'kind:service AND catalog'",
            ),
            QueryError::SelectionSyntax { flag, value } => cat5(
                "invalid --",
                flag.as_str(),
                " ",
                debug_str(value.as_str()).as_str(),
                ": use <kind-or-relation>=<field>,<field>",
            ),
            QueryError::InvalidFieldName { flag, value } => cat5(
                "invalid --",
                flag.as_str(),
                " ",
                debug_str(value.as_str()).as_str(),
                ": field names cannot be empty or contain '='",
            ),
            QueryError::InvalidKindName(k) => concat3(
                "invalid kind or relation name ",
                debug_str(k.as_str()).as_str(),
                ": use ASCII letters, digits, '.', '_' or '-'",
            ),
            QueryError::FieldConflict(k) => concat3(
                "use either --field or --fields ",
                k.as_str(),
                "=... for the result kind, not both",
            ),
            QueryError::EdgeFieldsWithoutInclude(r) => {
                let head = concat3("--edge-fields ", r.as_str(), "=... requires --include ");
                concat2(head.as_str(), r.as_str())
            },
            QueryError::FieldsWithoutInclude => owned("--fields for related kinds requires --include to expand their relations"),
            QueryError::InvalidOrderBy(v) => concat3(
                "invalid --order-by ",
                debug_str(v.as_str()).as_str(),
                ": use <field> or <field>:<asc|desc>",
            ),
            QueryError::InvalidDirection { direction, field } => {
                let head = cat5(
                    "invalid --order-by direction ",
                    debug_str(direction.as_str()).as_str(),
                    " for field ",
                    debug_str(field.as_str()).as_str(),
                    ": use asc or desc",
                );
                head
            },
            QueryError::EmptyName(f) => concat3("--", f.as_str(), " cannot contain an empty field name"),
            QueryError::NoNames(f) => concat3("at least one --", f.as_str(), " is required"),
            QueryError::CountSyntax(c) => concat3(
                "invalid --count ",
                debug_str(c.as_str()).as_str(),
                ": use <name>=<filter>",
            ),
            QueryError::InvalidCount(c) => concat3(
                "invalid --count ",
                debug_str(c.as_str()).as_str(),
                ": use a name containing letters, numbers, or underscores and a nonempty filter",
            ),
            QueryError::DuplicateCount(n) => concat3(
                "duplicate count name ",
                debug_str(n.as_str()).as_str(),
                "; 'count' is the built-in total per group",
            ),
            QueryError::EmptySearch => owned("search query cannot be empty"),
        }
    }
}

/// Whether an executable result agrees with a specified one.
pub open spec fn agrees<T, V>(r: Result<T, QueryError>, s: Result<V, QErr>, f: spec_fn(T) -> V) -> bool {
    match (r, s) {
        (Ok(a), Ok(b)) => f(a) == b,
        (Err(e), Err(g)) => e@ == g,
        _ => false,
    }
}

/// The sequence views of a sequence of strings.
pub open spec fn views(v: Seq<String>) -> Seq<Seq<char>> {
    v.map_values(|s: String| s@)
}

/// The page-size style limits: between 1 and `maximum`.
pub open spec fn limit_check(name: Seq<char>, value: usize, maximum: usize) -> Result<(), QErr> {
    if value == 0 || value > maximum {
        Err(QErr::LimitOutOfRange { name, maximum, value })
    } else {
        Ok(())
    }
}

/// Checks that `value` lies in `1..=maximum`.
pub fn validate_limit(name: &str, value: usize, maximum: usize) -> (r: Result<(), QueryError>)
    ensures
        agrees(r, limit_check(name@, value, maximum), |u: ()| u),
{
    if value == 0 || value > maximum {
        return Err(QueryError::LimitOutOfRange { name: String::from_str(name), maximum, value });
    }
    Ok(())
}

/// The free-text match mode: `partial` or `fuzzy`, trimmed and ASCII-lowercased.
pub open spec fn free_text_mode(value: Option<Seq<char>>) -> Result<Option<Seq<char>>, QErr> {
    match value {
        None => Ok(None),
        Some(v) => {
            let n = ascii_lower(trim(v));
            if n == "partial"@ || n == "fuzzy"@ {
                Ok(Some(n))
            } else {
                Err(QErr::InvalidFreeTextMatch(v))
            }
        },
    }
}

/// Both documented modes are accepted, in any case and with surrounding
/// whitespace, and come back as `partial` or `fuzzy`; any other value is
/// refused with the value as given; no value means no mode.
pub proof fn law_free_text_modes(v: Seq<char>)
    ensures
        ascii_lower(trim(v)) == "fuzzy"@ ==> free_text_mode(Some(v)) == Ok::<Option<Seq<char>>, QErr>(
            Some("fuzzy"@),
        ),
        ascii_lower(trim(v)) == "partial"@ ==> free_text_mode(Some(v)) == Ok::<Option<Seq<char>>, QErr>(
            Some("partial"@),
        ),
        !(ascii_lower(trim(v)) == "fuzzy"@ || ascii_lower(trim(v)) == "partial"@) ==> free_text_mode(Some(v))
            == Err::<Option<Seq<char>>, QErr>(QErr::InvalidFreeTextMatch(v)),
        free_text_mode(None) == Ok::<Option<Seq<char>>, QErr>(None),
{
}

/// Normalizes the `--free-text-match` mode (see [`free_text_mode`]).
pub fn normalize_free_text_match(value: Option<String>) -> (r: Result<Option<String>, QueryError>)
    ensures
        agrees(r, free_text_mode(opt_view(value)), |o: Option<String>| opt_view(o)),
{
    match value {
        None => Ok(None),
        Some(v) => {
            let c = to_chars(v.as_str());
            let t = trim_chars(&c);
            let n = ascii_lower_chars(&t);
            if chars_eq(&n, &to_chars("partial")) || chars_eq(&n, &to_chars("fuzzy")) {
                Ok(Some(from_chars(&n)))
            } else {
                Err(QueryError::InvalidFreeTextMatch(v))
            }
        },
    }
}

/// The trimmed, nonblank values, in order.
pub open spec fn clean(s: Seq<Seq<char>>) -> Seq<Seq<char>>
    decreases s.len(),
{
    if s.len() == 0 {
        Seq::empty()
    } else if trim(s.last()).len() > 0 {
        clean(s.drop_last()).push(trim(s.last()))
    } else {
        clean(s.drop_last())
    }
}

/// Trims each value and drops the blank ones.
pub fn clean_strings(values: Vec<String>) -> (r: Vec<String>)
    ensures
        views(r@) == clean(views(values@)),
{
    let mut r: Vec<String> = Vec::new();
    let mut i: usize = 0;
    while i < values.len()
        invariant
            i <= values@.len(),
            views(r@) == clean(views(values@).take(i as int)),
        decreases values@.len() - i,
    {
        assert(views(values@).take(i + 1).drop_last() =~= views(values@).take(i as int));
        let t = trim_str(values[i].as_str());
        if !t.as_str().is_empty() {
            let ghost before = r@;
            r.push(t);
            assert(views(r@) =~= views(before).push(t@));
        }
        i += 1;
    }
    assert(views(values@).take(values@.len() as int) =~= views(values@));
    r
}

/// One `--order-by` value: `<field>` or `<field>:<asc|desc>`, normalized to
/// `<field>:<direction>` with the direction in lowercase.
pub open spec fn order_item(v: Seq<char>) -> Result<Seq<char>, QErr> {
    let parts = split_on(v, ':');
    let field = trim(parts[0]);
    let direction = if parts.len() > 1 {
        ascii_lower(trim(parts[1]))
    } else {
        "asc"@
    };
    if field.len() == 0 || parts.len() > 2 {
        Err(QErr::InvalidOrderBy(v))
    } else if direction != "asc"@ && direction != "desc"@ {
        Err(QErr::InvalidDirection { direction, field })
    } else {
        Ok(field + ":"@ + direction)
    }
}

/// All order items, stopping at the first refused one.
pub open spec fn order_all(s: Seq<Seq<char>>) -> Result<Seq<Seq<char>>, QErr>
    decreases s.len(),
{
    if s.len() == 0 {
        Ok(Seq::empty())
    } else {
        match order_all(s.drop_last()) {
            Err(e) => Err(e),
            Ok(p) => match order_item(s.last()) {
                Err(e) => Err(e),
                Ok(x) => Ok(p.push(x)),
            },
        }
    }
}

proof fn lemma_split_nonempty(s: Seq<char>, c: char)
    ensures
        split_on(s, c).len() >= 1,
    decreases s.len(),
{
    match first_index(s, c) {
        Some(i) => if 0 <= i < s.len() {
            lemma_split_nonempty(s.skip(i + 1), c);
        },
        None => {},
    }
}

fn order_one(value: &String) -> (r: Result<String, QueryError>)
    ensures
        agrees(r, order_item(value@), |s: String| s@),
{
    let v = to_chars(value.as_str());
    let parts = split_chars(&v, ':');
    proof {
        lemma_split_nonempty(v@, ':');
    }
    assert(parts@[0]@ == split_on(v@, ':')[0]);
    let field = trim_chars(&parts[0]);
    let direction = if parts.len() > 1 {
        assert(parts@[1]@ == split_on(v@, ':')[1]);
        let t = trim_chars(&parts[1]);
        ascii_lower_chars(&t)
    } else {
        to_chars("asc")
    };
    if field.len() == 0 || parts.len() > 2 {
        return Err(QueryError::InvalidOrderBy(value.clone()));
    }
    if !chars_eq(&direction, &to_chars("asc")) && !chars_eq(&direction, &to_chars("desc")) {
        return Err(
            QueryError::InvalidDirection {
                direction: from_chars(&direction),
                field: from_chars(&field),
            },
        );
    }
    let mut out = from_chars(&field);
    push_char(&mut out, ':');
    push_chars(&mut out, &direction);
    assert(out@ =~= field@ + ":"@ + direction@) by {
        reveal_strlit(":");
    }
    Ok(out)
}

/// Normalizes `--order-by` values (see [`order_item`]) after dropping blank ones.
pub fn normalize_order_by(values: Vec<String>) -> (r: Result<Vec<String>, QueryError>)
    ensures
        agrees(r, order_all(clean(views(values@))), |v: Vec<String>| views(v@)),
{
    let cleaned = clean_strings(values);
    let mut out: Vec<String> = Vec::new();
    let mut i: usize = 0;
    assert(views(cleaned@).take(0) =~= Seq::<Seq<char>>::empty());
    assert(views(out@) =~= Seq::<Seq<char>>::empty());
    while i < cleaned.len()
        invariant
            i <= cleaned@.len(),
            views(cleaned@) == clean(views(values@)),
            order_all(views(cleaned@).take(i as int)) == Ok::<Seq<Seq<char>>, QErr>(views(out@)),
        decreases cleaned@.len() - i,
    {
        assert(views(cleaned@).take(i + 1).drop_last() =~= views(cleaned@).take(i as int));
        assert(views(cleaned@)[i as int] == cleaned@[i as int]@);
        assert(views(cleaned@).take(i + 1).last() == cleaned@[i as int]@);
        match order_one(&cleaned[i]) {
            Err(e) => {
                proof {
                    assert(order_item(cleaned@[i as int]@) is Err);
                    assert(e@ == order_item(cleaned@[i as int]@)->Err_0);
                    lemma_order_all_err(views(cleaned@), i as int);
                    assert(order_all(views(cleaned@)) is Err);
                    assert(order_all(views(cleaned@))->Err_0 == e@);
                    assert(views(cleaned@) == clean(views(values@)));
                }
                return Err(e);
            },
            Ok(x) => {
                let ghost before = out@;
                out.push(x);
                assert(views(out@) =~= views(before).push(x@));
            },
        }
        i += 1;
    }
    assert(views(cleaned@).take(cleaned@.len() as int) =~= views(cleaned@));
    Ok(out)
}

proof fn lemma_order_all_err(s: Seq<Seq<char>>, i: int)
    requires
        0 <= i < s.len(),
        order_all(s.take(i)) is Ok,
        order_item(s[i]) is Err,
    ensures
        order_all(s) == Err::<Seq<Seq<char>>, QErr>(order_item(s[i])->Err_0),
    decreases s.len() - i,
{
    if i == s.len() - 1 {
        assert(s.drop_last() =~= s.take(i));
    } else {
        assert(s.drop_last().take(i) =~= s.take(i));
        lemma_order_all_err(s.drop_last(), i);
    }
}

/// A kind or relation name: nonempty, made of ASCII letters, digits, `_`, `.` and `-`.
pub open spec fn kind_name_ok(key: Seq<char>) -> bool {
    key.len() > 0 && forall|i: int|
        0 <= i < key.len() ==> is_ascii_alnum(#[trigger] key[i]) || key[i] == '_' || key[i]
            == '.' || key[i] == '-'
}

fn name_char(c: char) -> (r: bool)
    ensures
        r == (is_ascii_alnum(c) || c == '_' || c == '.' || c == '-'),
{
    ('0' <= c && c <= '9') || ('a' <= c && c <= 'z') || ('A' <= c && c <= 'Z') || c == '_' || c
        == '.' || c == '-'
}

/// Checks a kind or relation name (see [`kind_name_ok`]).
pub fn validate_kind_name(key: &str) -> (r: Result<(), QueryError>)
    ensures
        agrees(
            r,
            if kind_name_ok(key@) {
                Ok(())
            } else {
                Err(QErr::InvalidKindName(key@))
            },
            |u: ()| u,
        ),
{
    let v = to_chars(key);
    if v.len() == 0 {
        return Err(QueryError::InvalidKindName(String::from_str(key)));
    }
    let mut i: usize = 0;
    while i < v.len()
        invariant
            i <= v@.len(),
            v@ == key@,
            forall|j: int|
                0 <= j < i ==> is_ascii_alnum(#[trigger] v@[j]) || v@[j] == '_' || v@[j] == '.'
                    || v@[j] == '-',
        decreases v@.len() - i,
    {
        if !name_char(v[i]) {
            return Err(QueryError::InvalidKindName(String::from_str(key)));
        }
        i += 1;
    }
    Ok(())
}


/// Characters allowed in a scope name.
pub open spec fn scope_name_char(c: char) -> bool {
    is_ascii_alnum(c) || c == '.' || c == '_' || c == '-'
}

/// Characters allowed in a scope value.
pub open spec fn scope_value_char(c: char) -> bool {
    is_ascii_alnum(c) || c == '.' || c == ':' || c == '_' || c == '-'
}

/// One `--scope <name>=<value>`, trimmed on both sides.
pub open spec fn scope_entry(v: Seq<char>) -> Result<(Seq<char>, Seq<char>), QErr> {
    match split_once(v, '=') {
        None => Err(QErr::ScopeSyntax),
        Some((n, val)) => {
            let name = trim(n);
            let value = trim(val);
            if name.len() == 0 || value.len() == 0 || !(forall|i: int|
                0 <= i < name.len() ==> scope_name_char(#[trigger] name[i])) || !(forall|i: int|
                0 <= i < value.len() ==> scope_value_char(#[trigger] value[i])) {
                Err(QErr::InvalidScope { name, value })
            } else {
                Ok((name, value))
            }
        },
    }
}

/// All scopes, refusing a repeated name; stops at the first refused value.
pub open spec fn scope_fold(vs: Seq<Seq<char>>) -> Result<Map<Seq<char>, Seq<char>>, QErr>
    decreases vs.len(),
{
    if vs.len() == 0 {
        Ok(Map::empty())
    } else {
        match scope_fold(vs.drop_last()) {
            Err(e) => Err(e),
            Ok(m) => match scope_entry(vs.last()) {
                Err(e) => Err(e),
                Ok((n, v)) => if m.dom().contains(n) {
                    Err(QErr::DuplicateScope(n))
                } else {
                    Ok(m.insert(n, v))
                },
            },
        }
    }
}

/// The scopes of a query of result kind `kind`; dotted kinds take no scopes.
pub open spec fn scopes_spec(vs: Seq<Seq<char>>, kind: Seq<char>) -> Result<Map<Seq<char>, Seq<char>>, QErr> {
    if vs.len() > 0 && kind.contains('.') {
        Err(QErr::DottedKindScopes)
    } else {
        scope_fold(vs)
    }
}

/// The map that a sorted scope list denotes.
pub open spec fn scope_view(m: Seq<(String, String)>) -> Map<Seq<char>, Seq<char>> {
    map_view(m, |s: String| s@)
}

fn all_chars(v: &[char], value_chars: bool) -> (r: bool)
    ensures
        r == (forall|i: int|
            0 <= i < v@.len() ==> (if value_chars {
                scope_value_char(#[trigger] v@[i])
            } else {
                scope_name_char(v@[i])
            })),
{
    let mut i: usize = 0;
    while i < v.len()
        invariant
            i <= v@.len(),
            forall|j: int|
                0 <= j < i ==> (if value_chars {
                    scope_value_char(#[trigger] v@[j])
                } else {
                    scope_name_char(v@[j])
                }),
        decreases v@.len() - i,
    {
        let c = v[i];
        let ok = ('0' <= c && c <= '9') || ('a' <= c && c <= 'z') || ('A' <= c && c <= 'Z') || c
            == '.' || c == '_' || c == '-' || (value_chars && c == ':');
        if !ok {
            return false;
        }
        i += 1;
    }
    true
}

fn scope_one(value: &String) -> (r: Result<(Vec<char>, Vec<char>), QueryError>)
    ensures
        agrees(r, scope_entry(value@), |p: (Vec<char>, Vec<char>)| (p.0@, p.1@)),
{
    let v = to_chars(value.as_str());
    match split_once_chars(&v, '=') {
        None => Err(QueryError::ScopeSyntax),
        Some((n, val)) => {
            let name = trim_chars(&n);
            let value = trim_chars(&val);
            if name.len() == 0 || value.len() == 0 || !all_chars(&name, false) || !all_chars(
                &value,
                true,
            ) {
                Err(QueryError::InvalidScope { name: from_chars(&name), value: from_chars(&value) })
            } else {
                Ok((name, value))
            }
        },
    }
}

proof fn lemma_fold_err<T, E>(
    fold: spec_fn(Seq<Seq<char>>) -> Result<T, E>,
    s: Seq<Seq<char>>,
    i: int,
)
    requires
        0 <= i < s.len(),
        fold(s.take(i + 1)) is Err,
        forall|t: Seq<Seq<char>>|
            t.len() > 0 && (#[trigger] fold(t.drop_last())) is Err ==> fold(t) == fold(
                t.drop_last(),
            ),
    ensures
        fold(s) == fold(s.take(i + 1)),
    decreases s.len() - i,
{
    if i + 1 == s.len() {
        assert(s.take(i + 1) =~= s);
    } else {
        assert(s.drop_last().take(i + 1) =~= s.take(i + 1));
        lemma_fold_err(fold, s.drop_last(), i);
    }
}

/// Validates `--scope <name>=<value>` values into a map sorted by name
/// (see [`scopes_spec`]).
pub fn normalize_scopes(values: Vec<String>, kind: &str) -> (r: Result<Vec<(String, String)>, QueryError>)
    ensures
        agrees(r, scopes_spec(views(values@), kind@), |m: Vec<(String, String)>| scope_view(m@)),
        r matches Ok(m) ==> keys_sorted(m@),
{
    let kc = to_chars(kind);
    if values.len() > 0 && contains_char(&kc, '.') {
        return Err(QueryError::DottedKindScopes);
    }
    let mut scopes: Vec<(String, String)> = Vec::new();
    let mut i: usize = 0;
    assert(views(values@).take(0) =~= Seq::<Seq<char>>::empty());
    assert(scope_view(scopes@) =~= Map::<Seq<char>, Seq<char>>::empty());
    while i < values.len()
        invariant
            i <= values@.len(),
            keys_sorted(scopes@),
            scopes_spec(views(values@), kind@) == scope_fold(views(values@)),
            scope_fold(views(values@).take(i as int)) == Ok::<Map<Seq<char>, Seq<char>>, QErr>(
                scope_view(scopes@),
            ),
        decreases values@.len() - i,
    {
        let ghost pre = views(values@).take(i as int);
        assert(views(values@).take(i + 1).drop_last() =~= pre);
        assert(views(values@).take(i + 1).last() == values@[i as int]@);
        proof {
            assert forall|t: Seq<Seq<char>>|
                t.len() > 0 && (#[trigger] scope_fold(t.drop_last())) is Err implies scope_fold(t)
                == scope_fold(t.drop_last()) by {}
        }
        match scope_one(&values[i]) {
            Err(e) => {
                proof {
                    lemma_fold_err(|t: Seq<Seq<char>>| scope_fold(t), views(values@), i as int);
                    assert(views(values@).take(values@.len() as int) =~= views(values@));
                }
                return Err(e);
            },
            Ok((name, value)) => {
                match find_key(&scopes, &name) {
                    Some(_) => {
                        proof {
                            assert(scope_view(scopes@).dom().contains(name@));
                            lemma_fold_err(
                                |t: Seq<Seq<char>>| scope_fold(t),
                                views(values@),
                                i as int,
                            );
                        }
                        return Err(QueryError::DuplicateScope(from_chars(&name)));
                    },
                    None => {
                        let ghost old_scopes = scopes@;
                        let ns = from_chars(&name);
                        let vs = from_chars(&value);
                        insert_sorted(&mut scopes, ns, vs);
                        proof {
                            let p = choose|p: int|
                                0 <= p <= old_scopes.len() && scopes@ == old_scopes.insert(
                                    p,
                                    (ns, vs),
                                );
                            lemma_map_view_insert(old_scopes, scopes@, p, ns, vs, |s: String| s@);
                            assert(!scope_view(old_scopes).dom().contains(name@));
                        }
                    },
                }
            },
        }
        i += 1;
    }
    assert(views(values@).take(values@.len() as int) =~= views(values@));
    Ok(scopes)
}


/// The comma-separated field names of a selection, trimmed.
pub open spec fn field_list(fields: Seq<char>) -> Seq<Seq<char>> {
    split_on(fields, ',').map_values(|f: Seq<char>| trim(f))
}

/// One `--fields`/`--edge-fields` value: `<kind-or-relation>=<field>,<field>`.
pub open spec fn sel_entry(v: Seq<char>, flag: Seq<char>) -> Result<(Seq<char>, Seq<Seq<char>>), QErr> {
    match split_once(v, '=') {
        None => Err(QErr::SelectionSyntax { flag, value: v }),
        Some((k, f)) => {
            let key = trim(k);
            let parts = field_list(f);
            if !kind_name_ok(key) {
                Err(QErr::InvalidKindName(key))
            } else if exists|i: int|
                0 <= i < parts.len() && ((#[trigger] parts[i]).len() == 0 || parts[i].contains(
                    '=',
                )) {
                Err(QErr::InvalidFieldName { flag, value: v })
            } else {
                Ok((key, parts))
            }
        },
    }
}

/// Appends the fields of `new` not yet in `acc`, in order.
pub open spec fn merge_fields(acc: Seq<Seq<char>>, new: Seq<Seq<char>>) -> Seq<Seq<char>>
    decreases new.len(),
{
    if new.len() == 0 {
        acc
    } else {
        let a = merge_fields(acc, new.drop_last());
        if a.contains(new.last()) {
            a
        } else {
            a.push(new.last())
        }
    }
}

/// All selections, merged per key; stops at the first refused value.
pub open spec fn sel_fold(vs: Seq<Seq<char>>, flag: Seq<char>) -> Result<Map<Seq<char>, Seq<Seq<char>>>, QErr>
    decreases vs.len(),
{
    if vs.len() == 0 {
        Ok(Map::empty())
    } else {
        match sel_fold(vs.drop_last(), flag) {
            Err(e) => Err(e),
            Ok(m) => match sel_entry(vs.last(), flag) {
                Err(e) => Err(e),
                Ok((key, parts)) => Ok(
                    m.insert(
                        key,
                        merge_fields(
                            if m.dom().contains(key) {
                                m[key]
                            } else {
                                Seq::empty()
                            },
                            parts,
                        ),
                    ),
                ),
            },
        }
    }
}

/// The map that a sorted selection list denotes.
pub open spec fn selection_view(m: Seq<(String, Vec<String>)>) -> Map<Seq<char>, Seq<Seq<char>>> {
    map_view(m, |v: Vec<String>| views(v@))
}

/// Whether `v` holds a string equal to `c`.
pub fn contains_string(v: &Vec<String>, c: &[char]) -> (r: bool)
    ensures
        r == views(v@).contains(c@),
{
    let mut i: usize = 0;
    while i < v.len()
        invariant
            i <= v@.len(),
            forall|j: int| 0 <= j < i ==> v@[j]@ != c@,
        decreases v@.len() - i,
    {
        let x = to_chars(v[i].as_str());
        if chars_eq(&x, c) {
            assert(views(v@)[i as int] == c@);
            return true;
        }
        i += 1;
    }
    assert forall|j: int| 0 <= j < views(v@).len() implies views(v@)[j] != c@ by {
        assert(views(v@)[j] == v@[j]@);
    }
    false
}

fn merge_into(acc: &mut Vec<String>, parts: &Vec<Vec<char>>)
    ensures
        views(final(acc)@) == merge_fields(views(old(acc)@), parts@.map_values(|p: Vec<char>| p@)),
{
    let ghost start = views(acc@);
    let ghost pv = parts@.map_values(|p: Vec<char>| p@);
    let mut i: usize = 0;
    assert(pv.take(0) =~= Seq::<Seq<char>>::empty());
    while i < parts.len()
        invariant
            i <= parts@.len(),
            pv == parts@.map_values(|p: Vec<char>| p@),
            views(acc@) == merge_fields(start, pv.take(i as int)),
        decreases parts@.len() - i,
    {
        assert(pv.take(i + 1).drop_last() =~= pv.take(i as int));
        assert(pv.take(i + 1).last() == parts@[i as int]@);
        if !contains_string(acc, &parts[i]) {
            let ghost before = views(acc@);
            acc.push(from_chars(&parts[i]));
            assert(views(acc@) =~= before.push(parts@[i as int]@));
        }
        i += 1;
    }
    assert(pv.take(parts@.len() as int) =~= pv);
}

fn selection_one(value: &String, flag: &str) -> (r: Result<(Vec<char>, Vec<Vec<char>>), QueryError>)
    ensures
        agrees(
            r,
            sel_entry(value@, flag@),
            |p: (Vec<char>, Vec<Vec<char>>)| (p.0@, p.1@.map_values(|x: Vec<char>| x@)),
        ),
{
    let v = to_chars(value.as_str());
    match split_once_chars(&v, '=') {
        None => Err(QueryError::SelectionSyntax { flag: String::from_str(flag), value: value.clone() }),
        Some((k, f)) => {
            let key = trim_chars(&k);
            let key_s = from_chars(&key);
            match validate_kind_name(key_s.as_str()) {
                Err(e) => {
                    return Err(e);
                },
                Ok(()) => {},
            }
            let raw = split_chars(&f, ',');
            let mut parts: Vec<Vec<char>> = Vec::new();
            let ghost want = field_list(f@);
            let mut i: usize = 0;
            while i < raw.len()
                invariant
                    i <= raw@.len(),
                    raw@.map_values(|p: Vec<char>| p@) == split_on(f@, ','),
                    want == field_list(f@),
                    split_once(value@, '=') == Some((k@, f@)),
                    key@ == trim(k@),
                    kind_name_ok(key@),
                    parts@.len() == i,
                    forall|j: int| 0 <= j < i ==> (#[trigger] parts@[j])@ == want[j],
                    forall|j: int|
                        0 <= j < i ==> (#[trigger] want[j]).len() > 0 && !want[j].contains('='),
                decreases raw@.len() - i,
            {
                let t = trim_chars(&raw[i]);
                assert(want[i as int] == trim(raw@[i as int]@));
                if t.len() == 0 || contains_char(&t, '=') {
                    assert(want[i as int].len() == 0 || want[i as int].contains('='));
                    return Err(
                        QueryError::InvalidFieldName { flag: String::from_str(flag), value: value.clone() },
                    );
                }
                parts.push(t);
                i += 1;
            }
            assert(parts@.map_values(|x: Vec<char>| x@) =~= want);
            Ok((key, parts))
        },
    }
}

/// Parses `<kind-or-relation>=<field>,<field>` values into a map sorted by key,
/// merging repeated keys without repeating fields (see [`sel_fold`]).
pub fn parse_field_selections(values: Vec<String>, flag: &str) -> (r: Result<Vec<(String, Vec<String>)>, QueryError>)
    ensures
        agrees(r, sel_fold(views(values@), flag@), |m: Vec<(String, Vec<String>)>| selection_view(m@)),
        r matches Ok(m) ==> keys_sorted(m@),
{
    let mut sel: Vec<(String, Vec<String>)> = Vec::new();
    let mut i: usize = 0;
    assert(views(values@).take(0) =~= Seq::<Seq<char>>::empty());
    assert(selection_view(sel@) =~= Map::<Seq<char>, Seq<Seq<char>>>::empty());
    while i < values.len()
        invariant
            i <= values@.len(),
            keys_sorted(sel@),
            sel_fold(views(values@).take(i as int), flag@) == Ok::<Map<Seq<char>, Seq<Seq<char>>>, QErr>(
                selection_view(sel@),
            ),
        decreases values@.len() - i,
    {
        let ghost pre = views(values@).take(i as int);
        assert(views(values@).take(i + 1).drop_last() =~= pre);
        assert(views(values@).take(i + 1).last() == values@[i as int]@);
        match selection_one(&values[i], flag) {
            Err(e) => {
                proof {
                    assert forall|t: Seq<Seq<char>>|
                        t.len() > 0 && (#[trigger] sel_fold(t.drop_last(), flag@)) is Err implies sel_fold(t, flag@)
                        == sel_fold(t.drop_last(), flag@) by {}
                    lemma_fold_err(|t: Seq<Seq<char>>| sel_fold(t, flag@), views(values@), i as int);
                    assert(views(values@).take(values@.len() as int) =~= views(values@));
                }
                return Err(e);
            },
            Ok((key, parts)) => {
                let ghost m = selection_view(sel@);
                match find_key(&sel, &key) {
                    Some(idx) => {
                        let ghost old_sel = sel@;
                        proof {
                            lemma_key_index_unique(sel@, idx as int, key@);
                        }
                        let mut fields = replace_value(&mut sel, idx, Vec::new());
                        assert(views(fields@) == m[key@]);
                        merge_into(&mut fields, &parts);
                        let ghost mid = sel@;
                        replace_value(&mut sel, idx, fields);
                        proof {
                            assert(sel@ == old_sel.update(idx as int, (old_sel[idx as int].0, fields)));
                            lemma_map_view_update(old_sel, idx as int, fields, |v: Vec<String>| views(v@));
                        }
                    },
                    None => {
                        let ghost old_sel = sel@;
                        let mut fields: Vec<String> = Vec::new();
                        assert(views(fields@) =~= Seq::<Seq<char>>::empty());
                        merge_into(&mut fields, &parts);
                        let ks = from_chars(&key);
                        insert_sorted(&mut sel, ks, fields);
                        proof {
                            let p = choose|p: int|
                                0 <= p <= old_sel.len() && sel@ == old_sel.insert(p, (ks, fields));
                            lemma_map_view_insert(old_sel, sel@, p, ks, fields, |v: Vec<String>| views(v@));
                            assert(!m.dom().contains(key@));
                        }
                    },
                }
            },
        }
        i += 1;
    }
    assert(views(values@).take(values@.len() as int) =~= views(values@));
    Ok(sel)
}


/// Milliseconds since the Unix epoch of an RFC 3339 timestamp, as chrono parses it.
pub uninterp spec fn rfc3339_millis(s: Seq<char>) -> Option<i64>;

/// chrono's `DateTime::parse_from_rfc3339` followed by `timestamp_millis`.
#[verifier::external_body]
fn parse_rfc3339_millis(s: &str) -> (r: Option<i64>)
    ensures
        r == rfc3339_millis(s@),
{
    chrono::DateTime::parse_from_rfc3339(s).ok().map(|dt| dt.timestamp_millis())
}

/// The time window of a query: a lookback (`time[past]`) or absolute bounds.
#[derive(Debug)]
pub struct QueryTime {
    pub past: Option<String>,
    pub start: Option<i64>,
    pub end: Option<i64>,
}

/// [`QueryTime`] with its texts as character sequences.
pub open spec fn time_view(t: QueryTime) -> (Option<Seq<char>>, Option<i64>, Option<i64>) {
    (opt_view(t.past), t.start, t.end)
}

/// Whether some character is a nonzero digit.
pub open spec fn has_nonzero_digit(s: Seq<char>) -> bool {
    exists|i: int| 0 <= i < s.len() && '1' <= #[trigger] s[i] <= '9'
}

/// The lookback after mapping day and week units to milliseconds.
pub open spec fn lookback(iv: Seq<char>) -> Result<Seq<char>, QErr> {
    if iv.len() > 0 && (iv.last() == 'd' || iv.last() == 'w') {
        match duration_millis(iv) {
            None => Err(QErr::InvalidDuration(iv)),
            Some(m) => if m <= 0 {
                Err(QErr::IntervalNotPositive)
            } else {
                Ok(decimal(m) + "ms"@)
            },
        }
    } else {
        Ok(iv)
    }
}

/// The time window: both of `from`/`to` (RFC 3339, `from` earlier, no interval), or
/// neither, with a positive Go-duration lookback that defaults to `1h`; day and week
/// lookbacks are sent in milliseconds.
pub open spec fn time_spec(
    interval: Option<Seq<char>>,
    from: Option<Seq<char>>,
    to: Option<Seq<char>>,
) -> Result<(Option<Seq<char>>, Option<i64>, Option<i64>), QErr> {
    match (from, to) {
        (Some(f), Some(t)) => if interval is Some {
            Err(QErr::RangeWithInterval)
        } else {
            match (rfc3339_millis(f), rfc3339_millis(t)) {
                (None, _) => Err(QErr::InvalidTime(f)),
                (Some(_), None) => Err(QErr::InvalidTime(t)),
                (Some(start), Some(end)) => if start >= end {
                    Err(QErr::RangeReversed)
                } else {
                    Ok((None, Some(start), Some(end)))
                },
            }
        },
        (None, None) => {
            let iv = trim(
                match interval {
                    Some(i) => i,
                    None => "1h"@,
                },
            );
            if iv.len() > 0 && (iv[0] == '+' || iv[0] == '-') {
                Err(QErr::IntervalNotPositive)
            } else {
                match lookback(iv) {
                    Err(e) => Err(e),
                    Ok(p) => if !go_duration(p) || !has_nonzero_digit(p) {
                        Err(QErr::InvalidInterval(p))
                    } else {
                        Ok((Some(p), None, None))
                    },
                }
            }
        },
        _ => Err(QErr::RangeIncomplete),
    }
}

fn has_nonzero_digit_exec(v: &[char]) -> (r: bool)
    ensures
        r == has_nonzero_digit(v@),
{
    let mut i: usize = 0;
    while i < v.len()
        invariant
            i <= v@.len(),
            forall|j: int| 0 <= j < i ==> !('1' <= #[trigger] v@[j] <= '9'),
        decreases v@.len() - i,
    {
        if '1' <= v[i] && v[i] <= '9' {
            return true;
        }
        i += 1;
    }
    false
}

/// Validates the query's time window (see [`time_spec`]).
pub fn normalize_time(options: &EntityQueryOptions) -> (r: Result<QueryTime, QueryError>)
    ensures
        agrees(
            r,
            time_spec(
                opt_view(options.timeseries_interval),
                opt_view(options.from),
                opt_view(options.to),
            ),
            |t: QueryTime| time_view(t),
        ),
{
    match (&options.from, &options.to) {
        (Some(from), Some(to)) => {
            if options.timeseries_interval.is_some() {
                return Err(QueryError::RangeWithInterval);
            }
            let start = match parse_rfc3339_millis(from.as_str()) {
                Some(m) => m,
                None => {
                    return Err(QueryError::InvalidTime(from.clone()));
                },
            };
            let end = match parse_rfc3339_millis(to.as_str()) {
                Some(m) => m,
                None => {
                    return Err(QueryError::InvalidTime(to.clone()));
                },
            };
            if start >= end {
                return Err(QueryError::RangeReversed);
            }
            Ok(QueryTime { past: None, start: Some(start), end: Some(end) })
        },
        (None, None) => {
            let raw = match &options.timeseries_interval {
                Some(i) => to_chars(i.as_str()),
                None => to_chars("1h"),
            };
            let iv = trim_chars(&raw);
            if iv.len() > 0 && (iv[0] == '+' || iv[0] == '-') {
                return Err(QueryError::IntervalNotPositive);
            }
            let past: Vec<char> = if iv.len() > 0 && (iv[iv.len() - 1] == 'd' || iv[iv.len() - 1]
                == 'w') {
                let ivs = from_chars(&iv);
                let millis = match parse_duration_to_millis(ivs.as_str()) {
                    Ok(m) => m,
                    Err(_) => {
                        return Err(QueryError::InvalidDuration(ivs));
                    },
                };
                if millis <= 0 {
                    return Err(QueryError::IntervalNotPositive);
                }
                let mut p = i64_to_string(millis);
                p.append("ms");
                to_chars(p.as_str())
            } else {
                iv
            };
            let ps = from_chars(&past);
            if !is_valid_go_duration(ps.as_str()) || !has_nonzero_digit_exec(&past) {
                return Err(QueryError::InvalidInterval(ps));
            }
            Ok(QueryTime { past: Some(ps), start: None, end: None })
        },
        _ => Err(QueryError::RangeIncomplete),
    }
}


/// The result kind of a query from what was found in it: its inferred kind,
/// whether it has a top-level `OR`, and whether it filters on `free_text`.
pub open spec fn scope_from(kind: Option<Seq<char>>, top_or: bool, free_text: bool) -> Result<Seq<char>, QErr> {
    match kind {
        None => Err(QErr::MissingKind),
        Some(kind) => if top_or {
            Err(QErr::TopLevelOr)
        } else if free_text {
            Err(QErr::FreeTextField)
        } else {
            Ok(kind)
        },
    }
}

/// The result kind of a query, refusing a top-level `OR` and `free_text` filters.
pub open spec fn scope_check(query: Seq<char>) -> Result<Seq<char>, QErr> {
    scope_from(inferred_kind(query), top_level_or(query), mentions_free_text(query))
}

/// The kind check of a query from what was found in it (see [`scope_from`]).
pub fn scope_decision(kind: Option<String>, top_or: bool, free_text: bool) -> (r: Result<String, QueryError>)
    ensures
        agrees(
            r,
            scope_from(
                match kind {
                    Some(k) => Some(k@),
                    None => None,
                },
                top_or,
                free_text,
            ),
            |k: String| k@,
        ),
{
    let kind = match kind {
        Some(k) => k,
        None => {
            return Err(QueryError::MissingKind);
        },
    };
    if top_or {
        return Err(QueryError::TopLevelOr);
    }
    if free_text {
        return Err(QueryError::FreeTextField);
    }
    Ok(kind)
}

/// Checks that a query names one result kind (see [`scope_check`]) and returns that kind.
pub fn validate_query_scope(query: &str) -> (r: Result<String, QueryError>)
    ensures
        agrees(r, scope_check(query@), |k: String| k@),
{
    let kind = infer_kind(query);
    let top_or = has_semantic_top_level_or(query);
    let free_text = has_free_text_filter(query);
    scope_decision(kind, top_or, free_text)
}

/// The largest page size.
pub const MAX_PAGE_LIMIT: usize = 100;

/// The largest number of related entities sampled per relation.
pub const MAX_RELATION_LIMIT: usize = 100;

/// The largest result budget across pages.
pub const MAX_RESULTS: usize = 10_000;

/// Normalized query options.
#[derive(Debug)]
pub struct NormalizedQueryOptions {
    pub query: String,
    pub kind: String,
    pub fields: Vec<String>,
    pub explicit_fields: bool,
    pub fields_by_kind: Vec<(String, Vec<String>)>,
    pub edge_fields: Vec<(String, Vec<String>)>,
    pub includes: Vec<String>,
    pub order_by: Vec<String>,
    pub limit: usize,
    pub max_results: Option<usize>,
    pub cursor: Option<String>,
    pub free_text_match: Option<String>,
    pub include_total_count: bool,
    pub time: QueryTime,
    pub scopes: Vec<(String, String)>,
    pub relation_limit: usize,
    pub raw: bool,
}

/// [`NormalizedQueryOptions`] with texts as character sequences and maps as maps.
pub struct NormView {
    pub query: Seq<char>,
    pub kind: Seq<char>,
    pub fields: Seq<Seq<char>>,
    pub explicit_fields: bool,
    pub fields_by_kind: Map<Seq<char>, Seq<Seq<char>>>,
    pub edge_fields: Map<Seq<char>, Seq<Seq<char>>>,
    pub includes: Seq<Seq<char>>,
    pub order_by: Seq<Seq<char>>,
    pub limit: usize,
    pub max_results: Option<usize>,
    pub cursor: Option<Seq<char>>,
    pub free_text_match: Option<Seq<char>>,
    pub include_total_count: bool,
    pub time: (Option<Seq<char>>, Option<i64>, Option<i64>),
    pub scopes: Map<Seq<char>, Seq<char>>,
    pub relation_limit: usize,
    pub raw: bool,
}

pub open spec fn norm_view(n: NormalizedQueryOptions) -> NormView {
    NormView {
        query: n.query@,
        kind: n.kind@,
        fields: views(n.fields@),
        explicit_fields: n.explicit_fields,
        fields_by_kind: selection_view(n.fields_by_kind@),
        edge_fields: selection_view(n.edge_fields@),
        includes: views(n.includes@),
        order_by: views(n.order_by@),
        limit: n.limit,
        max_results: n.max_results,
        cursor: opt_view(n.cursor),
        free_text_match: opt_view(n.free_text_match),
        include_total_count: n.include_total_count,
        time: time_view(n.time),
        scopes: scope_view(n.scopes@),
        relation_limit: n.relation_limit,
        raw: n.raw,
    }
}

/// `--max-results` lies in `1..=10000` and is not combined with `--raw`.
pub open spec fn max_results_check(max_results: Option<usize>, raw: bool) -> Result<(), QErr> {
    match max_results {
        None => Ok(()),
        Some(m) => match limit_check("max-results"@, m, 10000) {
            Err(e) => Err(e),
            Ok(_) => if raw {
                Err(QErr::MaxResultsWithRaw)
            } else {
                Ok(())
            },
        },
    }
}

/// A cursor that is not blank.
pub open spec fn usable_cursor(c: Option<Seq<char>>) -> Option<Seq<char>> {
    match c {
        Some(v) => if trim(v).len() > 0 {
            Some(v)
        } else {
            None
        },
        None => None,
    }
}

/// The checks and normalizations up to the relation checks; `order_by` is left empty.
pub open spec fn normalize_prefix(o: EntityQueryOptions) -> Result<NormView, QErr> {
    normalize_prefix_in(o, scope_check(trim(o.query@)))
}

/// The outcome of a kind check (see [`scope_check`]) as texts.
pub open spec fn kind_check_view(scope: Result<String, QueryError>) -> Result<Seq<char>, QErr> {
    match scope {
        Ok(k) => Ok(k@),
        Err(e) => Err(e@),
    }
}

/// [`normalize_prefix`] with the outcome `scope` of the kind check given.
pub open spec fn normalize_prefix_in(o: EntityQueryOptions, scope: Result<Seq<char>, QErr>) -> Result<NormView, QErr> {
    let query = trim(o.query@);
    if query.len() == 0 {
        Err(QErr::QueryRequired)
    } else {
        match scope {
            Err(e) => Err(e),
            Ok(kind) => match limit_check("limit"@, o.limit, 100) {
                Err(e) => Err(e),
                Ok(_) => match max_results_check(o.max_results, o.raw) {
                    Err(e) => Err(e),
                    Ok(_) => match limit_check("relation-limit"@, o.relation_limit, 100) {
                        Err(e) => Err(e),
                        Ok(_) => match time_spec(
                            opt_view(o.timeseries_interval),
                            opt_view(o.from),
                            opt_view(o.to),
                        ) {
                            Err(e) => Err(e),
                            Ok(time) => match scopes_spec(views(o.scopes@), kind) {
                                Err(e) => Err(e),
                                Ok(scopes) => match free_text_mode(opt_view(o.free_text_match)) {
                                    Err(e) => Err(e),
                                    Ok(ftm) => match sel_fold(views(o.fields_by_kind@), "fields"@) {
                                        Err(e) => Err(e),
                                        Ok(fbk) => match sel_fold(
                                            views(o.edge_fields@),
                                            "edge-fields"@,
                                        ) {
                                            Err(e) => Err(e),
                                            Ok(edges) => {
                                                let fields0 = clean(views(o.fields@));
                                                if fbk.dom().contains(kind) && fields0.len() > 0 {
                                                    Err(QErr::FieldConflict(kind))
                                                } else {
                                                    let fields1 = if fbk.dom().contains(kind) {
                                                        fbk[kind]
                                                    } else {
                                                        fields0
                                                    };
                                                    let explicit = fields1.len() > 0;
                                                    Ok(
                                                        NormView {
                                                            query,
                                                            kind,
                                                            fields: if explicit {
                                                                fields1
                                                            } else {
                                                                default_fields(kind)
                                                            },
                                                            explicit_fields: explicit,
                                                            fields_by_kind: fbk.remove(kind),
                                                            edge_fields: edges,
                                                            includes: clean(views(o.includes@)),
                                                            order_by: Seq::empty(),
                                                            limit: o.limit,
                                                            max_results: o.max_results,
                                                            cursor: usable_cursor(opt_view(o.cursor)),
                                                            free_text_match: ftm,
                                                            include_total_count: o.include_total_count,
                                                            time,
                                                            scopes,
                                                            relation_limit: o.relation_limit,
                                                            raw: o.raw,
                                                        },
                                                    )
                                                }
                                            },
                                        },
                                    },
                                },
                            },
                        },
                    },
                },
            },
        }
    }
}

/// An edge-field relation that is not expanded with `--include`.
pub open spec fn edge_missing(a: NormView, k: Seq<char>) -> bool {
    a.edge_fields.dom().contains(k) && !a.includes.contains(k)
}

/// The relation checks passed.
pub open spec fn relations_ok(a: NormView) -> bool {
    &&& forall|k: Seq<char>| !edge_missing(a, k)
    &&& !((exists|k: Seq<char>| a.fields_by_kind.dom().contains(k)) && a.includes.len() == 0)
}

/// Whether the error of a refused query is the one the checks give, in their order;
/// of several unexpanded edge relations the first in key order is named.
pub open spec fn normalize_error(o: EntityQueryOptions, e: QErr) -> bool {
    normalize_error_in(o, scope_check(trim(o.query@)), e)
}

/// [`normalize_error`] with the outcome `scope` of the kind check given.
pub open spec fn normalize_error_in(o: EntityQueryOptions, scope: Result<Seq<char>, QErr>, e: QErr) -> bool {
    match normalize_prefix_in(o, scope) {
        Err(g) => e == g,
        Ok(a) => if exists|k: Seq<char>| edge_missing(a, k) {
            e matches QErr::EdgeFieldsWithoutInclude(r) && edge_missing(a, r) && forall|k: Seq<char>|
                edge_missing(a, k) ==> !lex_lt(k, r)
        } else if (exists|k: Seq<char>| a.fields_by_kind.dom().contains(k)) && a.includes.len() == 0 {
            e == QErr::FieldsWithoutInclude
        } else {
            order_all(clean(views(o.order_by@))) == Err::<Seq<Seq<char>>, QErr>(e)
        },
    }
}

/// Validates and normalizes query options, given the outcome `scope` of the
/// kind check of the trimmed query (see [`validate_query_scope`]): checks the
/// query, limits, the time window, scopes, free-text mode, field selections and
/// relations, fills in default fields, and normalizes the ordering.
#[verifier::loop_isolation(false)]
pub fn normalize_options_in_scope(options: EntityQueryOptions, scope: Result<String, QueryError>) -> (r: Result<NormalizedQueryOptions, QueryError>)
    ensures
        match r {
            Ok(n) => {
                &&& normalize_prefix_in(options, kind_check_view(scope)) matches Ok(a)
                &&& relations_ok(a)
                &&& order_all(clean(views(options.order_by@))) == Ok::<Seq<Seq<char>>, QErr>(views(n.order_by@))
                &&& norm_view(n) == NormView { order_by: views(n.order_by@), ..a }
                &&& keys_sorted(n.fields_by_kind@)
                &&& keys_sorted(n.edge_fields@)
                &&& keys_sorted(n.scopes@)
            },
            Err(e) => normalize_error_in(options, kind_check_view(scope), e@),
        },
{
    let ghost sv = kind_check_view(scope);
    let query = trim_str(options.query.as_str());
    if query.as_str().is_empty() {
        return Err(QueryError::QueryRequired);
    }
    let kind = match scope {
        Ok(k) => k,
        Err(e) => {
            return Err(e);
        },
    };
    match validate_limit("limit", options.limit, MAX_PAGE_LIMIT) {
        Err(e) => {
            return Err(e);
        },
        Ok(()) => {},
    }
    if let Some(max_results) = options.max_results {
        match validate_limit("max-results", max_results, MAX_RESULTS) {
            Err(e) => {
                return Err(e);
            },
            Ok(()) => {},
        }
        if options.raw {
            return Err(QueryError::MaxResultsWithRaw);
        }
    }
    match validate_limit("relation-limit", options.relation_limit, MAX_RELATION_LIMIT) {
        Err(e) => {
            return Err(e);
        },
        Ok(()) => {},
    }
    let time = match normalize_time(&options) {
        Ok(t) => t,
        Err(e) => {
            return Err(e);
        },
    };
    let EntityQueryOptions {
        query: _,
        fields,
        fields_by_kind,
        edge_fields,
        includes,
        order_by,
        limit,
        max_results,
        cursor,
        free_text_match,
        include_total_count,
        timeseries_interval: _,
        from: _,
        to: _,
        scopes,
        relation_limit,
        raw,
    } = options;
    let scopes = match normalize_scopes(scopes, kind.as_str()) {
        Ok(m) => m,
        Err(e) => {
            return Err(e);
        },
    };
    let free_text_match = match normalize_free_text_match(free_text_match) {
        Ok(m) => m,
        Err(e) => {
            return Err(e);
        },
    };
    let mut fields_by_kind = match parse_field_selections(fields_by_kind, "fields") {
        Ok(m) => m,
        Err(e) => {
            return Err(e);
        },
    };
    let edge_fields = match parse_field_selections(edge_fields, "edge-fields") {
        Ok(m) => m,
        Err(e) => {
            return Err(e);
        },
    };
    let ghost fbk = selection_view(fields_by_kind@);
    let mut fields = clean_strings(fields);
    let kind_chars = to_chars(kind.as_str());
    match find_key(&fields_by_kind, &kind_chars) {
        Some(idx) => {
            if fields.len() > 0 {
                return Err(QueryError::FieldConflict(kind));
            }
            proof {
                lemma_key_index_unique(fields_by_kind@, idx as int, kind@);
                lemma_map_view_remove(fields_by_kind@, idx as int, |v: Vec<String>| views(v@));
            }
            let (_, kind_fields) = fields_by_kind.remove(idx);
            fields = kind_fields;
        },
        None => {
            assert(selection_view(fields_by_kind@).remove(kind@) =~= selection_view(fields_by_kind@));
        },
    }
    let explicit_fields = fields.len() > 0;
    let fields: Vec<String> = if explicit_fields {
        fields
    } else {
        let defaults = default_fields_for_kind(kind.as_str());
        let mut out: Vec<String> = Vec::new();
        let mut i: usize = 0;
        while i < defaults.len()
            invariant
                i <= defaults@.len(),
                out@.len() == i,
                forall|j: int| 0 <= j < i ==> (#[trigger] out@[j])@ == defaults@[j]@,
            decreases defaults@.len() - i,
        {
            out.push(String::from_str(defaults[i]));
            i += 1;
        }
        assert(views(out@) =~= str_views(defaults@));
        out
    };
    let includes = clean_strings(includes);
    let mut e: usize = 0;
    while e < edge_fields.len()
        invariant
            e <= edge_fields@.len(),
            keys_sorted(edge_fields@),
            forall|j: int| 0 <= j < e ==> views(includes@).contains(#[trigger] edge_fields@[j].0@),
        decreases edge_fields@.len() - e,
    {
        let rel = to_chars(edge_fields[e].0.as_str());
        if !contains_string(&includes, &rel) {
            proof {
                let r = edge_fields@[e as int].0@;
                assert forall|k: Seq<char>|
                    selection_view(edge_fields@).dom().contains(k) && !views(includes@).contains(k)
                        implies !lex_lt(k, r) by {
                    let j = choose|j: int| 0 <= j < edge_fields@.len() && #[trigger] edge_fields@[j].0@ == k;
                    if j < e {
                        assert(views(includes@).contains(edge_fields@[j].0@));
                    } else if j > e {
                        crate::strmap::lemma_lex_asymmetric(r, k);
                    } else {
                        lemma_lex_irreflexive(k);
                    }
                }
                assert(has_key(edge_fields@, r));
                assert(normalize_prefix_in(options, sv) is Ok);
                let a = normalize_prefix_in(options, sv)->Ok_0;
                assert(a.edge_fields == selection_view(edge_fields@));
                assert(a.includes == views(includes@));
                assert(edge_missing(a, r));
            }
            return Err(QueryError::EdgeFieldsWithoutInclude(edge_fields[e].0.clone()));
        }
        e += 1;
    }
    assert forall|k: Seq<char>| selection_view(edge_fields@).dom().contains(k) implies views(
        includes@,
    ).contains(k) by {
        let j = choose|j: int| 0 <= j < edge_fields@.len() && #[trigger] edge_fields@[j].0@ == k;
        assert(views(includes@).contains(edge_fields@[j].0@));
    }
    if fields_by_kind.len() > 0 && includes.len() == 0 {
        proof {
            assert(selection_view(fields_by_kind@).dom().contains(fields_by_kind@[0].0@));
        }
        return Err(QueryError::FieldsWithoutInclude);
    }
    let order_by = match normalize_order_by(order_by) {
        Ok(v) => v,
        Err(e) => {
            return Err(e);
        },
    };
    let cursor = match cursor {
        Some(c) => {
            let t = trim_str(c.as_str());
            if t.as_str().is_empty() {
                None
            } else {
                Some(c)
            }
        },
        None => None,
    };
    Ok(
        NormalizedQueryOptions {
            query,
            kind,
            fields,
            explicit_fields,
            fields_by_kind,
            edge_fields,
            includes,
            order_by,
            limit,
            max_results,
            cursor,
            free_text_match,
            include_total_count,
            time,
            scopes,
            relation_limit,
            raw,
        },
    )
}


/// Validates and normalizes query options: trims the query and infers its result kind,
/// checks limits, the time window, scopes, free-text mode, field selections and
/// relations, fills in default fields, and normalizes the ordering.
pub fn normalize_options(options: EntityQueryOptions) -> (r: Result<NormalizedQueryOptions, QueryError>)
    ensures
        match r {
            Ok(n) => {
                &&& normalize_prefix(options) matches Ok(a)
                &&& relations_ok(a)
                &&& order_all(clean(views(options.order_by@))) == Ok::<Seq<Seq<char>>, QErr>(views(n.order_by@))
                &&& norm_view(n) == NormView { order_by: views(n.order_by@), ..a }
                &&& keys_sorted(n.fields_by_kind@)
                &&& keys_sorted(n.edge_fields@)
                &&& keys_sorted(n.scopes@)
            },
            Err(e) => normalize_error(options, e@),
        },
{
    let query = trim_str(options.query.as_str());
    let scope = validate_query_scope(query.as_str());
    assert(kind_check_view(scope) == scope_check(trim(options.query@)));
    normalize_options_in_scope(options, scope)
}

/// The kind whose default fields an expanded relation needs, for relations whose
/// related entities the API returns without their own fields.
pub open spec fn required_kind(kind: Seq<char>, relation: Seq<char>) -> Option<Seq<char>> {
    if kind == "integration.github.user"@ && (relation == "assigned_pull_requests"@ || relation
        == "authored_pull_requests"@ || relation == "reviewed_pull_requests"@ || relation
        == "reviewing_pull_requests"@) {
        Some("integration.github.pull_request"@)
    } else if kind == "integration.github.team"@ && relation == "reviewing_pull_requests"@ {
        Some("integration.github.pull_request"@)
    } else if kind == "integration.github.repository"@ && relation == "pull_requests"@ {
        Some("integration.github.pull_request"@)
    } else if kind == "github.repository"@ && relation == "pull_requests"@ {
        Some("github.pull_request"@)
    } else {
        None
    }
}

fn eq_lit(v: &[char], lit: &str) -> (r: bool)
    ensures
        r == (v@ == lit@),
{
    chars_eq(v, &to_chars(lit))
}

/// The kind whose default fields an expanded relation needs (see [`required_kind`]).
pub fn required_included_field_kind(kind: &str, relation: &str) -> (r: Option<&'static str>)
    ensures
        match r {
            Some(k) => required_kind(kind@, relation@) == Some(k@),
            None => required_kind(kind@, relation@) is None,
        },
{
    let k = to_chars(kind);
    let rel = to_chars(relation);
    if eq_lit(&k, "integration.github.user") && (eq_lit(&rel, "assigned_pull_requests") || eq_lit(
        &rel,
        "authored_pull_requests",
    ) || eq_lit(&rel, "reviewed_pull_requests") || eq_lit(&rel, "reviewing_pull_requests")) {
        Some("integration.github.pull_request")
    } else if eq_lit(&k, "integration.github.team") && eq_lit(&rel, "reviewing_pull_requests") {
        Some("integration.github.pull_request")
    } else if eq_lit(&k, "integration.github.repository") && eq_lit(&rel, "pull_requests") {
        Some("integration.github.pull_request")
    } else if eq_lit(&k, "github.repository") && eq_lit(&rel, "pull_requests") {
        Some("github.pull_request")
    } else {
        None
    }
}

/// The key that identifies an entity among included resources: `<kind>:<id>`.
pub fn entity_key(kind: &str, id: &str) -> (r: String)
    ensures
        r@ == kind@ + ":"@ + id@,
{
    concat3(kind, ":", id)
}

/// Request parameters as character sequences.
pub open spec fn param_views(p: Seq<(String, String)>) -> Seq<(Seq<char>, Seq<char>)> {
    p.map_values(|e: (String, String)| (e.0@, e.1@))
}

/// The kinds needed by the expanded relations, in relation order.
pub open spec fn required_kinds(kind: Seq<char>, relations: Seq<Seq<char>>) -> Seq<Seq<char>>
    decreases relations.len(),
{
    if relations.len() == 0 {
        Seq::empty()
    } else {
        let p = required_kinds(kind, relations.drop_last());
        match required_kind(kind, relations.last()) {
            Some(k) => p.push(k),
            None => p,
        }
    }
}

/// The parameter key of a kind's field list.
pub open spec fn fields_key(k: Seq<char>) -> Seq<char> {
    "fields["@ + k + "]"@
}

/// Some parameter has key `key`.
pub open spec fn has_param_key(p: Seq<(Seq<char>, Seq<char>)>, key: Seq<char>) -> bool {
    exists|i: int| 0 <= i < p.len() && (#[trigger] p[i]).0 == key
}

/// Adds, for each kind in order, its default field list when it has one and no
/// field list for it is present yet.
pub open spec fn add_fold(p: Seq<(Seq<char>, Seq<char>)>, kinds: Seq<Seq<char>>) -> Seq<(Seq<char>, Seq<char>)>
    decreases kinds.len(),
{
    if kinds.len() == 0 {
        p
    } else {
        let q = add_fold(p, kinds.drop_last());
        let k = kinds.last();
        if specific_kind(k) && !has_param_key(q, fields_key(k)) {
            q.push((fields_key(k), join(default_fields(k), ","@)))
        } else {
            q
        }
    }
}

/// The optional single parameter.
pub open spec fn opt_param(key: Seq<char>, v: Option<Seq<char>>) -> Seq<(Seq<char>, Seq<char>)> {
    match v {
        Some(x) => seq![(key, x)],
        None => Seq::empty(),
    }
}

/// An optional integer as its decimal text.
pub open spec fn opt_decimal(v: Option<i64>) -> Option<Seq<char>> {
    match v {
        Some(t) => Some(decimal(t as int)),
        None => None,
    }
}

/// The single parameter `key` whose value is the comma-joined `values`, when there
/// are any.
pub open spec fn joined_param(key: Seq<char>, values: Seq<Seq<char>>) -> Seq<(Seq<char>, Seq<char>)> {
    if values.len() > 0 {
        seq![(key, join(values, ","@))]
    } else {
        Seq::empty()
    }
}

/// One field-list parameter per entry, keyed by `prefix` and the entry's name.
pub open spec fn field_pairs(entries: Seq<(String, Vec<String>)>, prefix: Seq<char>) -> Seq<(Seq<char>, Seq<char>)> {
    entries.map_values(
        |e: (String, Vec<String>)| (fields_key(prefix + e.0@), join(views(e.1@), ","@)),
    )
}

/// One scope parameter per scope of `kind`.
pub open spec fn scope_params(kind: Seq<char>, scopes: Seq<(String, String)>) -> Seq<(Seq<char>, Seq<char>)> {
    scopes.map_values(
        |e: (String, String)| ("properties["@ + kind + "][scope][*]["@ + e.0@ + "]"@, e.1@),
    )
}

/// The parameters before the related kinds' field lists.
pub open spec fn base_params(n: NormalizedQueryOptions) -> Seq<(Seq<char>, Seq<char>)> {
    seq![("query"@, n.query@), ("page[limit]"@, decimal(n.limit as int))]
        + opt_param("time[past]"@, opt_view(n.time.past))
        + opt_param("time[start]"@, opt_decimal(n.time.start))
        + opt_param("time[end]"@, opt_decimal(n.time.end))
        + scope_params(n.kind@, n.scopes@)
        + opt_param("page[cursor]"@, opt_view(n.cursor))
        + joined_param("include"@, views(n.includes@))
        + joined_param(fields_key(n.kind@), views(n.fields@))
        + field_pairs(n.fields_by_kind@, Seq::empty())
        + field_pairs(n.edge_fields@, n.kind@ + "."@)
}

/// The parameters after the related kinds' field lists.
pub open spec fn tail_params(n: NormalizedQueryOptions) -> Seq<(Seq<char>, Seq<char>)> {
    joined_param("order_by"@, views(n.order_by@))
        + opt_param("free_text_match"@, opt_view(n.free_text_match))
        + (if n.include_total_count {
        seq![("meta[fields]"@, "total_count"@)]
    } else {
        Seq::empty()
    })
}

/// `s` is strictly increasing and holds exactly the elements of `input`.
pub open spec fn sorted_set_of(s: Seq<Seq<char>>, input: Seq<Seq<char>>) -> bool {
    &&& forall|i: int, j: int| 0 <= i < j < s.len() ==> lex_lt(#[trigger] s[i], #[trigger] s[j])
    &&& forall|x: Seq<char>| s.contains(x) <==> input.contains(x)
}

fn push_param(params: &mut Vec<(String, String)>, key: String, value: String)
    ensures
        param_views(final(params)@) == param_views(old(params)@).push((key@, value@)),
{
    let ghost before = params@;
    params.push((key, value));
    assert(param_views(params@) =~= param_views(before).push((key@, value@)));
}

fn has_key_param(params: &Vec<(String, String)>, key: &[char]) -> (r: bool)
    ensures
        r == has_param_key(param_views(params@), key@),
{
    let mut i: usize = 0;
    while i < params.len()
        invariant
            i <= params@.len(),
            forall|j: int| 0 <= j < i ==> params@[j].0@ != key@,
        decreases params@.len() - i,
    {
        let k = to_chars(params[i].0.as_str());
        if chars_eq(&k, key) {
            assert(param_views(params@)[i as int].0 == key@);
            return true;
        }
        i += 1;
    }
    assert forall|j: int| 0 <= j < param_views(params@).len() implies (#[trigger] param_views(
        params@,
    )[j]).0 != key@ by {
        assert(param_views(params@)[j].0 == params@[j].0@);
    }
    false
}

/// The strings of `input` sorted, without repeats.
pub fn sorted_unique(input: &Vec<String>) -> (r: Vec<String>)
    ensures
        sorted_set_of(views(r@), views(input@)),
{
    let mut set: Vec<(String, ())> = Vec::new();
    let mut i: usize = 0;
    while i < input.len()
        invariant
            i <= input@.len(),
            keys_sorted(set@),
            forall|x: Seq<char>| has_key(set@, x) <==> views(input@).take(i as int).contains(x),
        decreases input@.len() - i,
    {
        let k = to_chars(input[i].as_str());
        let ghost before = set@;
        let ghost cur = input@[i as int]@;
        match find_key(&set, &k) {
            None => {
                let item = input[i].clone();
                insert_sorted_entry(&mut set, item, ());
            },
            Some(p) => {
                assert(has_key(before, cur));
            },
        }
        assert(forall|x: Seq<char>| has_key(set@, x) <==> (has_key(before, x) || x == cur));
        let ghost t0 = views(input@).take(i as int);
        let ghost t1 = views(input@).take(i + 1);
        assert forall|x: Seq<char>| has_key(set@, x) <==> t1.contains(x) by {
            if t1.contains(x) {
                let j = choose|j: int| 0 <= j < t1.len() && #[trigger] t1[j] == x;
                if j < i {
                    assert(t0[j] == x);
                } else {
                    assert(x == cur);
                }
            }
            if t0.contains(x) {
                let j = choose|j: int| 0 <= j < t0.len() && #[trigger] t0[j] == x;
                assert(t1[j] == x);
            }
            if x == cur {
                assert(t1[i as int] == x);
            }
        }
        i += 1;
    }
    assert(views(input@).take(input@.len() as int) =~= views(input@));
    let mut r: Vec<String> = Vec::new();
    let mut j: usize = 0;
    while j < set.len()
        invariant
            j <= set@.len(),
            r@.len() == j,
            forall|a: int| 0 <= a < j ==> (#[trigger] r@[a])@ == set@[a].0@,
        decreases set@.len() - j,
    {
        r.push(set[j].0.clone());
        j += 1;
    }
    assert forall|a: int, b: int| 0 <= a < b < views(r@).len() implies lex_lt(
        #[trigger] views(r@)[a],
        #[trigger] views(r@)[b],
    ) by {
        assert(views(r@)[a] == set@[a].0@);
        assert(views(r@)[b] == set@[b].0@);
    }
    assert forall|x: Seq<char>| views(r@).contains(x) <==> views(input@).contains(x) by {
        if views(r@).contains(x) {
            let a = choose|a: int| 0 <= a < views(r@).len() && views(r@)[a] == x;
            assert(set@[a].0@ == x);
        }
        if has_key(set@, x) {
            let a = choose|a: int| 0 <= a < set@.len() && #[trigger] set@[a].0@ == x;
            assert(views(r@)[a] == x);
        }
    }
    r
}

/// Adds the default field lists of the related kinds (the relation targets and the
/// kinds that expanded relations need), in sorted order without repeats, unless a
/// field list for the kind is already present.
pub fn add_required_included_fields(
    params: &mut Vec<(String, String)>,
    options: &NormalizedQueryOptions,
    relation_target_kinds: &[String],
)
    ensures
        exists|ks: Seq<Seq<char>>|
            sorted_set_of(
                ks,
                views(relation_target_kinds@) + required_kinds(options.kind@, views(options.includes@)),
            ) && param_views(final(params)@) == add_fold(param_views(old(params)@), ks),
{
    let mut kinds: Vec<String> = Vec::new();
    let mut t: usize = 0;
    while t < relation_target_kinds.len()
        invariant
            t <= relation_target_kinds@.len(),
            views(kinds@) == views(relation_target_kinds@).take(t as int),
        decreases relation_target_kinds@.len() - t,
    {
        let ghost before = views(kinds@);
        let item = relation_target_kinds[t].clone();
        kinds.push(item);
        assert(views(kinds@) =~= before.push(relation_target_kinds@[t as int]@));
        assert(views(kinds@) =~= views(relation_target_kinds@).take(t + 1));
        t += 1;
    }
    assert(views(relation_target_kinds@).take(relation_target_kinds@.len() as int) =~= views(
        relation_target_kinds@,
    ));
    let ghost rel = views(options.includes@);
    let mut i: usize = 0;
    assert(rel.take(0) =~= Seq::<Seq<char>>::empty());
    assert(views(kinds@) =~= views(relation_target_kinds@) + required_kinds(options.kind@, rel.take(0)));
    while i < options.includes.len()
        invariant
            i <= options.includes@.len(),
            rel == views(options.includes@),
            views(kinds@) == views(relation_target_kinds@) + required_kinds(
                options.kind@,
                rel.take(i as int),
            ),
        decreases options.includes@.len() - i,
    {
        assert(rel.take(i + 1).drop_last() =~= rel.take(i as int));
        assert(rel.take(i + 1).last() == options.includes@[i as int]@);
        match required_included_field_kind(options.kind.as_str(), options.includes[i].as_str()) {
            Some(k) => {
                let ghost before = views(kinds@);
                kinds.push(String::from_str(k));
                assert(views(kinds@) =~= before.push(k@));
            },
            None => {},
        }
        i += 1;
    }
    assert(rel.take(options.includes@.len() as int) =~= rel);
    let sorted = sorted_unique(&kinds);
    let ghost ks = views(sorted@);
    let ghost start = param_views(params@);
    let mut j: usize = 0;
    assert(ks.take(0) =~= Seq::<Seq<char>>::empty());
    while j < sorted.len()
        invariant
            j <= sorted@.len(),
            ks == views(sorted@),
            param_views(params@) == add_fold(start, ks.take(j as int)),
        decreases sorted@.len() - j,
    {
        assert(ks.take(j + 1).drop_last() =~= ks.take(j as int));
        assert(ks.take(j + 1).last() == sorted@[j as int]@);
        let kind = sorted[j].as_str();
        if has_specific_default_fields(kind) {
            let key = concat3("fields[", kind, "]");
            let key_chars = to_chars(key.as_str());
            if !has_key_param(params, &key_chars) {
                let defaults = default_fields_for_kind(kind);
                let value = join_strs(&defaults, ",");
                push_param(params, key, value);
            }
        }
        j += 1;
    }
    assert(ks.take(sorted@.len() as int) =~= ks);
}

fn push_opt(params: &mut Vec<(String, String)>, key: &str, value: &Option<String>)
    ensures
        param_views(final(params)@) == param_views(old(params)@) + opt_param(key@, opt_view(*value)),
{
    let ghost start = param_views(params@);
    match value {
        Some(v) => push_param(params, owned(key), v.clone()),
        None => {},
    }
    assert(param_views(params@) =~= start + opt_param(key@, opt_view(*value)));
}

fn push_joined(params: &mut Vec<(String, String)>, key: String, values: &Vec<String>)
    ensures
        param_views(final(params)@) == param_views(old(params)@) + joined_param(key@, views(values@)),
{
    let ghost start = param_views(params@);
    if values.len() > 0 {
        let joined = join_strings(values, ",");
        push_param(params, key, joined);
    }
    assert(param_views(params@) =~= start + joined_param(key@, views(values@)));
}

fn push_scopes(params: &mut Vec<(String, String)>, kind: &str, scopes: &Vec<(String, String)>)
    ensures
        param_views(final(params)@) == param_views(old(params)@) + scope_params(kind@, scopes@),
{
    let ghost start = param_views(params@);
    let ghost all = scope_params(kind@, scopes@);
    let mut i: usize = 0;
    assert(start + all.take(0) =~= start);
    while i < scopes.len()
        invariant
            i <= scopes@.len(),
            all == scope_params(kind@, scopes@),
            param_views(params@) == start + all.take(i as int),
        decreases scopes@.len() - i,
    {
        let prefix = concat3("properties[", kind, "][scope][*][");
        let key = concat3(prefix.as_str(), scopes[i].0.as_str(), "]");
        let value = scopes[i].1.clone();
        push_param(params, key, value);
        assert(start + all.take(i + 1) =~= (start + all.take(i as int)).push(all[i as int]));
        i += 1;
    }
    assert(all.take(scopes@.len() as int) =~= all);
}

fn push_pairs(params: &mut Vec<(String, String)>, entries: &Vec<(String, Vec<String>)>, prefix: &str)
    ensures
        param_views(final(params)@) == param_views(old(params)@) + field_pairs(entries@, prefix@),
{
    let ghost start = param_views(params@);
    let ghost all = field_pairs(entries@, prefix@);
    let mut i: usize = 0;
    assert(start + all.take(0) =~= start);
    while i < entries.len()
        invariant
            i <= entries@.len(),
            all == field_pairs(entries@, prefix@),
            param_views(params@) == start + all.take(i as int),
        decreases entries@.len() - i,
    {
        let name = concat2(prefix, entries[i].0.as_str());
        let key = concat3("fields[", name.as_str(), "]");
        let value = join_strings(&entries[i].1, ",");
        assert(entries@[i as int].1@.map_values(|p: String| p@) == views(entries@[i as int].1@));
        push_param(params, key, value);
        assert(start + all.take(i + 1) =~= (start + all.take(i as int)).push(all[i as int]));
        i += 1;
    }
    assert(all.take(entries@.len() as int) =~= all);
}

fn decimal_opt(v: Option<i64>) -> (r: Option<String>)
    ensures
        opt_view(r) == opt_decimal(v),
{
    match v {
        Some(t) => Some(i64_to_string(t)),
        None => None,
    }
}

fn base_query_params(options: &NormalizedQueryOptions) -> (r: Vec<(String, String)>)
    ensures
        param_views(r@) == base_params(*options),
{
    let mut params: Vec<(String, String)> = Vec::new();
    push_param(&mut params, owned("query"), options.query.clone());
    push_param(&mut params, owned("page[limit]"), usize_to_string(options.limit));
    assert(param_views(params@) =~= seq![("query"@, options.query@), ("page[limit]"@, decimal(options.limit as int))]);
    push_opt(&mut params, "time[past]", &options.time.past);
    push_opt(&mut params, "time[start]", &decimal_opt(options.time.start));
    push_opt(&mut params, "time[end]", &decimal_opt(options.time.end));
    push_scopes(&mut params, options.kind.as_str(), &options.scopes);
    push_opt(&mut params, "page[cursor]", &options.cursor);
    push_joined(&mut params, owned("include"), &options.includes);
    push_joined(&mut params, concat3("fields[", options.kind.as_str(), "]"), &options.fields);
    let ghost before_pairs = param_views(params@);
    push_pairs(&mut params, &options.fields_by_kind, "");
    proof {
        reveal_strlit("");
        assert(""@ =~= Seq::<char>::empty());
    }
    let edge_prefix = concat2(options.kind.as_str(), ".");
    push_pairs(&mut params, &options.edge_fields, edge_prefix.as_str());
    params
}

/// The request parameters of an entity query: query, page size, time window, scopes,
/// cursor, relations to expand, field lists (result kind, related kinds, edges, and
/// the default lists the related kinds need), ordering, free-text mode and the total
/// count request, in that order.
pub fn entity_query_params(
    options: &NormalizedQueryOptions,
    relation_target_kinds: &[String],
) -> (r: Vec<(String, String)>)
    ensures
        exists|ks: Seq<Seq<char>>|
            sorted_set_of(
                ks,
                views(relation_target_kinds@) + required_kinds(options.kind@, views(options.includes@)),
            ) && param_views(r@) == add_fold(base_params(*options), ks) + tail_params(*options),
{
    let mut params = base_query_params(options);
    add_required_included_fields(&mut params, options, relation_target_kinds);
    push_joined(&mut params, owned("order_by"), &options.order_by);
    push_opt(&mut params, "free_text_match", &options.free_text_match);
    let ghost p10 = param_views(params@);
    if options.include_total_count {
        push_param(&mut params, owned("meta[fields]"), owned("total_count"));
    }
    assert(param_views(params@) =~= p10 + (if options.include_total_count {
        seq![("meta[fields]"@, "total_count"@)]
    } else {
        Seq::empty()
    }));
    params
}

} // verus!
