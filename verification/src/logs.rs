//! Argument handling for the logs commands.
use vstd::prelude::*;

use crate::duration::{duration_millis, parse_duration_to_millis, DurationError};
use crate::text::{
    chars_eq, concat2, concat3, debug_quoted, debug_str, decimal, ends_with, ends_with_chars,
    from_chars, i64_to_string, owned, slice_chars, split_once, split_once_chars, str_eq, to_chars,
    to_lowercase, trim, trim_chars, trim_str, unicode_lowercase, split_on, first_index,
    is_first_index, lemma_first_index, lemma_first_index_some,
};

verus! {

/// Arguments of `logs aggregate`.
pub struct AggregateArgs {
    pub query: String,
    pub from: String,
    pub to: String,
    pub compute: Vec<String>,
    pub group_by: Vec<String>,
    pub limit: i32,
    pub index: Vec<String>,
    pub storage: Option<String>,
    pub sort: String,
    pub interval: Option<String>,
}

/// Arguments of `logs search`, `logs list` and `logs query`.
pub struct SearchArgs {
    pub query: String,
    pub from: String,
    pub to: String,
    pub limit: i32,
    pub sort: String,
    pub storage: Option<String>,
    pub index: Vec<String>,
}

/// The views of a sequence of strings.
pub open spec fn views(v: Seq<String>) -> Seq<Seq<char>> {
    v.map_values(|s: String| s@)
}

/// State of the compute splitter: pieces so far, the current piece, parenthesis depth.
pub type SplitState = (Seq<Seq<char>>, Seq<char>, nat);

/// Adds a finished piece, trimmed, unless it is blank.
pub open spec fn add_piece(pieces: Seq<Seq<char>>, current: Seq<char>) -> Seq<Seq<char>> {
    if trim(current).len() > 0 {
        pieces.push(trim(current))
    } else {
        pieces
    }
}

/// One character of the splitter: commas at depth 0 end a piece.
pub open spec fn split_step(st: SplitState, ch: char) -> SplitState {
    let (pieces, current, depth) = st;
    if ch == '(' {
        (pieces, current.push(ch), depth + 1)
    } else if ch == ')' {
        (pieces, current.push(ch), if depth == 0 { 0 } else { (depth - 1) as nat })
    } else if ch == ',' && depth == 0 {
        (add_piece(pieces, current), Seq::empty(), depth)
    } else {
        (pieces, current.push(ch), depth)
    }
}

/// The splitter's state after reading `s`.
pub open spec fn split_scan(s: Seq<char>) -> SplitState
    decreases s.len(),
{
    if s.len() == 0 {
        (Seq::empty(), Seq::empty(), 0)
    } else {
        split_step(split_scan(s.drop_last()), s.last())
    }
}

/// The compute expressions of a comma-separated list, split only at top-level commas.
pub open spec fn split_compute(s: Seq<char>) -> Seq<Seq<char>> {
    let (pieces, current, _) = split_scan(s);
    add_piece(pieces, current)
}

proof fn lemma_scan_pieces_trimmed(s: Seq<char>)
    ensures
        forall|k: int| 0 <= k < split_scan(s).0.len() ==> (#[trigger] split_scan(s).0[k]).len() > 0
            && trim(split_scan(s).0[k]) == split_scan(s).0[k],
    decreases s.len(),
{
    if s.len() > 0 {
        lemma_scan_pieces_trimmed(s.drop_last());
        let (pieces, current, _) = split_scan(s.drop_last());
        crate::text::lemma_trim_idempotent(current);
        assert(forall|k: int| 0 <= k < pieces.len() ==> add_piece(pieces, current)[k] == pieces[k]);
    }
}

/// Every compute expression a list splits into is non-blank and already
/// trimmed.
pub proof fn law_compute_pieces_are_trimmed(s: Seq<char>)
    ensures
        forall|k: int| 0 <= k < split_compute(s).len() ==> (#[trigger] split_compute(s)[k]).len() > 0
            && trim(split_compute(s)[k]) == split_compute(s)[k],
{
    lemma_scan_pieces_trimmed(s);
    let (pieces, current, _) = split_scan(s);
    crate::text::lemma_trim_idempotent(current);
    assert(forall|k: int| 0 <= k < pieces.len() ==> add_piece(pieces, current)[k] == pieces[k]);
}

/// The trimmed, non-blank parts, in order.
pub open spec fn nonblank_trimmed(parts: Seq<Seq<char>>) -> Seq<Seq<char>>
    decreases parts.len(),
{
    if parts.len() == 0 {
        Seq::empty()
    } else {
        add_piece(nonblank_trimmed(parts.drop_last()), parts.last())
    }
}

/// Splitting on commas after one more character: a comma opens an empty last
/// part; another character extends the last part.
proof fn lemma_split_on_push(s: Seq<char>, c: char)
    ensures
        split_on(s, ',').len() > 0,
        c == ',' ==> split_on(s.push(c), ',') == split_on(s, ',').push(Seq::<char>::empty()),
        c != ',' ==> split_on(s.push(c), ',') == split_on(s, ',').update(
            split_on(s, ',').len() - 1,
            split_on(s, ',').last().push(c),
        ),
    decreases s.len(),
{
    let t = s.push(c);
    if s.contains(',') {
        lemma_first_index_some(s, ',');
        let i = first_index(s, ',')->0;
        assert(is_first_index(t, ',', i));
        lemma_first_index(t, ',', i);
        assert(t.take(i) =~= s.take(i));
        assert(t.skip(i + 1) =~= s.skip(i + 1).push(c));
        lemma_split_on_push(s.skip(i + 1), c);
        let rest = split_on(s.skip(i + 1), ',');
        if c == ',' {
            assert(seq![s.take(i)] + rest.push(Seq::<char>::empty()) =~= (seq![s.take(i)] + rest).push(
                Seq::<char>::empty(),
            ));
        } else {
            assert(seq![s.take(i)] + rest.update(rest.len() - 1, rest.last().push(c)) =~= (seq![
                s.take(i),
            ] + rest).update(rest.len() as int, rest.last().push(c)));
        }
    } else {
        assert(first_index(s, ',') is None);
        if c == ',' {
            assert(is_first_index(t, ',', s.len() as int));
            lemma_first_index(t, ',', s.len() as int);
            assert(t.take(s.len() as int) =~= s);
            assert(t.skip(s.len() as int + 1) =~= Seq::<char>::empty());
            let e = Seq::<char>::empty();
            assert(!e.contains(','));
            assert(split_on(e, ',') == seq![e]);
            assert(seq![s] + seq![e] =~= seq![s].push(e));
        } else {
            assert(!t.contains(',')) by {
                if t.contains(',') {
                    let w = choose|w: int| 0 <= w < t.len() && t[w] == ',';
                    assert(w < s.len());
                    assert(s[w] == ',');
                }
            }
            assert(seq![t] =~= seq![s].update(0, s.push(c)));
        }
    }
}

proof fn lemma_scan_without_parens(s: Seq<char>)
    requires
        !s.contains('('),
        !s.contains(')'),
    ensures
        split_scan(s) == (
            nonblank_trimmed(split_on(s, ',').drop_last()),
            split_on(s, ',').last(),
            0nat,
        ),
    decreases s.len(),
{
    if s.len() == 0 {
        assert(!Seq::<char>::empty().contains(','));
        assert(split_on(s, ',') == seq![s]);
        assert(seq![s].drop_last() =~= Seq::<Seq<char>>::empty());
    } else {
        let p = s.drop_last();
        let c = s.last();
        assert(!p.contains('(')) by {
            if p.contains('(') {
                let w = choose|w: int| 0 <= w < p.len() && p[w] == '(';
                assert(s[w] == '(');
            }
        }
        assert(!p.contains(')')) by {
            if p.contains(')') {
                let w = choose|w: int| 0 <= w < p.len() && p[w] == ')';
                assert(s[w] == ')');
            }
        }
        assert(s[s.len() - 1] == c);
        assert(c != '(' && c != ')');
        lemma_scan_without_parens(p);
        assert(p.push(c) =~= s);
        lemma_split_on_push(p, c);
        let parts = split_on(p, ',');
        if c == ',' {
            assert(parts.push(Seq::<char>::empty()).drop_last() =~= parts);
            assert(parts =~= parts.drop_last().push(parts.last()));
        } else {
            assert(parts.update(parts.len() - 1, parts.last().push(c)).drop_last() =~= parts.drop_last());
        }
    }
}

/// Without parentheses, the compute expressions are the comma-separated parts
/// of the list, trimmed, without the blank ones.
pub proof fn law_compute_split_without_parens(s: Seq<char>)
    requires
        !s.contains('('),
        !s.contains(')'),
    ensures
        split_compute(s) == nonblank_trimmed(split_on(s, ',')),
{
    lemma_scan_without_parens(s);
    lemma_split_on_push(s, 'a');
    let parts = split_on(s, ',');
    assert(parts =~= parts.drop_last().push(parts.last()));
}

/// The parenthesis depth after reading `s`: each `(` opens one level, each `)`
/// closes one, never below zero.
pub open spec fn paren_depth(s: Seq<char>) -> nat
    decreases s.len(),
{
    if s.len() == 0 {
        0
    } else {
        let d = paren_depth(s.drop_last());
        if s.last() == '(' {
            d + 1
        } else if s.last() == ')' {
            if d == 0 {
                0
            } else {
                (d - 1) as nat
            }
        } else {
            d
        }
    }
}

proof fn lemma_scan_depth(s: Seq<char>)
    ensures
        split_scan(s).2 == paren_depth(s),
    decreases s.len(),
{
    if s.len() > 0 {
        lemma_scan_depth(s.drop_last());
    }
}

/// A comma ends the current expression exactly when it stands outside every
/// parenthesis; inside one it stays part of the expression.
pub proof fn law_comma_splits_only_at_depth_zero(s: Seq<char>)
    ensures
        ({
            let (pieces, current, _) = split_scan(s);
            split_scan(s.push(',')) == if paren_depth(s) == 0 {
                (add_piece(pieces, current), Seq::<char>::empty(), 0nat)
            } else {
                (pieces, current.push(','), paren_depth(s))
            }
        }),
{
    lemma_scan_depth(s);
    assert(s.push(',').drop_last() =~= s);
}

/// Split a comma-separated compute string into individual compute expressions,
/// respecting parentheses so that `percentile(@duration, 95)` is not split.
/// Each expression is trimmed; blank ones are dropped.
pub fn split_compute_args(input: &str) -> (r: Vec<String>)
    ensures
        views(r@) == split_compute(input@),
{
    let chars = to_chars(input);
    let mut result: Vec<String> = Vec::new();
    let mut current: Vec<char> = Vec::new();
    let mut depth: usize = 0;
    let mut i: usize = 0;
    while i < chars.len()
        invariant
            i <= chars.len(),
            chars@ == input@,
            depth <= i,
            (views(result@), current@, depth as nat) == split_scan(chars@.take(i as int)),
        decreases chars.len() - i,
    {
        let ch = chars[i];
        assert(chars@.take(i + 1).drop_last() =~= chars@.take(i as int));
        if ch == '(' {
            depth += 1;
            current.push(ch);
        } else if ch == ')' {
            if depth > 0 {
                depth -= 1;
            }
            current.push(ch);
        } else if ch == ',' && depth == 0 {
            let trimmed = trim_chars(&current);
            if trimmed.len() > 0 {
                result.push(from_chars(&trimmed));
                assert(views(result@) =~= add_piece(
                    split_scan(chars@.take(i as int)).0,
                    current@,
                ));
            }
            current = Vec::new();
        } else {
            current.push(ch);
        }
        i += 1;
    }
    assert(chars@.take(chars.len() as int) =~= chars@);
    let trimmed = trim_chars(&current);
    if trimmed.len() > 0 {
        let ghost before = result@;
        result.push(from_chars(&trimmed));
        assert(views(result@) =~= views(before).push(trimmed@));
    }
    result
}


/// Why a logs request was refused.
#[derive(Debug, PartialEq, Eq)]
pub enum LogsError {
    UnknownStorageTier(String),
    UnknownSort(String),
    InvalidCompute(String),
    InvalidInterval(DurationError),
}

impl LogsError {
    /// The user-facing message.
    pub fn to_string(&self) -> (r: String)
        ensures
            r@ == match self {
                LogsError::UnknownStorageTier(t) => "unknown storage tier "@ + debug_quoted(t@)
                    + "; valid values are: indexes, online-archives, flex"@,
                LogsError::UnknownSort(t) => "unknown sort aggregation "@ + debug_quoted(t@)
                    + "; valid values are: count, cardinality, pc75, pc90, pc95, pc98, pc99, sum, min, max"@,
                LogsError::InvalidCompute(c) => "invalid compute "@ + debug_quoted(c@)
                    + ": use <function>, <function>(<metric>) or percentile(<metric>, <n>)"@,
                LogsError::InvalidInterval(e) => "unable to parse duration \""@ + e.input@ + "\""@,
            },
    {
        match self {
            LogsError::UnknownStorageTier(t) => concat3(
                "unknown storage tier ",
                debug_str(t.as_str()).as_str(),
                "; valid values are: indexes, online-archives, flex",
            ),
            LogsError::UnknownSort(t) => concat3(
                "unknown sort aggregation ",
                debug_str(t.as_str()).as_str(),
                "; valid values are: count, cardinality, pc75, pc90, pc95, pc98, pc99, sum, min, max",
            ),
            LogsError::InvalidCompute(c) => concat3(
                "invalid compute ",
                debug_str(c.as_str()).as_str(),
                ": use <function>, <function>(<metric>) or percentile(<metric>, <n>)",
            ),
            LogsError::InvalidInterval(e) => e.to_string(),
        }
    }
}

/// The storage tier a lowercased name selects; `online_archives` is accepted for
/// `online-archives`.
pub open spec fn storage_tier_name(lowered: Seq<char>) -> Option<Seq<char>> {
    if lowered == "indexes"@ {
        Some("indexes"@)
    } else if lowered == "online-archives"@ || lowered == "online_archives"@ {
        Some("online-archives"@)
    } else if lowered == "flex"@ {
        Some("flex"@)
    } else {
        None
    }
}

/// The storage tier that an already lowercased name selects (see [`storage_tier_name`]).
pub fn storage_tier_from_lowercase(lowered: String) -> (r: Result<String, LogsError>)
    ensures
        match storage_tier_name(lowered@) {
            Some(t) => r matches Ok(x) && x@ == t,
            None => r == Err::<String, LogsError>(LogsError::UnknownStorageTier(lowered)),
        },
{
    let l = lowered.as_str();
    if str_eq(l, "indexes") {
        Ok(owned("indexes"))
    } else if str_eq(l, "online-archives") || str_eq(l, "online_archives") {
        Ok(owned("online-archives"))
    } else if str_eq(l, "flex") {
        Ok(owned("flex"))
    } else {
        Err(LogsError::UnknownStorageTier(lowered))
    }
}

/// The storage tier of `--storage`, matched case-insensitively.
pub fn normalize_storage_tier(storage: Option<String>) -> (r: Result<Option<String>, LogsError>)
    ensures
        match storage {
            None => r == Ok::<Option<String>, LogsError>(None),
            Some(s) => match storage_tier_name(unicode_lowercase(s@)) {
                Some(t) => r matches Ok(Some(x)) && x@ == t,
                None => r matches Err(LogsError::UnknownStorageTier(x)) && x@ == unicode_lowercase(
                    s@,
                ),
            },
        },
{
    match storage {
        None => Ok(None),
        Some(s) => match storage_tier_from_lowercase(to_lowercase(s.as_str())) {
            Ok(t) => Ok(Some(t)),
            Err(e) => Err(e),
        },
    }
}

/// The sort aggregations a grouped aggregate accepts.
pub open spec fn valid_sort(s: Seq<char>) -> bool {
    s == "count"@ || s == "cardinality"@ || s == "pc75"@ || s == "pc90"@ || s == "pc95"@ || s
        == "pc98"@ || s == "pc99"@ || s == "sum"@ || s == "min"@ || s == "max"@
}

fn valid_sort_exec(s: &str) -> (r: bool)
    ensures
        r == valid_sort(s@),
{
    str_eq(s, "count") || str_eq(s, "cardinality") || str_eq(s, "pc75") || str_eq(s, "pc90")
        || str_eq(s, "pc95") || str_eq(s, "pc98") || str_eq(s, "pc99") || str_eq(s, "sum")
        || str_eq(s, "min") || str_eq(s, "max")
}

/// The descending measure sort on a lowercased, trimmed aggregation name.
pub fn sort_from_lowercase(lowered: String) -> (r: Result<String, LogsError>)
    ensures
        valid_sort(lowered@) ==> (r matches Ok(x) && x@ == lowered@),
        !valid_sort(lowered@) ==> r == Err::<String, LogsError>(LogsError::UnknownSort(lowered)),
{
    if valid_sort_exec(lowered.as_str()) {
        Ok(lowered)
    } else {
        Err(LogsError::UnknownSort(lowered))
    }
}

/// The aggregation that groups are sorted by (descending, by measure): `sort`
/// trimmed and lowercased, when it is one of the valid aggregations.
pub fn parse_aggregate_sort(sort: &str) -> (r: Result<String, LogsError>)
    ensures
        ({
            let l = unicode_lowercase(trim(sort@));
            &&& valid_sort(l) ==> (r matches Ok(x) && x@ == l)
            &&& !valid_sort(l) ==> (r matches Err(LogsError::UnknownSort(x)) && x@ == l)
        }),
{
    let t = trim_str(sort);
    sort_from_lowercase(to_lowercase(t.as_str()))
}

/// The order of `logs search` results.
#[derive(Clone, Copy, Debug, PartialEq, Eq)]
pub enum LogsSort {
    TimestampAscending,
    TimestampDescending,
}

/// Ascending for `timestamp`, `asc` and `+timestamp`; descending otherwise.
pub fn parse_logs_sort(sort: &str) -> (r: LogsSort)
    ensures
        r == if sort@ == "timestamp"@ || sort@ == "asc"@ || sort@ == "+timestamp"@ {
            LogsSort::TimestampAscending
        } else {
            LogsSort::TimestampDescending
        },
{
    if str_eq(sort, "timestamp") || str_eq(sort, "asc") || str_eq(sort, "+timestamp") {
        LogsSort::TimestampAscending
    } else {
        LogsSort::TimestampDescending
    }
}

/// One compute expression: `count`-like functions stand alone, `fn(metric)`
/// applies a function to a metric, and `percentile(metric, n)` is the `pcN`
/// aggregation of the metric. All parts are trimmed.
pub open spec fn compute_parts(c: Seq<char>) -> Option<(Seq<char>, Option<Seq<char>>)> {
    let t = trim(c);
    match split_once(t, '(') {
        None => if t.len() > 0 {
            Some((t, None))
        } else {
            None
        },
        Some((f, rest)) => {
            let func = trim(f);
            if !ends_with(rest, ")"@) || func.len() == 0 {
                None
            } else {
                let inner = rest.take(rest.len() - 1);
                if func == "percentile"@ {
                    match split_once(inner, ',') {
                        Some((m, p)) => if trim(m).len() > 0 && trim(p).len() > 0 {
                            Some(("pc"@ + trim(p), Some(trim(m))))
                        } else {
                            None
                        },
                        None => None,
                    }
                } else if trim(inner).len() > 0 {
                    Some((func, Some(trim(inner))))
                } else {
                    None
                }
            }
        },
    }
}

/// Splits a compute expression into its aggregation and metric (see [`compute_parts`]).
pub fn parse_compute(c: &str) -> (r: Result<(String, Option<String>), LogsError>)
    ensures
        match compute_parts(c@) {
            Some((a, m)) => r matches Ok((x, y)) && x@ == a && match (y, m) {
                (Some(u), Some(v)) => u@ == v,
                (None, None) => true,
                _ => false,
            },
            None => r matches Err(LogsError::InvalidCompute(x)) && x@ == c@,
        },
{
    let t = trim_chars(&to_chars(c));
    match split_once_chars(&t, '(') {
        None => {
            if t.len() > 0 {
                Ok((from_chars(&t), None))
            } else {
                Err(LogsError::InvalidCompute(owned(c)))
            }
        },
        Some((f, rest)) => {
            let func = trim_chars(&f);
            let close = to_chars(")");
            if !ends_with_chars(&rest, &close) || func.len() == 0 {
                return Err(LogsError::InvalidCompute(owned(c)));
            }
            proof {
                reveal_strlit(")");
            }
            let inner = slice_chars(&rest, 0, rest.len() - 1);
            assert(inner@ =~= rest@.take(rest@.len() - 1));
            let pct = to_chars("percentile");
            if chars_eq(&func, &pct) {
                match split_once_chars(&inner, ',') {
                    Some((m, p)) => {
                        let tm = trim_chars(&m);
                        let tp = trim_chars(&p);
                        if tm.len() > 0 && tp.len() > 0 {
                            let name = concat2("pc", from_chars(&tp).as_str());
                            Ok((name, Some(from_chars(&tm))))
                        } else {
                            Err(LogsError::InvalidCompute(owned(c)))
                        }
                    },
                    None => Err(LogsError::InvalidCompute(owned(c))),
                }
            } else {
                let ti = trim_chars(&inner);
                if ti.len() > 0 {
                    Ok((from_chars(&func), Some(from_chars(&ti))))
                } else {
                    Err(LogsError::InvalidCompute(owned(c)))
                }
            }
        },
    }
}

/// One compute of an aggregate request; a timeseries one has an interval.
#[derive(Debug, PartialEq, Eq)]
pub struct Compute {
    pub aggregation: String,
    pub metric: Option<String>,
    pub interval: Option<String>,
}

/// One group of an aggregate request, sorted by a descending measure.
#[derive(Debug, PartialEq, Eq)]
pub struct GroupBy {
    pub facet: String,
    pub limit: Option<i32>,
    pub sort: String,
}

/// The body of a logs aggregate request.
#[derive(Debug, PartialEq, Eq)]
pub struct AggregateBody {
    pub query: String,
    pub from: String,
    pub to: String,
    pub indexes: Vec<String>,
    pub storage_tier: Option<String>,
    pub compute: Vec<Compute>,
    pub group_by: Vec<GroupBy>,
}

/// The optional string's characters.
pub open spec fn opt_chars(o: Option<String>) -> Option<Seq<char>> {
    match o {
        Some(s) => Some(s@),
        None => None,
    }
}

/// The computes, each matching the expression at its position and carrying the
/// interval.
pub open spec fn computes_match(
    got: Seq<Compute>,
    exprs: Seq<Seq<char>>,
    interval: Option<Seq<char>>,
) -> bool {
    &&& got.len() == exprs.len()
    &&& forall|i: int|
        0 <= i < got.len() ==> (compute_parts(exprs[i]) matches Some((a, m)) && (
        #[trigger] got[i]).aggregation@ == a && opt_chars(got[i].metric) == m && opt_chars(
            got[i].interval,
        ) == interval)
}

/// Some compute expression does not parse.
pub open spec fn some_compute_invalid(exprs: Seq<Seq<char>>) -> bool {
    exists|i: int| 0 <= i < exprs.len() && (#[trigger] compute_parts(exprs[i])) is None
}

fn build_computes(computes: &Vec<String>, interval: &Option<String>) -> (r: Result<
    Vec<Compute>,
    LogsError,
>)
    ensures
        match r {
            Ok(v) => computes_match(v@, views(computes@), opt_chars(*interval)),
            Err(e) => e is InvalidCompute && some_compute_invalid(views(computes@)),
        },
{
    let mut out: Vec<Compute> = Vec::new();
    let mut i: usize = 0;
    while i < computes.len()
        invariant
            i <= computes@.len(),
            out@.len() == i,
            forall|j: int|
                0 <= j < i ==> (compute_parts(views(computes@)[j]) matches Some((a, m)) && (
                #[trigger] out@[j]).aggregation@ == a && opt_chars(out@[j].metric) == m
                    && opt_chars(out@[j].interval) == opt_chars(*interval)),
        decreases computes@.len() - i,
    {
        assert(views(computes@)[i as int] == computes@[i as int]@);
        match parse_compute(computes[i].as_str()) {
            Err(e) => {
                assert(compute_parts(views(computes@)[i as int]) is None);
                return Err(e);
            },
            Ok((aggregation, metric)) => {
                let iv = match interval {
                    Some(x) => Some(x.clone()),
                    None => None,
                };
                out.push(Compute { aggregation, metric, interval: iv });
            },
        }
        i += 1;
    }
    Ok(out)
}

/// The body of a logs aggregate request for its parts, or why it is refused:
/// the storage tier and interval must be known, every compute expression must
/// parse, and groups (when any) need a valid sort.
pub open spec fn aggregate_body_ok(
    query: Seq<char>,
    from_ms: i64,
    to_ms: i64,
    computes: Seq<Seq<char>>,
    group_bys: Seq<Seq<char>>,
    limit: i32,
    index: Seq<Seq<char>>,
    storage: Option<Seq<char>>,
    sort: Seq<char>,
    interval: Option<Seq<char>>,
    b: AggregateBody,
) -> bool {
    &&& b.query@ == query
    &&& b.from@ == decimal(from_ms as int)
    &&& b.to@ == decimal(to_ms as int)
    &&& views(b.indexes@) == index
    &&& opt_chars(b.storage_tier) == match storage {
        Some(s) => storage_tier_name(unicode_lowercase(s)),
        None => None,
    }
    &&& computes_match(
        b.compute@,
        computes,
        match interval {
            Some(iv) => Some(decimal(duration_millis(iv)->0)),
            None => None,
        },
    )
    &&& b.group_by@.len() == group_bys.len()
    &&& forall|i: int|
        0 <= i < group_bys.len() ==> (#[trigger] b.group_by@[i]).facet@ == group_bys[i]
            && b.group_by@[i].limit == (if limit > 0 {
            Some(limit)
        } else {
            None
        }) && b.group_by@[i].sort@ == unicode_lowercase(trim(sort))
}

/// Builds the body of a logs aggregate request. The storage tier comes first,
/// then the interval, the computes, and (only when there are groups) the sort.
#[verifier::rlimit(30)]
pub fn build_aggregate_body(
    query: String,
    from_ms: i64,
    to_ms: i64,
    computes: Vec<String>,
    group_bys: Vec<String>,
    limit: i32,
    index: Vec<String>,
    storage: Option<String>,
    sort: &str,
    interval: Option<String>,
) -> (r: Result<AggregateBody, LogsError>)
    ensures
        match r {
            Ok(b) => aggregate_body_ok(
                query@,
                from_ms,
                to_ms,
                views(computes@),
                views(group_bys@),
                limit,
                views(index@),
                opt_chars(storage),
                sort@,
                opt_chars(interval),
                b,
            ),
            Err(LogsError::UnknownStorageTier(t)) => storage matches Some(s) && storage_tier_name(
                unicode_lowercase(s@),
            ) is None && t@ == unicode_lowercase(s@),
            Err(LogsError::InvalidInterval(e)) => (storage matches Some(s) ==> storage_tier_name(
                unicode_lowercase(s@),
            ) is Some) && (interval matches Some(iv) && duration_millis(iv@) is None && e.input@
                == iv@),
            Err(LogsError::InvalidCompute(_)) => some_compute_invalid(views(computes@)),
            Err(LogsError::UnknownSort(t)) => group_bys@.len() > 0 && !valid_sort(
                unicode_lowercase(trim(sort@)),
            ) && t@ == unicode_lowercase(trim(sort@)),
        },
        (storage matches Some(s) ==> storage_tier_name(unicode_lowercase(s@)) is Some) && (
        interval matches Some(iv) ==> duration_millis(iv@) is Some) && !some_compute_invalid(
            views(computes@),
        ) && (group_bys@.len() > 0 ==> valid_sort(unicode_lowercase(trim(sort@)))) ==> r is Ok,
{
    let storage_tier = match normalize_storage_tier(storage) {
        Ok(t) => t,
        Err(e) => {
            return Err(e);
        },
    };
    let interval_ms = match &interval {
        Some(iv) => match parse_duration_to_millis(iv.as_str()) {
            Ok(ms) => Some(i64_to_string(ms)),
            Err(e) => {
                return Err(LogsError::InvalidInterval(e));
            },
        },
        None => None,
    };
    let compute = match build_computes(&computes, &interval_ms) {
        Ok(c) => c,
        Err(e) => {
            return Err(e);
        },
    };
    let mut group_by: Vec<GroupBy> = Vec::new();
    if group_bys.len() > 0 {
        let sort_agg = match parse_aggregate_sort(sort) {
            Ok(s) => s,
            Err(e) => {
                return Err(e);
            },
        };
        let mut i: usize = 0;
        while i < group_bys.len()
            invariant
                i <= group_bys@.len(),
                group_by@.len() == i,
                sort_agg@ == unicode_lowercase(trim(sort@)),
                forall|j: int|
                    0 <= j < i ==> (#[trigger] group_by@[j]).facet@ == group_bys@[j]@
                        && group_by@[j].limit == (if limit > 0 {
                        Some(limit)
                    } else {
                        None
                    }) && group_by@[j].sort@ == sort_agg@,
            decreases group_bys@.len() - i,
        {
            let lim = if limit > 0 {
                Some(limit)
            } else {
                None
            };
            group_by.push(GroupBy { facet: group_bys[i].clone(), limit: lim, sort: sort_agg.clone() });
            i += 1;
        }
    }
    Ok(
        AggregateBody {
            query,
            from: i64_to_string(from_ms),
            to: i64_to_string(to_ms),
            indexes: index,
            storage_tier,
            compute,
            group_by,
        },
    )
}

/// What `logs search` reports in agent mode: the results may be truncated when
/// as many came back as were asked for.
pub fn search_truncation_hint(count: Option<usize>, limit: i32) -> (r: (bool, Option<String>))
    requires
        limit == i32::MAX ==> !(count matches Some(c) && (c as i32) >= limit),
    ensures
        r.0 == (count matches Some(c) && (c as i32) >= limit),
        match r.1 {
            Some(h) => r.0 && h@ == "Results may be truncated at "@ + decimal(limit as int)
                + ". Use --limit="@ + decimal(limit + 1) + " or narrow the --query"@,
            None => !r.0,
        },
{
    let truncated = match count {
        Some(c) => (c as i32) >= limit,
        None => false,
    };
    if truncated {
        let a = i64_to_string(limit as i64);
        let b = i64_to_string((limit + 1) as i64);
        let head = concat3("Results may be truncated at ", a.as_str(), ". Use --limit=");
        let msg = concat3(head.as_str(), b.as_str(), " or narrow the --query");
        (true, Some(msg))
    } else {
        (false, None)
    }
}

/// The body of a `logs search` request: the query over the time range (as
/// milliseconds), the indexes when any were named, the storage tier when one
/// was given, the page limit and the sort.
pub struct SearchBody {
    pub query: String,
    pub from: String,
    pub to: String,
    pub indexes: Option<Vec<String>>,
    pub storage_tier: Option<String>,
    pub limit: i32,
    pub sort: LogsSort,
}

/// Builds the body of a `logs search` request; the bounds are already in
/// milliseconds since the epoch.
pub fn build_search_body(args: SearchArgs, from_ms: i64, to_ms: i64) -> (r: Result<SearchBody, LogsError>)
    ensures
        match args.storage {
            Some(s) => match storage_tier_name(unicode_lowercase(s@)) {
                None => r matches Err(LogsError::UnknownStorageTier(x)) && x@ == unicode_lowercase(s@),
                Some(t) => r matches Ok(b) && (b.storage_tier matches Some(x) && x@ == t),
            },
            None => r matches Ok(b) && b.storage_tier is None,
        },
        r matches Ok(b) ==> {
            &&& b.query@ == args.query@
            &&& b.from@ == decimal(from_ms as int)
            &&& b.to@ == decimal(to_ms as int)
            &&& (if args.index@.len() == 0 {
                b.indexes is None
            } else {
                b.indexes matches Some(v) && views(v@) == views(args.index@)
            })
            &&& b.limit == args.limit
            &&& b.sort == if args.sort@ == "timestamp"@ || args.sort@ == "asc"@ || args.sort@ == "+timestamp"@ {
                LogsSort::TimestampAscending
            } else {
                LogsSort::TimestampDescending
            }
        },
{
    let storage_tier = match normalize_storage_tier(args.storage) {
        Ok(t) => t,
        Err(e) => {
            return Err(e);
        },
    };
    let sort = parse_logs_sort(args.sort.as_str());
    let indexes = if args.index.len() == 0 {
        None
    } else {
        Some(args.index)
    };
    Ok(SearchBody {
        query: args.query,
        from: i64_to_string(from_ms),
        to: i64_to_string(to_ms),
        indexes,
        storage_tier,
        limit: args.limit,
        sort,
    })
}

} // verus!
