//! Syntax checks on entity graph (UEG) queries: the result kind, top-level `OR`,
//! and Go durations.
use vstd::prelude::*;

use crate::text::{to_chars, starts_with, starts_with_chars};

verus! {

/// Whether `regex::Regex::new` accepts a pattern.
pub uninterp spec fn regex_compiles(pattern: Seq<char>) -> bool;

/// Capture group 1 of the first match of `pattern` in `text` (`Regex::captures`).
pub uninterp spec fn regex_group1(pattern: Seq<char>, text: Seq<char>) -> Option<Seq<char>>;

/// Whether `pattern` matches somewhere in `text` (`Regex::is_match`).
pub uninterp spec fn regex_is_match(pattern: Seq<char>, text: Seq<char>) -> bool;

pub open spec fn opt_view(o: Option<String>) -> Option<Seq<char>> {
    match o {
        Some(s) => Some(s@),
        None => None,
    }
}

/// Compiles `pattern` with `regex::Regex::new` and returns capture group 1 of its
/// first match in `text` (`Regex::captures`); `None` when the pattern does not compile.
#[verifier::external_body]
fn regex_first_group(pattern: &str, text: &str) -> (r: Option<Option<String>>)
    ensures
        r is Some <==> regex_compiles(pattern@),
        r matches Some(g) ==> opt_view(g) == regex_group1(pattern@, text@),
{
    let re = regex::Regex::new(pattern).ok()?;
    Some(re.captures(text).and_then(|c| c.get(1)).map(|m| m.as_str().to_string()))
}

/// Compiles `pattern` with `regex::Regex::new` and tests it against `text`
/// (`Regex::is_match`); `None` when the pattern does not compile.
#[verifier::external_body]
fn regex_matches(pattern: &str, text: &str) -> (r: Option<bool>)
    ensures
        r is Some <==> regex_compiles(pattern@),
        r matches Some(b) ==> b == regex_is_match(pattern@, text@),
{
    let re = regex::Regex::new(pattern).ok()?;
    Some(re.is_match(text))
}

/// `kind:<kind>` at the start or after whitespace or `(`.
pub open spec fn kind_pattern() -> Seq<char> {
    "(?:^|[\\s(])kind:([A-Za-z0-9_.-]+)"@
}

/// `ref:"ref:<kind>:` at the start or after whitespace or `(`.
pub open spec fn ref_kind_pattern() -> Seq<char> {
    "(?:^|[\\s(])ref\\s*:\\s*\"ref:([^:\"]+):"@
}

/// A `free_text:` filter at the start or after whitespace or `(`.
pub open spec fn free_text_pattern() -> Seq<char> {
    "(?:^|[\\s(])free_text\\s*:"@
}

/// The group of a pattern in a text, or `None` when the pattern does not compile.
pub open spec fn group_if_compiles(pattern: Seq<char>, text: Seq<char>) -> Option<Seq<char>> {
    if regex_compiles(pattern) {
        regex_group1(pattern, text)
    } else {
        None
    }
}

/// The result kind of a query: from `kind:<kind>`, else from `ref:"ref:<kind>:<id>"`.
pub open spec fn inferred_kind(query: Seq<char>) -> Option<Seq<char>> {
    match group_if_compiles(kind_pattern(), query) {
        Some(k) => Some(k),
        None => group_if_compiles(ref_kind_pattern(), query),
    }
}

/// Whether the query filters on a `free_text` field.
pub open spec fn mentions_free_text(query: Seq<char>) -> bool {
    regex_compiles(free_text_pattern()) && regex_is_match(free_text_pattern(), query)
}

/// The result kind named by a query (see [`inferred_kind`]).
pub fn infer_kind(query: &str) -> (r: Option<String>)
    ensures
        opt_view(r) == inferred_kind(query@),
{
    match regex_first_group("(?:^|[\\s(])kind:([A-Za-z0-9_.-]+)", query) {
        Some(Some(kind)) => Some(kind),
        _ => match regex_first_group("(?:^|[\\s(])ref\\s*:\\s*\"ref:([^:\"]+):", query) {
            Some(g) => g,
            None => None,
        },
    }
}

/// Whether the query filters on a `free_text` field (see [`mentions_free_text`]).
pub fn has_free_text_filter(query: &str) -> (r: bool)
    ensures
        r == mentions_free_text(query@),
{
    match regex_matches("(?:^|[\\s(])free_text\\s*:", query) {
        Some(b) => b,
        None => false,
    }
}

/// Whitespace that separates boolean operators.
pub open spec fn is_space(c: char) -> bool {
    c == ' ' || c == '\t' || c == '\r' || c == '\n'
}

/// Whether position `j` of `s` ends a boolean operator: outside the text, whitespace,
/// or a parenthesis.
pub open spec fn boundary_at(s: Seq<char>, j: int) -> bool {
    j < 0 || j >= s.len() || is_space(s[j]) || s[j] == '(' || s[j] == ')'
}

/// Scanner state: least depth of a term, depths of `OR` operators, current depth,
/// inside a quoted string, after a backslash in a quoted string.
pub struct OrScan {
    pub minimum_depth: int,
    pub or_depths: Seq<int>,
    pub depth: int,
    pub in_quote: bool,
    pub escaped: bool,
}

/// Reads character `i` of `s`.
pub open spec fn or_step(s: Seq<char>, i: int, st: OrScan) -> OrScan {
    let c = s[i];
    if st.in_quote {
        if st.escaped {
            OrScan { escaped: false, ..st }
        } else if c == '\\' {
            OrScan { escaped: true, ..st }
        } else if c == '"' {
            OrScan { in_quote: false, ..st }
        } else {
            st
        }
    } else if c == '"' {
        OrScan { in_quote: true, ..st }
    } else if c == '(' {
        OrScan { depth: st.depth + 1, ..st }
    } else if c == ')' {
        OrScan { depth: if st.depth > 0 { st.depth - 1 } else { 0 }, ..st }
    } else if is_space(c) {
        st
    } else {
        let m = if st.depth < st.minimum_depth { st.depth } else { st.minimum_depth };
        let is_or = c == 'O' && i + 1 < s.len() && s[i + 1] == 'R' && boundary_at(s, i - 1)
            && boundary_at(s, i + 2);
        OrScan {
            minimum_depth: m,
            or_depths: if is_or { st.or_depths.push(st.depth) } else { st.or_depths },
            ..st
        }
    }
}

/// The state after reading the first `n` characters of `s`.
pub open spec fn or_scan(s: Seq<char>, n: nat) -> OrScan
    decreases n,
{
    if n == 0 {
        OrScan {
            minimum_depth: usize::MAX as int,
            or_depths: Seq::empty(),
            depth: 0,
            in_quote: false,
            escaped: false,
        }
    } else {
        or_step(s, n - 1, or_scan(s, (n - 1) as nat))
    }
}

/// Position `i` of `s` holds a character of a term: outside quotes, and not a
/// quote, a parenthesis or whitespace.
pub open spec fn term_at(s: Seq<char>, i: int) -> bool {
    &&& 0 <= i < s.len()
    &&& !or_scan(s, i as nat).in_quote
    &&& s[i] != '"'
    &&& s[i] != '('
    &&& s[i] != ')'
    &&& !is_space(s[i])
}

/// An `OR` operator starts at position `i` of `s`: a term character `O`
/// followed by `R`, with a boundary on both sides.
pub open spec fn or_at(s: Seq<char>, i: int) -> bool {
    &&& term_at(s, i)
    &&& s[i] == 'O'
    &&& i + 1 < s.len()
    &&& s[i + 1] == 'R'
    &&& boundary_at(s, i - 1)
    &&& boundary_at(s, i + 2)
}

/// The parenthesis depth at position `i` of `s`.
pub open spec fn depth_at(s: Seq<char>, i: int) -> int {
    or_scan(s, i as nat).depth
}

/// An `OR` sits at the shallowest depth at which any term occurs, so it splits the
/// whole query rather than a parenthesized group.
pub open spec fn top_level_or(s: Seq<char>) -> bool {
    exists|i: int|
        #[trigger] or_at(s, i) && forall|j: int| #[trigger] term_at(s, j) ==> depth_at(s, i) <= depth_at(s, j)
}

/// What the scanner keeps after `n` characters: the depths of the `OR`s read,
/// and the least depth of the terms read (`usize::MAX` before the first).
proof fn lemma_or_scan_summary(s: Seq<char>, n: nat)
    requires
        n <= s.len(),
    ensures
        0 <= or_scan(s, n).depth <= n,
        forall|d: int| #[trigger] or_scan(s, n).or_depths.contains(d) <==> exists|i: int|
            0 <= i < n && #[trigger] or_at(s, i) && depth_at(s, i) == d,
        forall|j: int| 0 <= j < n && #[trigger] term_at(s, j) ==> or_scan(s, n).minimum_depth
            <= depth_at(s, j),
        or_scan(s, n).minimum_depth == usize::MAX || exists|j: int|
            0 <= j < n && #[trigger] term_at(s, j) && depth_at(s, j) == or_scan(s, n).minimum_depth,
        or_scan(s, n).minimum_depth <= usize::MAX,
    decreases n,
{
    if n > 0 {
        let m = (n - 1) as nat;
        lemma_or_scan_summary(s, m);
        let st = or_scan(s, m);
        let nx = or_scan(s, n);
        let i = m as int;
        assert(nx == or_step(s, i, st));
        assert forall|d: int| #[trigger] nx.or_depths.contains(d) <==> exists|k: int|
            0 <= k < n && #[trigger] or_at(s, k) && depth_at(s, k) == d by {
            if nx.or_depths.contains(d) {
                if st.or_depths.contains(d) {
                    let k = choose|k: int| 0 <= k < m && #[trigger] or_at(s, k) && depth_at(s, k) == d;
                    assert(0 <= k < n && or_at(s, k) && depth_at(s, k) == d);
                } else {
                    assert(nx.or_depths == st.or_depths.push(st.depth));
                    let w = choose|w: int| 0 <= w < nx.or_depths.len() && nx.or_depths[w] == d;
                    if w < st.or_depths.len() {
                        assert(st.or_depths[w] == d);
                    }
                    assert(or_at(s, i) && depth_at(s, i) == d);
                }
            }
            if exists|k: int| 0 <= k < n && #[trigger] or_at(s, k) && depth_at(s, k) == d {
                let k = choose|k: int| 0 <= k < n && #[trigger] or_at(s, k) && depth_at(s, k) == d;
                if k < m {
                    assert(st.or_depths.contains(d));
                    let w = choose|w: int| 0 <= w < st.or_depths.len() && st.or_depths[w] == d;
                    if nx.or_depths != st.or_depths {
                        assert(nx.or_depths == st.or_depths.push(st.depth));
                        assert(nx.or_depths[w] == d);
                    }
                } else {
                    assert(k == i);
                    assert(nx.or_depths == st.or_depths.push(st.depth));
                    assert(nx.or_depths[st.or_depths.len() as int] == d);
                }
            }
        }
        assert forall|j: int| 0 <= j < n && #[trigger] term_at(s, j) implies nx.minimum_depth
            <= depth_at(s, j) by {
            if j < m {
            } else {
                assert(j == i);
            }
        }
        if nx.minimum_depth != usize::MAX {
            if term_at(s, i) && st.depth < st.minimum_depth {
                assert(term_at(s, i) && depth_at(s, i) == nx.minimum_depth);
            } else {
                let j = choose|j: int| 0 <= j < m && #[trigger] term_at(s, j) && depth_at(s, j)
                    == st.minimum_depth;
                assert(0 <= j < n && term_at(s, j));
            }
        }
    }
}

/// The scanner's answer is [`top_level_or`].
proof fn lemma_or_scan_decides(s: Seq<char>)
    requires
        s.len() <= usize::MAX,
    ensures
        ({
            let st = or_scan(s, s.len());
            st.or_depths.contains(st.minimum_depth) == top_level_or(s)
        }),
{
    let st = or_scan(s, s.len());
    lemma_or_scan_summary(s, s.len());
    if st.or_depths.contains(st.minimum_depth) {
        let i = choose|i: int| 0 <= i < s.len() && #[trigger] or_at(s, i) && depth_at(s, i)
            == st.minimum_depth;
        assert forall|j: int| #[trigger] term_at(s, j) implies depth_at(s, i) <= depth_at(s, j) by {}
        assert(or_at(s, i));
    }
    if top_level_or(s) {
        let i = choose|i: int|
            #[trigger] or_at(s, i) && forall|j: int| #[trigger] term_at(s, j) ==> depth_at(s, i)
                <= depth_at(s, j);
        assert(term_at(s, i));
        assert(st.minimum_depth <= depth_at(s, i));
        lemma_or_scan_summary(s, i as nat);
        assert(0 <= depth_at(s, i) <= i);
        assert(st.minimum_depth < usize::MAX);
        let j = choose|j: int| 0 <= j < s.len() && #[trigger] term_at(s, j) && depth_at(s, j)
            == st.minimum_depth;
        assert(depth_at(s, i) <= depth_at(s, j));
        assert(st.or_depths.contains(depth_at(s, i)));
    }
}

fn is_space_exec(c: char) -> (r: bool)
    ensures
        r == is_space(c),
{
    c == ' ' || c == '\t' || c == '\r' || c == '\n'
}

/// Whether position `index` of `v` ends a boolean operator.
pub fn boolean_boundary(v: &[char], index: Option<usize>) -> (r: bool)
    ensures
        r == match index {
            Some(j) => boundary_at(v@, j as int),
            None => true,
        },
{
    match index {
        None => true,
        Some(j) => {
            if j >= v.len() {
                true
            } else {
                let c = v[j];
                is_space_exec(c) || c == '(' || c == ')'
            }
        },
    }
}

/// Whether the query has a top-level `OR` (see [`top_level_or`]).
pub fn has_semantic_top_level_or(query: &str) -> (r: bool)
    ensures
        r == top_level_or(query@),
{
    let v = to_chars(query);
    let mut minimum_depth: usize = usize::MAX;
    let mut or_depths: Vec<usize> = Vec::new();
    let mut depth: usize = 0;
    let mut in_quote = false;
    let mut escaped = false;
    let mut i: usize = 0;
    while i < v.len()
        invariant
            i <= v@.len(),
            v@ == query@,
            depth <= i,
            ({
                let st = or_scan(v@, i as nat);
                &&& st.minimum_depth == minimum_depth as int
                &&& st.or_depths == or_depths@.map_values(|d: usize| d as int)
                &&& st.depth == depth as int
                &&& st.in_quote == in_quote
                &&& st.escaped == escaped
            }),
        decreases v@.len() - i,
    {
        let c = v[i];
        if in_quote {
            if escaped {
                escaped = false;
            } else if c == '\\' {
                escaped = true;
            } else if c == '"' {
                in_quote = false;
            }
        } else if c == '"' {
            in_quote = true;
        } else if c == '(' {
            depth += 1;
        } else if c == ')' {
            if depth > 0 {
                depth -= 1;
            }
        } else if is_space_exec(c) {
        } else {
            if depth < minimum_depth {
                minimum_depth = depth;
            }
            let prev = if i == 0 {
                None
            } else {
                Some(i - 1)
            };
            if c == 'O' && i + 1 < v.len() && v[i + 1] == 'R' && boolean_boundary(&v, prev)
                && boolean_boundary(&v, Some(i + 2)) {
                let ghost before = or_depths@;
                or_depths.push(depth);
                assert(or_depths@.map_values(|d: usize| d as int) =~= before.map_values(
                    |d: usize| d as int,
                ).push(depth as int));
            }
        }
        i += 1;
    }
    let mut found = false;
    let mut k: usize = 0;
    while k < or_depths.len()
        invariant
            k <= or_depths@.len(),
            found == exists|j: int| 0 <= j < k && or_depths@[j] == minimum_depth,
        decreases or_depths@.len() - k,
    {
        if or_depths[k] == minimum_depth {
            found = true;
        }
        k += 1;
    }
    proof {
        lemma_or_scan_decides(v@);
        let st = or_scan(v@, v@.len());
        if found {
            let j = choose|j: int| 0 <= j < or_depths@.len() && or_depths@[j] == minimum_depth;
            assert(st.or_depths[j] == st.minimum_depth);
        }
        if st.or_depths.contains(st.minimum_depth) {
            let j = choose|j: int| 0 <= j < st.or_depths.len() && st.or_depths[j] == st.minimum_depth;
            assert(or_depths@[j] == minimum_depth);
        }
    }
    found
}

/// Length of the number at the start of a Go duration component: digits, optionally
/// followed by `.` and further digits (a `.` without digits after it is not taken).
pub open spec fn number_len(s: Seq<char>) -> int {
    let i = digit_run(s, 0);
    if i == 0 {
        0
    } else if i < s.len() && s[i] == '.' {
        let f = digit_run(s, i + 1) - (i + 1);
        if f == 0 {
            i
        } else {
            i + 1 + f
        }
    } else {
        i
    }
}

/// The end of the run of ASCII digits starting at `from`.
pub open spec fn digit_run(s: Seq<char>, from: int) -> int
    decreases s.len() - from,
{
    if 0 <= from < s.len() && '0' <= s[from] <= '9' {
        digit_run(s, from + 1)
    } else {
        from
    }
}

/// The first unit that `s` starts with.
pub open spec fn unit_prefix(s: Seq<char>) -> Option<Seq<char>> {
    if starts_with(s, "ns"@) {
        Some("ns"@)
    } else if starts_with(s, "us"@) {
        Some("us"@)
    } else if starts_with(s, "µs"@) {
        Some("µs"@)
    } else if starts_with(s, "ms"@) {
        Some("ms"@)
    } else if starts_with(s, "s"@) {
        Some("s"@)
    } else if starts_with(s, "m"@) {
        Some("m"@)
    } else if starts_with(s, "h"@) {
        Some("h"@)
    } else {
        None
    }
}

/// A sequence of number-unit components.
pub open spec fn go_components(s: Seq<char>) -> bool
    decreases s.len(),
{
    if s.len() == 0 {
        true
    } else {
        let n = number_len(s);
        if n <= 0 || n > s.len() {
            false
        } else {
            match unit_prefix(s.skip(n)) {
                Some(u) => if u.len() > 0 {
                    go_components(s.skip(n).skip(u.len() as int))
                } else {
                    false
                },
                None => false,
            }
        }
    }
}

/// A nonempty, unsigned Go duration such as `1h30m` or `1.5h`.
pub open spec fn go_duration(s: Seq<char>) -> bool {
    s.len() > 0 && s[0] != '+' && s[0] != '-' && go_components(s)
}

proof fn lemma_digit_run_bounds(s: Seq<char>, from: int)
    requires
        0 <= from,
    ensures
        from <= digit_run(s, from),
        from <= s.len() ==> digit_run(s, from) <= s.len(),
        forall|j: int| from <= j < digit_run(s, from) ==> '0' <= #[trigger] s[j] <= '9',
        digit_run(s, from) < s.len() ==> !('0' <= s[digit_run(s, from)] <= '9'),
    decreases s.len() - from,
{
    if 0 <= from < s.len() && '0' <= s[from] <= '9' {
        lemma_digit_run_bounds(s, from + 1);
    }
}

fn digit_run_exec(v: &[char], from: usize) -> (r: usize)
    requires
        from <= v.len(),
    ensures
        r as int == digit_run(v@, from as int),
        from <= r <= v.len(),
{
    let mut i = from;
    while i < v.len() && '0' <= v[i] && v[i] <= '9'
        invariant
            from <= i <= v.len(),
            digit_run(v@, from as int) == digit_run(v@, i as int),
        decreases v.len() - i,
    {
        i += 1;
    }
    proof {
        lemma_digit_run_bounds(v@, i as int);
    }
    i
}

/// Length of the number at the start of `v` (see [`number_len`]).
pub fn duration_number_len(v: &[char]) -> (r: usize)
    ensures
        r as int == number_len(v@),
        r <= v.len(),
{
    let i = digit_run_exec(v, 0);
    if i == 0 {
        return 0;
    }
    if i < v.len() && v[i] == '.' {
        let e = digit_run_exec(v, i + 1);
        if e == i + 1 {
            i
        } else {
            e
        }
    } else {
        i
    }
}

/// The unit that `v` starts with (see [`unit_prefix`]), as its length.
fn unit_prefix_len(v: &[char]) -> (r: Option<usize>)
    ensures
        match r {
            Some(n) => unit_prefix(v@) matches Some(u) && u.len() == n && n > 0,
            None => unit_prefix(v@) is None,
        },
{
    proof {
        reveal_strlit("ns");
        reveal_strlit("us");
        reveal_strlit("µs");
        reveal_strlit("ms");
        reveal_strlit("s");
        reveal_strlit("m");
        reveal_strlit("h");
    }
    if starts_with_chars(v, &to_chars("ns")) {
        Some(2)
    } else if starts_with_chars(v, &to_chars("us")) {
        Some(2)
    } else if starts_with_chars(v, &to_chars("µs")) {
        Some(2)
    } else if starts_with_chars(v, &to_chars("ms")) {
        Some(2)
    } else if starts_with_chars(v, &to_chars("s")) {
        Some(1)
    } else if starts_with_chars(v, &to_chars("m")) {
        Some(1)
    } else if starts_with_chars(v, &to_chars("h")) {
        Some(1)
    } else {
        None
    }
}

/// Whether a text is a positive-form Go duration (see [`go_duration`]).
pub fn is_valid_go_duration(value: &str) -> (r: bool)
    ensures
        r == go_duration(value@),
{
    let v = to_chars(value);
    if v.len() == 0 || v[0] == '+' || v[0] == '-' {
        return false;
    }
    let mut rest = v;
    while rest.len() > 0
        invariant
            go_components(rest@) == go_components(value@),
        decreases rest.len(),
    {
        let n = duration_number_len(&rest);
        if n == 0 {
            return false;
        }
        let after = crate::text::slice_chars(&rest, n, rest.len());
        assert(after@ =~= rest@.skip(n as int));
        match unit_prefix_len(&after) {
            None => {
                return false;
            },
            Some(u) => {
                let next = crate::text::slice_chars(&after, u, after.len());
                assert(next@ =~= after@.skip(u as int));
                rest = next;
            },
        }
    }
    true
}

} // verus!
