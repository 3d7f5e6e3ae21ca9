//! `pup notebooks`: the Markdown endpoints' responses and errors, search
//! filters and pages, and the checks on Markdown files.
use vstd::prelude::*;
use vstd::utf8::{decode_utf8, valid_utf8};

use crate::chain::ErrorChain;
use crate::idp::migrate::{entries1, push_member};
use crate::json::{
    copy_json, entry_get, get, jentries, jobj, jv, jvs, lemma_entry_get_vinsert, number_as_u64,
    number_u64, obj_insert, parse_json_bytes, json_bytes_document, json_document,
    parse_json_document, str_at, vget, vinsert, Json, JsonV,
};

use crate::text::{
    ascii_lower, ascii_lower_chars, chars_eq, concat2, concat3, contains_str, contains_sub,
    debug_quoted, debug_str, decimal, first_index, from_chars, join, join_strings, owned,
    split_once, split_once_chars, split_whitespace, starts_with, str_eq, to_chars, trim, trim_chars, trim_str,
    usize_to_string, words,
};

verus! {

/// The detail by which the backend reports a notebook it cannot render.
pub open spec fn unrenderable_detail() -> Seq<char> {
    "Unable to render the notebook as Markdown"@
}

/// The context added for a GET of a notebook without a Markdown form.
pub open spec fn unprojectable_context() -> Seq<char> {
    "this notebook has no Markdown representation (notebooks created through the older cells API cannot be projected); use the JSON form of this command instead"@
}

/// The context added when the render after a write failed.
pub open spec fn write_unknown_context() -> Seq<char> {
    "the notebook could not be rendered as Markdown after the write, so it is unknown whether the change was applied; check the notebook before retrying, and use the JSON form of this command for it"@
}

/// Explains a Markdown endpoint's failure to render a notebook: for a GET the
/// notebook has no Markdown form; after a write the outcome is unknown. Other
/// errors are returned as they are.
pub fn translate_markdown_error(error: ErrorChain, method: &str) -> (r: ErrorChain)
    ensures
        !contains_str(error.chain()[0], unrenderable_detail()) ==> r.chain() == error.chain(),
        contains_str(error.chain()[0], unrenderable_detail()) ==> r.chain() == seq![
            if ascii_lower(method@) == "get"@ {
                unprojectable_context()
            } else {
                write_unknown_context()
            },
        ] + error.chain(),
{
    let top = error.to_string();
    if !contains_sub(&to_chars(top.as_str()), &to_chars("Unable to render the notebook as Markdown")) {
        return error;
    }
    if chars_eq(&ascii_lower_chars(&to_chars(method)), &to_chars("get")) {
        return error.context(
            owned(
                "this notebook has no Markdown representation (notebooks created through the older cells API cannot be projected); use the JSON form of this command instead",
            ),
        );
    }
    error.context(
        owned(
            "the notebook could not be rendered as Markdown after the write, so it is unknown whether the change was applied; check the notebook before retrying, and use the JSON form of this command for it",
        ),
    )
}

/// The media type of a `Content-Type` value: the part before any `;`, trimmed
/// and ASCII-lowercased.
pub open spec fn media_type(content_type: Seq<char>) -> Seq<char> {
    let head = match first_index(content_type, ';') {
        Some(i) => content_type.take(i),
        None => content_type,
    };
    ascii_lower(trim(head))
}

/// The media type of a `Content-Type` value (see [`media_type`]).
pub fn media_type_of(content_type: &str) -> (r: String)
    ensures
        r@ == media_type(content_type@),
{
    let v = to_chars(content_type);
    let head = match split_once_chars(&v, ';') {
        Some((h, _)) => h,
        None => v,
    };
    from_chars(&ascii_lower_chars(&trim_chars(&head)))
}

/// The context added when a write was accepted but its response was unusable.
pub open spec fn applied_context(operation: Seq<char>) -> Seq<char> {
    "the "@ + operation
        + " was accepted but its response could not be read, so the notebook has probably changed; check it before retrying"@
}

/// Adds to `error` that the write `operation` probably took effect.
pub fn applied_write_context(error: ErrorChain, operation: &str) -> (r: ErrorChain)
    ensures
        r.chain() == seq![applied_context(operation@)] + error.chain(),
{
    let message = concat3(
        "the ",
        operation,
        " was accepted but its response could not be read, so the notebook has probably changed; check it before retrying",
    );
    error.context(message)
}

/// A response of the notebooks API: its `Content-Type` and body.
#[derive(Debug)]
pub struct HttpResponse {
    pub content_type: String,
    pub bytes: Vec<u8>,
}

/// The bytes that `u8::is_ascii_whitespace` accepts: space, tab, line feed,
/// form feed and carriage return.
pub open spec fn ascii_ws_byte(b: u8) -> bool {
    b == 0x20 || b == 0x09 || b == 0x0a || b == 0x0c || b == 0x0d
}

/// Every byte is ASCII whitespace.
pub open spec fn blank_bytes(b: Seq<u8>) -> bool {
    forall|i: int| 0 <= i < b.len() ==> ascii_ws_byte(#[trigger] b[i])
}

/// `String::from_utf8`: the text when the bytes are valid UTF-8, else the
/// error's message (its wording is not stated).
#[verifier::external_body]
fn string_from_utf8(bytes: Vec<u8>) -> (r: Result<String, String>)
    ensures
        match r {
            Ok(s) => valid_utf8(bytes@) && s@ == decode_utf8(bytes@),
            Err(_) => !valid_utf8(bytes@),
        },
{
    String::from_utf8(bytes).map_err(|e| e.to_string())
}

fn all_blank(b: &Vec<u8>) -> (r: bool)
    ensures
        r == blank_bytes(b@),
{
    let mut i: usize = 0;
    while i < b.len()
        invariant
            i <= b@.len(),
            forall|j: int| 0 <= j < i ==> ascii_ws_byte(#[trigger] b@[j]),
        decreases b@.len() - i,
    {
        let x = b[i];
        if !(x == 0x20 || x == 0x09 || x == 0x0a || x == 0x0c || x == 0x0d) {
            return false;
        }
        i += 1;
    }
    true
}

/// The document in a Markdown response: refused unless its media type is
/// `text/markdown`, its body is not blank, and the body is valid UTF-8.
pub fn decode_markdown_response(resp: HttpResponse) -> (r: Result<String, ErrorChain>)
    ensures
        media_type(resp.content_type@) != "text/markdown"@ ==> (r matches Err(e) && e.chain()
            == seq![
            "expected a Markdown response but the server returned "@ + debug_quoted(
                resp.content_type@,
            ),
        ]),
        media_type(resp.content_type@) == "text/markdown"@ && blank_bytes(resp.bytes@) ==> (r matches Err(
            e,
        ) && e.chain() == seq!["the server returned an empty Markdown document"@]),
        media_type(resp.content_type@) == "text/markdown"@ && !blank_bytes(resp.bytes@) ==> match r {
            Ok(s) => valid_utf8(resp.bytes@) && s@ == decode_utf8(resp.bytes@),
            Err(e) => !valid_utf8(resp.bytes@) && e.chain().len() == 1 && starts_with(
                e.chain()[0],
                "notebook Markdown response was not valid UTF-8: "@,
            ),
        },
{
    let media = media_type_of(resp.content_type.as_str());
    if !str_eq(media.as_str(), "text/markdown") {
        let q = debug_str(resp.content_type.as_str());
        return Err(
            ErrorChain::new(
                concat2("expected a Markdown response but the server returned ", q.as_str()),
            ),
        );
    }
    if all_blank(&resp.bytes) {
        return Err(ErrorChain::new(owned("the server returned an empty Markdown document")));
    }
    match string_from_utf8(resp.bytes) {
        Ok(s) => Ok(s),
        Err(m) => {
            let msg = concat2("notebook Markdown response was not valid UTF-8: ", m.as_str());
            assert(msg@.take("notebook Markdown response was not valid UTF-8: "@.len() as int)
                =~= "notebook Markdown response was not valid UTF-8: "@);
            Err(ErrorChain::new(msg))
        },
    }
}

/// A search filter: a field and a value, both nonempty.
pub open spec fn filter_pair(word: Seq<char>) -> Result<(Seq<char>, Seq<char>), Seq<char>> {
    match split_once(word, ':') {
        None => Err(
            "invalid filter '"@ + word + "': expected FIELD:VALUE (for example, tags:production)"@,
        ),
        Some((f, v)) => if f.len() == 0 || v.len() == 0 {
            Err("invalid filter '"@ + word + "': both FIELD and VALUE must be non-empty"@)
        } else {
            Ok(("filter["@ + f + "]"@, v))
        },
    }
}

/// The filter parameters of whitespace-separated `FIELD:VALUE` words, or the
/// message for the first word that is not one.
pub open spec fn filters_spec(ws: Seq<Seq<char>>) -> Result<Seq<(Seq<char>, Seq<char>)>, Seq<char>>
    decreases ws.len(),
{
    if ws.len() == 0 {
        Ok(Seq::empty())
    } else {
        match filters_spec(ws.drop_last()) {
            Err(e) => Err(e),
            Ok(p) => match filter_pair(ws.last()) {
                Err(e) => Err(e),
                Ok(x) => Ok(p.push(x)),
            },
        }
    }
}

/// All words of the filters, in order.
pub open spec fn filter_words(filters: Seq<String>) -> Seq<Seq<char>>
    decreases filters.len(),
{
    if filters.len() == 0 {
        Seq::empty()
    } else {
        filter_words(filters.drop_last()) + words(filters.last()@)
    }
}

proof fn lemma_filters_err(ws: Seq<Seq<char>>, k: int)
    requires
        0 <= k < ws.len(),
        filters_spec(ws.take(k + 1)) is Err,
    ensures
        filters_spec(ws) == filters_spec(ws.take(k + 1)),
    decreases ws.len(),
{
    if ws.len() == k + 1 {
        assert(ws.take(k + 1) =~= ws);
    } else {
        assert(ws.drop_last().take(k + 1) =~= ws.take(k + 1));
        lemma_filters_err(ws.drop_last(), k);
    }
}

/// The search filter parameters `filter[FIELD]` = `VALUE` of `--filter` values,
/// each split at whitespace into `FIELD:VALUE` words.
pub fn parse_filters(filters: &[String]) -> (r: Result<Vec<(String, String)>, ErrorChain>)
    ensures
        match filters_spec(filter_words(filters@)) {
            Ok(p) => r matches Ok(v) && v@.map_values(|e: (String, String)| (e.0@, e.1@)) == p,
            Err(m) => r matches Err(e) && e.chain() == seq![m],
        },
{
    let mut all: Vec<String> = Vec::new();
    let mut i: usize = 0;
    assert(all@.map_values(|w: String| w@) =~= filter_words(filters@.take(0)));
    while i < filters.len()
        invariant
            i <= filters@.len(),
            all@.map_values(|w: String| w@) == filter_words(filters@.take(i as int)),
        decreases filters@.len() - i,
    {
        let ws = split_whitespace(filters[i].as_str());
        let ghost before = all@.map_values(|w: String| w@);
        let mut j: usize = 0;
        while j < ws.len()
            invariant
                j <= ws@.len(),
                all@.map_values(|w: String| w@) == before + ws@.map_values(|w: String| w@).take(
                    j as int,
                ),
            decreases ws@.len() - j,
        {
            let ghost b2 = all@.map_values(|w: String| w@);
            all.push(ws[j].clone());
            assert(all@.map_values(|w: String| w@) =~= b2.push(ws@[j as int]@));
            assert(ws@.map_values(|w: String| w@).take(j + 1) =~= ws@.map_values(|w: String| w@).take(
                j as int,
            ).push(ws@[j as int]@));
            j += 1;
        }
        assert(ws@.map_values(|w: String| w@).take(ws@.len() as int) =~= ws@.map_values(
            |w: String| w@,
        ));
        assert(filters@.take(i + 1).drop_last() =~= filters@.take(i as int));
        i += 1;
    }
    assert(filters@.take(filters@.len() as int) =~= filters@);
    let ghost w = all@.map_values(|x: String| x@);
    let mut out: Vec<(String, String)> = Vec::new();
    let mut k: usize = 0;
    assert(w.take(0) =~= Seq::<Seq<char>>::empty());
    assert(out@.map_values(|e: (String, String)| (e.0@, e.1@)) =~= Seq::<(Seq<char>, Seq<char>)>::empty());
    while k < all.len()
        invariant
            k <= all@.len(),
            w == all@.map_values(|x: String| x@),
            w == filter_words(filters@),
            filters_spec(w.take(k as int)) == Ok::<Seq<(Seq<char>, Seq<char>)>, Seq<char>>(
                out@.map_values(|e: (String, String)| (e.0@, e.1@)),
            ),
        decreases all@.len() - k,
    {
        assert(w.take(k + 1).drop_last() =~= w.take(k as int));
        assert(w.take(k + 1).last() == all@[k as int]@);
        let word = all[k].as_str();
        let v = to_chars(word);
        match split_once_chars(&v, ':') {
            None => {
                let m = concat3(
                    "invalid filter '",
                    word,
                    "': expected FIELD:VALUE (for example, tags:production)",
                );
                proof {
                    lemma_filters_err(w, k as int);
                    assert(w.take(all@.len() as int) =~= w);
                }
                return Err(ErrorChain::new(m));
            },
            Some((f, val)) => {
                if f.len() == 0 || val.len() == 0 {
                    let m = concat3(
                        "invalid filter '",
                        word,
                        "': both FIELD and VALUE must be non-empty",
                    );
                    proof {
                        lemma_filters_err(w, k as int);
                        assert(w.take(all@.len() as int) =~= w);
                    }
                    return Err(ErrorChain::new(m));
                }
                let key = concat3("filter[", from_chars(&f).as_str(), "]");
                let ghost before = out@.map_values(|e: (String, String)| (e.0@, e.1@));
                out.push((key, from_chars(&val)));
                assert(out@.map_values(|e: (String, String)| (e.0@, e.1@)) =~= before.push(
                    ("filter["@ + f@ + "]"@, val@),
                ));
            },
        }
        k += 1;
    }
    assert(w.take(all@.len() as int) =~= w);
    Ok(out)
}

/// The most notebooks one search returns.
pub const MAX_RESULTS: usize = 1000;

/// The query parameters of a notebook search: query, sort, page size and the
/// first page, then the filters.
pub fn search_params(query: &str, filters: &Vec<(String, String)>, sort: &str, limit: usize) -> (r:
    Result<Vec<(String, String)>, ErrorChain>)
    ensures
        !(1 <= limit <= MAX_RESULTS) ==> (r matches Err(e) && e.chain() == seq![
            "--limit must be between 1 and 1000, got "@ + decimal(limit as int),
        ]),
        1 <= limit <= MAX_RESULTS ==> (r matches Ok(p) && p@.map_values(
            |e: (String, String)| (e.0@, e.1@),
        ) == seq![
            ("query"@, query@),
            ("sort"@, sort@),
            ("page[size]"@, decimal(limit as int)),
            ("page[number]"@, "0"@),
        ] + filters@.map_values(|e: (String, String)| (e.0@, e.1@))),
{
    if limit < 1 || limit > MAX_RESULTS {
        let n = usize_to_string(limit);
        return Err(ErrorChain::new(concat2("--limit must be between 1 and 1000, got ", n.as_str())));
    }
    let mut params: Vec<(String, String)> = Vec::new();
    params.push((owned("query"), owned(query)));
    params.push((owned("sort"), owned(sort)));
    params.push((owned("page[size]"), usize_to_string(limit)));
    params.push((owned("page[number]"), owned("0")));
    let ghost head = params@.map_values(|e: (String, String)| (e.0@, e.1@));
    let ghost fs = filters@.map_values(|e: (String, String)| (e.0@, e.1@));
    let mut i: usize = 0;
    assert(head + fs.take(0) =~= head);
    while i < filters.len()
        invariant
            i <= filters@.len(),
            fs == filters@.map_values(|e: (String, String)| (e.0@, e.1@)),
            params@.map_values(|e: (String, String)| (e.0@, e.1@)) == head + fs.take(i as int),
        decreases filters@.len() - i,
    {
        let ghost before = params@.map_values(|e: (String, String)| (e.0@, e.1@));
        params.push((filters[i].0.clone(), filters[i].1.clone()));
        assert(params@.map_values(|e: (String, String)| (e.0@, e.1@)) =~= before.push(fs[i as int]));
        assert(head + fs.take(i + 1) =~= (head + fs.take(i as int)).push(fs[i as int]));
        i += 1;
    }
    assert(fs.take(filters@.len() as int) =~= fs);
    Ok(params)
}

/// How many notebooks a page yields and whether more exist: at most `limit`
/// of the returned ones, truncated when fewer than the reported total.
pub fn page_summary(returned: usize, total: Option<u64>, limit: usize) -> (r: (usize, bool))
    ensures
        r.0 == if returned < limit {
            returned
        } else {
            limit
        },
        r.1 == (total matches Some(t) && (r.0 as int) < t),
{
    let count = if returned < limit {
        returned
    } else {
        limit
    };
    let truncated = match total {
        Some(t) => (count as u64) < t,
        None => false,
    };
    (count, truncated)
}

/// The string at `data.id` of a JSON value, when there is one.
pub open spec fn data_id(body: JsonV) -> Option<Seq<char>> {
    match vget(body, "data"@) {
        Some(d) => str_at(d, "id"@),
        None => None,
    }
}

/// The id of a created notebook, from a JSON:API (or JSON) response.
pub fn created_notebook_id(resp: HttpResponse) -> (r: Result<String, ErrorChain>)
    ensures
        ({
            let m = media_type(resp.content_type@);
            &&& m != "application/vnd.api+json"@ && m != "application/json"@ ==> (r matches Err(e)
                && e.chain() == seq![
                "expected a JSON:API response but the server returned "@ + debug_quoted(
                    resp.content_type@,
                ),
            ])
            &&& (m == "application/vnd.api+json"@ || m == "application/json"@) ==> match json_bytes_document(
                resp.bytes@,
            ) {
                Ok(body) => match data_id(body) {
                    Some(id) => r matches Ok(s) && s@ == id,
                    None => r matches Err(e) && e.chain() == seq![
                        "notebook create response did not contain data.id"@,
                    ],
                },
                Err(msg) => r matches Err(e) && e.chain() == seq![
                    "failed to parse the notebook create response: "@ + msg,
                ],
            }
        }),
{
    let media = media_type_of(resp.content_type.as_str());
    if !str_eq(media.as_str(), "application/vnd.api+json") && !str_eq(
        media.as_str(),
        "application/json",
    ) {
        let q = debug_str(resp.content_type.as_str());
        return Err(
            ErrorChain::new(
                concat2("expected a JSON:API response but the server returned ", q.as_str()),
            ),
        );
    }
    let body = match parse_json_bytes(resp.bytes.as_slice()) {
        Err(m) => {
            return Err(
                ErrorChain::new(concat2("failed to parse the notebook create response: ", m.as_str())),
            );
        },
        Ok(b) => b,
    };
    let id = match get(&body, "data") {
        Some(d) => match get(d, "id") {
            Some(Json::Str(s)) => Some(s.clone()),
            _ => None,
        },
        None => None,
    };
    match id {
        None => Err(ErrorChain::new(owned("notebook create response did not contain data.id"))),
        Some(id) => Ok(id),
    }
}

/// Whether `serde_json` reads a text as JSON.
pub open spec fn json_valid(s: Seq<char>) -> bool {
    json_document(s) is Ok
}

fn parses_as_json(s: &str) -> (r: bool)
    ensures
        r == json_valid(s@),
{
    parse_json_document(s).is_ok()
}

/// `s` without its leading byte-order marks.
pub open spec fn strip_boms(s: Seq<char>) -> Seq<char>
    decreases s.len(),
{
    if s.len() > 0 && s[0] == '\u{feff}' {
        strip_boms(s.drop_first())
    } else {
        s
    }
}

/// Checks the text of a Markdown file named `file`: refused when it is blank,
/// or when it is (after byte-order marks) a JSON object or array, which the
/// Markdown endpoints would store as prose. The text comes back unchanged.
pub fn check_markdown_content(file: &str, content: String) -> (r: Result<String, ErrorChain>)
    ensures
        ({
            let t = trim(strip_boms(content@));
            &&& t.len() == 0 ==> (r matches Err(e) && e.chain() == seq![file@ + " is empty"@])
            &&& t.len() > 0 && (t[0] == '{' || t[0] == '[') && json_valid(t) ==> (r matches Err(e)
                && e.chain() == seq![
                file@ + " contains JSON, not Markdown; drop --markdown to use the JSON API"@,
            ])
            &&& t.len() > 0 && !((t[0] == '{' || t[0] == '[') && json_valid(t)) ==> (r matches Ok(
                s,
            ) && s@ == content@)
        }),
{
    let v = to_chars(content.as_str());
    let mut i: usize = 0;
    assert(v@.skip(0) =~= v@);
    while i < v.len() && v[i] == '\u{feff}'
        invariant
            i <= v@.len(),
            v@ == content@,
            strip_boms(v@.skip(i as int)) == strip_boms(content@),
        decreases v@.len() - i,
    {
        assert(v@.skip(i as int).drop_first() =~= v@.skip(i + 1));
        i += 1;
    }
    let rest: Vec<char> = {
        let mut rest: Vec<char> = Vec::new();
        let mut j: usize = i;
        while j < v.len()
            invariant
                i <= j <= v@.len(),
                rest@ == v@.subrange(i as int, j as int),
            decreases v@.len() - j,
        {
            rest.push(v[j]);
            assert(rest@ =~= v@.subrange(i as int, j + 1));
            j += 1;
        }
        assert(rest@ =~= v@.skip(i as int));
        rest
    };
    assert(strip_boms(rest@) == rest@);
    let t = trim_chars(&rest);
    if t.len() == 0 {
        return Err(ErrorChain::new(concat2(file, " is empty")));
    }
    let looks_like_json = t[0] == '{' || t[0] == '[';
    if looks_like_json && parses_as_json(from_chars(&t).as_str()) {
        return Err(
            ErrorChain::new(
                concat2(file, " contains JSON, not Markdown; drop --markdown to use the JSON API"),
            ),
        );
    }
    Ok(content)
}


/// The texts of a list of values, when every one is a string.
pub open spec fn all_strings(items: Seq<JsonV>) -> Option<Seq<Seq<char>>>
    decreases items.len(),
{
    if items.len() == 0 {
        Some(Seq::empty())
    } else {
        match (all_strings(items.drop_last()), items.last()) {
            (Some(p), JsonV::Str(t)) => Some(p.push(t)),
            _ => None,
        }
    }
}

/// The `errors` of a JSON error body: `None` when the text is not JSON, has no
/// `errors` array, or an item of it is not a string.
pub open spec fn json_error_strings(s: Seq<char>) -> Option<Seq<Seq<char>>> {
    match json_document(s) {
        Ok(v) => match vget(v, "errors"@) {
            Some(JsonV::Array(items)) => all_strings(items),
            _ => None,
        },
        Err(_) => None,
    }
}

/// Reads the `errors` array of strings of a JSON text (see
/// [`json_error_strings`]).
fn error_strings_of(content: &str) -> (r: Option<Vec<String>>)
    ensures
        match r {
            Some(v) => json_error_strings(content@) == Some(v@.map_values(|x: String| x@)),
            None => json_error_strings(content@) is None,
        },
{
    let parsed = match parse_json_document(content) {
        Ok(v) => v,
        Err(_) => {
            return None;
        },
    };
    let items = match get(&parsed, "errors") {
        Some(Json::Array(items)) => items,
        _ => {
            return None;
        },
    };
    let ghost iv = jvs(items@);
    assert(jv(Json::Array(*items))->Array_0 =~= iv);
    assert(json_error_strings(content@) == all_strings(iv));
    let mut out: Vec<String> = Vec::new();
    let mut i: usize = 0;
    assert(iv.take(0) =~= Seq::<JsonV>::empty());
    assert(out@.map_values(|x: String| x@) =~= Seq::<Seq<char>>::empty());
    while i < items.len()
        invariant
            i <= items@.len(),
            iv == jvs(items@),
            json_error_strings(content@) == all_strings(iv),
            all_strings(iv.take(i as int)) == Some(out@.map_values(|x: String| x@)),
        decreases items@.len() - i,
    {
        assert(iv.take(i + 1).drop_last() =~= iv.take(i as int));
        assert(iv.take(i + 1).last() == jv(items@[i as int]));
        match &items[i] {
            Json::Str(t) => {
                let ghost before = out@.map_values(|x: String| x@);
                out.push(t.clone());
                assert(out@.map_values(|x: String| x@) =~= before.push(t@));
            },
            _ => {
                proof {
                    lemma_all_strings_prefix(iv, i as int + 1);
                }
                return None;
            },
        }
        i += 1;
    }
    assert(iv.take(items@.len() as int) =~= iv);
    Some(out)
}

proof fn lemma_all_strings_prefix(items: Seq<JsonV>, k: int)
    requires
        0 <= k <= items.len(),
        all_strings(items.take(k)) is None,
    ensures
        all_strings(items) is None,
    decreases items.len() - k,
{
    if k < items.len() {
        assert(items.take(k + 1).drop_last() =~= items.take(k));
        lemma_all_strings_prefix(items, k + 1);
    } else {
        assert(items.take(k) =~= items);
    }
}

/// Capture group 1 of each successive match of a pattern in a text
/// (`Regex::captures_iter`), `None` for a match in which the group took no
/// part, when the pattern compiles.
pub uninterp spec fn regex_all_group1(pattern: Seq<char>, text: Seq<char>) -> Seq<Option<Seq<char>>>;

/// Compiles `pattern` with `regex::Regex::new` and collects capture group 1 of
/// each match in `text`; `None` when the pattern does not compile.
#[verifier::external_body]
fn regex_group1_all(pattern: &str, text: &str) -> (r: Option<Vec<Option<String>>>)
    ensures
        r is Some <==> crate::idp::query_syntax::regex_compiles(pattern@),
        r matches Some(v) ==> v@.map_values(|x: Option<String>| opt_view(x)) == regex_all_group1(
            pattern@,
            text@,
        ),
{
    let re = regex::Regex::new(pattern).ok()?;
    Some(re.captures_iter(text).map(|c| c.get(1).map(|m| m.as_str().to_string())).collect())
}

/// The text of an optional string.
pub open spec fn opt_view(x: Option<String>) -> Option<Seq<char>> {
    match x {
        Some(s) => Some(s@),
        None => None,
    }
}

/// The groups that took part, in order.
pub open spec fn present_groups(gs: Seq<Option<Seq<char>>>) -> Seq<Seq<char>>
    decreases gs.len(),
{
    if gs.len() == 0 {
        Seq::empty()
    } else {
        present_groups(gs.drop_last()) + match gs.last() {
            Some(g) => seq![g],
            None => Seq::empty(),
        }
    }
}

fn present(gs: Vec<Option<String>>) -> (r: Vec<String>)
    ensures
        r@.map_values(|x: String| x@) == present_groups(gs@.map_values(|x: Option<String>| opt_view(x))),
{
    let ghost gv = gs@.map_values(|x: Option<String>| opt_view(x));
    let mut out: Vec<String> = Vec::new();
    let mut i: usize = 0;
    while i < gs.len()
        invariant
            i <= gs@.len(),
            gv == gs@.map_values(|x: Option<String>| opt_view(x)),
            out@.map_values(|x: String| x@) == present_groups(gv.take(i as int)),
        decreases gs@.len() - i,
    {
        assert(gv.take(i + 1).drop_last() =~= gv.take(i as int));
        assert(gv.take(i + 1).last() == opt_view(gs@[i as int]));
        let ghost before = out@.map_values(|x: String| x@);
        match &gs[i] {
            Some(g) => {
                out.push(g.clone());
                assert(out@.map_values(|x: String| x@) =~= before + seq![g@]);
            },
            None => {
                assert(before + Seq::<Seq<char>>::empty() =~= before);
            },
        }
        i += 1;
    }
    assert(gv.take(gs@.len() as int) =~= gv);
    out
}

/// The pattern of a `'detail': '...'` entry in a validation message.
pub open spec fn detail_pattern() -> Seq<char> {
    "'detail': '((?:\\\\.|[^'])*)'"@
}

/// The parts joined with nothing between them.
pub open spec fn concat_all(parts: Seq<Seq<char>>) -> Seq<char>
    decreases parts.len(),
{
    if parts.len() == 0 {
        Seq::empty()
    } else {
        concat_all(parts.drop_last()) + parts.last()
    }
}

/// How one validation message is shown: when it holds at least four details of
/// one character each (a string spelled out character by character), those
/// characters joined; otherwise the message itself.
pub open spec fn compact_message(message: Seq<char>, details: Seq<Seq<char>>) -> Seq<char> {
    if details.len() >= 4 && forall|i: int| 0 <= i < details.len() ==> (#[trigger] details[i]).len()
        == 1 {
        concat_all(details)
    } else {
        message
    }
}

fn compact_one(message: &String, details: &Vec<String>) -> (r: String)
    ensures
        r@ == compact_message(message@, details@.map_values(|x: String| x@)),
{
    let ghost d = details@.map_values(|x: String| x@);
    if details.len() < 4 {
        return message.clone();
    }
    let mut all_single = true;
    let mut joined = String::new();
    let mut i: usize = 0;
    assert(d.take(0) =~= Seq::<Seq<char>>::empty());
    while i < details.len()
        invariant
            i <= details@.len(),
            d == details@.map_values(|x: String| x@),
            joined@ == concat_all(d.take(i as int)),
            all_single == forall|j: int| 0 <= j < i ==> (#[trigger] d[j]).len() == 1,
        decreases details@.len() - i,
    {
        assert(d.take(i + 1).drop_last() =~= d.take(i as int));
        let c = to_chars(details[i].as_str());
        assert(d[i as int] == details@[i as int]@);
        if c.len() != 1 {
            all_single = false;
        }
        joined = concat2(joined.as_str(), details[i].as_str());
        i += 1;
    }
    assert(d.take(details@.len() as int) =~= d);
    if all_single {
        joined
    } else {
        message.clone()
    }
}

/// The compacted validation messages of an API error body, joined by `"; "`;
/// `None` when the body is not a JSON object with a nonempty `errors` array of
/// strings.
pub open spec fn compact_details_spec(content: Seq<char>) -> Option<Seq<char>> {
    match json_error_strings(content) {
        None => None,
        Some(errors) => if errors.len() == 0 {
            None
        } else {
            Some(
                join(
                    errors.map_values(
                        |m: Seq<char>| compact_message(m, present_groups(regex_all_group1(detail_pattern(), m))),
                    ),
                    "; "@,
                ),
            )
        },
    }
}

/// The readable form of a notebook API validation error (see
/// [`compact_details_spec`]); the detail pattern compiles.
pub fn compact_validation_details(content: &str) -> (r: Option<String>)
    ensures
        crate::idp::query_syntax::regex_compiles(detail_pattern()) ==> match r {
            Some(s) => compact_details_spec(content@) == Some(s@),
            None => compact_details_spec(content@) is None,
        },
{
    let errors = match error_strings_of(content) {
        None => {
            return None;
        },
        Some(e) => e,
    };
    if errors.len() == 0 {
        return None;
    }
    let ghost ev = errors@.map_values(|x: String| x@);
    let ghost all = ev.map_values(
        |m: Seq<char>| compact_message(m, present_groups(regex_all_group1(detail_pattern(), m))),
    );
    let mut messages: Vec<String> = Vec::new();
    let mut i: usize = 0;
    while i < errors.len()
        invariant
            i <= errors@.len(),
            ev == errors@.map_values(|x: String| x@),
            all == ev.map_values(
                |m: Seq<char>| compact_message(m, present_groups(regex_all_group1(detail_pattern(), m))),
            ),
            crate::idp::query_syntax::regex_compiles(detail_pattern()) ==> messages@.map_values(
                |x: String| x@,
            ) == all.take(i as int),
            messages@.len() == i,
        decreases errors@.len() - i,
    {
        let details = match regex_group1_all("'detail': '((?:\\\\.|[^'])*)'", errors[i].as_str()) {
            Some(d) => present(d),
            None => Vec::new(),
        };
        let m = compact_one(&errors[i], &details);
        let ghost before = messages@.map_values(|x: String| x@);
        messages.push(m);
        assert(messages@.map_values(|x: String| x@) =~= before.push(m@));
        assert(all.take(i + 1) =~= all.take(i as int).push(all[i as int]));
        i += 1;
    }
    assert(all.take(errors@.len() as int) =~= all);
    Some(join_strings(&messages, "; "))
}

/// The message for an API error response of a notebook `operation`: its status
/// and the compacted validation details, or else the trimmed body.
pub fn notebook_response_error(operation: &str, status: u16, content: &str) -> (r: String)
    ensures
        crate::idp::query_syntax::regex_compiles(detail_pattern()) ==> r@ == "failed to "@
            + operation@ + " notebook (HTTP "@ + decimal(status as int) + "): "@ + match compact_details_spec(
            content@,
        ) {
            Some(d) => d,
            None => trim(content@),
        },
{
    let detail = match compact_validation_details(content) {
        Some(d) => d,
        None => trim_str(content),
    };
    let code = usize_to_string(status as usize);
    let head = concat3("failed to ", operation, " notebook (HTTP ");
    let head = concat3(head.as_str(), code.as_str(), "): ");
    concat2(head.as_str(), detail.as_str())
}

/// The notebooks of a search response: its `data` array.
pub open spec fn search_data(resp: JsonV) -> Option<Seq<JsonV>> {
    match vget(resp, "data"@) {
        Some(JsonV::Array(a)) => Some(a),
        _ => None,
    }
}

/// The total a search response reports in `meta.total`, when it is a count
/// that fits in a `usize`.
pub open spec fn reported_total(resp: JsonV) -> Option<int> {
    match vget(resp, "meta"@) {
        Some(m) => match vget(m, "total"@) {
            Some(JsonV::Number(t)) => match number_u64(t) {
                Some(n) => if n <= usize::MAX {
                    Some(n)
                } else {
                    None
                },
                None => None,
            },
            _ => None,
        },
        None => None,
    }
}

/// The `meta` of a search result: the response's own `meta` (or one holding
/// only the total), with `returned` and `truncated` set when it is an object.
pub open spec fn search_meta(resp: JsonV, count: int, truncated: bool) -> JsonV {
    let base = match vget(resp, "meta"@) {
        Some(m) => m,
        None => JsonV::Object(seq![("total"@, JsonV::Number(decimal(count)))]),
    };
    match base {
        JsonV::Object(es) => JsonV::Object(
            vinsert(vinsert(es, "returned"@, JsonV::Number(decimal(count))), "truncated"@, JsonV::Bool(truncated)),
        ),
        other => other,
    }
}

/// What a search shows: at most `limit` notebooks, how many, and whether the
/// reported total exceeds them.
pub open spec fn search_result(resp: JsonV, limit: int) -> Option<(JsonV, int, bool)> {
    match search_data(resp) {
        None => None,
        Some(data) => {
            let count = if data.len() < limit {
                data.len() as int
            } else {
                limit
            };
            let truncated = reported_total(resp) matches Some(t) && count < t;
            Some(
                (
                    JsonV::Object(seq![
                        ("data"@, JsonV::Array(data.take(count))),
                        ("meta"@, search_meta(resp, count, truncated)),
                    ]),
                    count,
                    truncated,
                ),
            )
        },
    }
}

/// The reported total of a search response (see [`reported_total`]).
fn total_of(resp: &Json) -> (r: Option<usize>)
    ensures
        match r {
            Some(n) => reported_total(jv(*resp)) == Some(n as int),
            None => reported_total(jv(*resp)) is None,
        },
{
    match get(resp, "meta") {
        Some(m) => match get(m, "total") {
            Some(Json::Number(t)) => match number_as_u64(t.as_str()) {
                Some(n) => if n <= usize::MAX as u64 {
                    Some(n as usize)
                } else {
                    None
                },
                None => None,
            },
            _ => None,
        },
        None => None,
    }
}

/// The payload of a notebook search (see [`search_result`]), with the count
/// and truncation its metadata reports; an error when `data` is missing.
pub fn search_payload(resp: &Json, limit: usize) -> (r: Result<(Json, usize, bool), ErrorChain>)
    ensures
        match search_result(jv(*resp), limit as int) {
            None => r matches Err(e) && e.chain() == seq!["notebook search response did not contain data[]"@],
            Some((p, c, t)) => r matches Ok((q, d, u)) && jv(q) == p && d == c && u == t,
        },
{
    let data = match get(resp, "data") {
        Some(Json::Array(a)) => a,
        _ => {
            return Err(ErrorChain::new(owned("notebook search response did not contain data[]")));
        },
    };
    let count = if data.len() < limit {
        data.len()
    } else {
        limit
    };
    let total = total_of(resp);
    let truncated = match total {
        Some(t) => count < t,
        None => false,
    };
    let mut notebooks: Vec<Json> = Vec::new();
    let mut i: usize = 0;
    while i < count
        invariant
            i <= count <= data@.len(),
            jvs(notebooks@) == jvs(data@).take(i as int),
        decreases count - i,
    {
        let ghost before = jvs(notebooks@);
        notebooks.push(copy_json(&data[i]));
        assert(jvs(notebooks@) =~= before.push(jv(data@[i as int])));
        assert(jvs(data@).take(i + 1) =~= jvs(data@).take(i as int).push(jv(data@[i as int])));
        i += 1;
    }
    let ghost dv = jv(*resp);
    assert(search_data(dv) == Some(jvs(data@))) by {
        assert(jv(Json::Array(*data))->Array_0 =~= jvs(data@));
    }
    let base = match get(resp, "meta") {
        Some(m) => copy_json(m),
        None => jobj(entries1("total", Json::Number(usize_to_string(count)))),
    };
    let ghost bv = jv(base);
    assert(bv == match vget(dv, "meta"@) {
        Some(m) => m,
        None => JsonV::Object(seq![("total"@, JsonV::Number(decimal(count as int)))]),
    });
    let meta = match base {
        Json::Object(mut es) => {
            assert(bv == JsonV::Object(jentries(es@))) by {
                assert(jv(Json::Object(es))->Object_0 =~= jentries(es@));
            }
            obj_insert(&mut es, owned("returned"), Json::Number(usize_to_string(count)));
            obj_insert(&mut es, owned("truncated"), Json::Bool(truncated));
            jobj(es)
        },
        other => other,
    };
    assert(jv(meta) == search_meta(dv, count as int, truncated));
    let arr = Json::Array(notebooks);
    assert(jv(arr) == JsonV::Array(jvs(data@).take(count as int))) by {
        assert(jv(arr)->Array_0 =~= jvs(notebooks@));
        assert(jvs(data@).take(count as int) =~= jvs(data@).take(i as int));
    }
    let mut out = entries1("data", arr);
    push_member(&mut out, "meta", meta);
    assert(jentries(out@) =~= seq![("data"@, JsonV::Array(jvs(data@).take(count as int))), ("meta"@, search_meta(dv, count as int, truncated))]);
    assert(truncated == (reported_total(dv) matches Some(t) && (count as int) < t));
    assert(count as int == if jvs(data@).len() < limit as int { jvs(data@).len() as int } else { limit as int });
    let payload = jobj(out);
    assert(jv(payload) == search_result(dv, limit as int).unwrap().0);
    Ok((payload, count, truncated))
}

/// An object with member `key` set to `v`; other values are left as they are.
pub open spec fn set_member(o: JsonV, key: Seq<char>, v: JsonV) -> JsonV {
    match o {
        JsonV::Object(es) => JsonV::Object(vinsert(es, key, v)),
        other => other,
    }
}

/// The update body of an append-only edit: the notebook's `data` with the new
/// cells after those at `data.attributes.cells`; an error when the new cells
/// are not an array, or when that array cannot be found.
pub open spec fn appended_notebook(nb: JsonV, new_cells: JsonV) -> Result<JsonV, Seq<char>> {
    match new_cells {
        JsonV::Array(added) => match vget(nb, "data"@) {
            Some(d) => match vget(d, "attributes"@) {
                Some(a) => match vget(a, "cells"@) {
                    Some(JsonV::Array(cells)) => Ok(
                        JsonV::Object(seq![
                            ("data"@, set_member(d, "attributes"@, set_member(a, "cells"@, JsonV::Array(cells + added)))),
                        ]),
                    ),
                    _ => Err("could not locate cells array in notebook response"@),
                },
                None => Err("could not locate cells array in notebook response"@),
            },
            None => Err("could not locate cells array in notebook response"@),
        },
        _ => Err("--file must contain a JSON array of cell objects"@),
    }
}

fn set_member_exec(o: Json, key: &str, v: Json) -> (r: Json)
    ensures
        jv(r) == set_member(jv(o), key@, jv(v)),
{
    match o {
        Json::Object(mut es) => {
            assert(jv(Json::Object(es))->Object_0 =~= jentries(es@));
            obj_insert(&mut es, owned(key), v);
            jobj(es)
        },
        other => other,
    }
}

/// The update body of `pup notebooks edit` (see [`appended_notebook`]).
pub fn append_cells(nb: &Json, new_cells: &Json) -> (r: Result<Json, ErrorChain>)
    ensures
        match appended_notebook(jv(*nb), jv(*new_cells)) {
            Ok(b) => r matches Ok(q) && jv(q) == b,
            Err(m) => r matches Err(e) && e.chain() == seq![m],
        },
{
    let added = match new_cells {
        Json::Array(a) => a,
        _ => {
            return Err(ErrorChain::new(owned("--file must contain a JSON array of cell objects")));
        },
    };
    let missing = "could not locate cells array in notebook response";
    let d = match get(nb, "data") {
        Some(d) => d,
        None => {
            return Err(ErrorChain::new(owned(missing)));
        },
    };
    let a = match get(d, "attributes") {
        Some(a) => a,
        None => {
            return Err(ErrorChain::new(owned(missing)));
        },
    };
    let cells = match get(a, "cells") {
        Some(Json::Array(c)) => c,
        _ => {
            return Err(ErrorChain::new(owned(missing)));
        },
    };
    let mut all: Vec<Json> = Vec::new();
    let mut i: usize = 0;
    while i < cells.len()
        invariant
            i <= cells@.len(),
            jvs(all@) == jvs(cells@).take(i as int),
        decreases cells@.len() - i,
    {
        let ghost before = jvs(all@);
        all.push(copy_json(&cells[i]));
        assert(jvs(all@) =~= before.push(jv(cells@[i as int])));
        assert(jvs(cells@).take(i + 1) =~= jvs(cells@).take(i as int).push(jv(cells@[i as int])));
        i += 1;
    }
    let mut k: usize = 0;
    assert(jvs(cells@).take(cells@.len() as int) =~= jvs(cells@));
    assert(jvs(added@).take(0) =~= Seq::<JsonV>::empty());
    while k < added.len()
        invariant
            k <= added@.len(),
            jvs(all@) == jvs(cells@) + jvs(added@).take(k as int),
        decreases added@.len() - k,
    {
        let ghost before = jvs(all@);
        all.push(copy_json(&added[k]));
        assert(jvs(all@) =~= before.push(jv(added@[k as int])));
        assert(jvs(added@).take(k + 1) =~= jvs(added@).take(k as int).push(jv(added@[k as int])));
        k += 1;
    }
    assert(jvs(added@).take(added@.len() as int) =~= jvs(added@));
    let arr = Json::Array(all);
    assert(jv(arr) == JsonV::Array(jvs(cells@) + jvs(added@))) by {
        assert(jv(arr)->Array_0 =~= jvs(all@));
    }
    assert(jv(Json::Array(*cells))->Array_0 =~= jvs(cells@));
    assert(jv(*new_cells)->Array_0 =~= jvs(added@));
    let attributes = set_member_exec(copy_json(a), "cells", arr);
    let data = set_member_exec(copy_json(d), "attributes", attributes);
    Ok(jobj(entries1("data", data)))
}

/// The cells of a notebook document, at `data.attributes.cells`.
pub open spec fn notebook_cells(nb: JsonV) -> Option<Seq<JsonV>> {
    match vget(nb, "data"@) {
        Some(d) => match vget(d, "attributes"@) {
            Some(a) => match vget(a, "cells"@) {
                Some(JsonV::Array(cells)) => Some(cells),
                _ => None,
            },
            None => None,
        },
        None => None,
    }
}

/// An edit is append-only: the cells it writes back are the notebook's cells,
/// in order, followed by the new ones; and it is refused exactly when the new
/// cells are not an array or the notebook has no cells array.
pub proof fn law_edit_is_append_only(nb: JsonV, new_cells: JsonV)
    ensures
        appended_notebook(nb, new_cells) is Ok <==> (new_cells is Array && notebook_cells(nb) is Some),
        appended_notebook(nb, new_cells) matches Ok(b) ==> notebook_cells(b) == Some(
            notebook_cells(nb).unwrap() + new_cells->Array_0,
        ),
{
    if let Ok(b) = appended_notebook(nb, new_cells) {
        let d = vget(nb, "data"@).unwrap();
        let a = vget(d, "attributes"@).unwrap();
        let cells = notebook_cells(nb).unwrap();
        let a2 = set_member(a, "cells"@, JsonV::Array(cells + new_cells->Array_0));
        let d2 = set_member(d, "attributes"@, a2);
        assert(vget(b, "data"@) == Some(d2)) by {
            reveal_with_fuel(entry_get, 2);
        }
        lemma_entry_get_vinsert(d->Object_0, "attributes"@, a2, "attributes"@);
        lemma_entry_get_vinsert(a->Object_0, "cells"@, JsonV::Array(cells + new_cells->Array_0), "cells"@);
    }
}

} // verus!
