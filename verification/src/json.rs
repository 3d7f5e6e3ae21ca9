//! JSON documents as plain values: what the catalog migration reads and writes.
//! Objects keep their entries in order, each key once.
use vstd::prelude::*;

use crate::duration::{all_digits, digits_value, lemma_prefix_value_le};
use crate::text::{str_eq, to_chars};

verus! {

/// A JSON value. A number is held as its text.
#[derive(Debug)]
pub enum Json {
    Null,
    Bool(bool),
    Number(String),
    Str(String),
    Array(Vec<Json>),
    Object(Vec<(String, Json)>),
}

/// A JSON value with its texts as character sequences.
#[verifier::ext_equal]
pub enum JsonV {
    Null,
    Bool(bool),
    Number(Seq<char>),
    Str(Seq<char>),
    Array(Seq<JsonV>),
    Object(Seq<(Seq<char>, JsonV)>),
}

/// The view of a JSON value.
pub open spec fn jv(j: Json) -> JsonV
    decreases j,
{
    match j {
        Json::Null => JsonV::Null,
        Json::Bool(b) => JsonV::Bool(b),
        Json::Number(n) => JsonV::Number(n@),
        Json::Str(s) => JsonV::Str(s@),
        Json::Array(v) => JsonV::Array(
            Seq::new(
                v@.len(),
                |i: int|
                    if 0 <= i < v@.len() {
                        jv(v@[i])
                    } else {
                        JsonV::Null
                    },
            ),
        ),
        Json::Object(m) => JsonV::Object(
            Seq::new(
                m@.len(),
                |i: int|
                    if 0 <= i < m@.len() {
                        (m@[i].0@, jv(m@[i].1))
                    } else {
                        (Seq::empty(), JsonV::Null)
                    },
            ),
        ),
    }
}

/// The views of a sequence of JSON values.
pub open spec fn jvs(v: Seq<Json>) -> Seq<JsonV> {
    Seq::new(v.len(), |i: int| jv(v[i]))
}

/// The views of the entries of an object.
pub open spec fn jentries(m: Seq<(String, Json)>) -> Seq<(Seq<char>, JsonV)> {
    Seq::new(m.len(), |i: int| (m[i].0@, jv(m[i].1)))
}

/// A copy of a JSON value.
#[verifier::loop_isolation(false)]
pub fn copy_json(j: &Json) -> (r: Json)
    ensures
        jv(r) == jv(*j),
    decreases j,
{
    match j {
        Json::Null => Json::Null,
        Json::Bool(b) => Json::Bool(*b),
        Json::Number(n) => Json::Number(n.clone()),
        Json::Str(s) => Json::Str(s.clone()),
        Json::Array(v) => {
            let mut out: Vec<Json> = Vec::new();
            let mut i: usize = 0;
            while i < v.len()
                invariant
                    i <= v@.len(),
                    out@.len() == i,
                    forall|k: int| 0 <= k < i ==> jv(#[trigger] out@[k]) == jv(v@[k]),
                decreases v@.len() - i,
            {
                proof {
                    assert(*j == Json::Array(*v));
                    assert(decreases_to!(*j => *v));
                    assert(decreases_to!(*v => v@));
                    assert(decreases_to!(v@ => v@[i as int]));
                }
                let c = copy_json(&v[i]);
                out.push(c);
                i += 1;
            }
            let r = Json::Array(out);
            assert(jv(r)->Array_0 =~= jv(*j)->Array_0);
            r
        },
        Json::Object(m) => {
            let mut out: Vec<(String, Json)> = Vec::new();
            let mut i: usize = 0;
            while i < m.len()
                invariant
                    i <= m@.len(),
                    out@.len() == i,
                    forall|k: int|
                        0 <= k < i ==> (#[trigger] out@[k]).0@ == m@[k].0@ && jv(out@[k].1) == jv(
                            m@[k].1,
                        ),
                decreases m@.len() - i,
            {
                proof {
                    assert(*j == Json::Object(*m));
                    assert(decreases_to!(*j => *m));
                    assert(decreases_to!(*m => m@));
                    assert(decreases_to!(m@ => m@[i as int]));
                    assert(decreases_to!(m@[i as int] => m@[i as int].1));
                }
                let c = copy_json(&m[i].1);
                out.push((m[i].0.clone(), c));
                i += 1;
            }
            let r = Json::Object(out);
            assert(jv(r)->Object_0 =~= jv(*j)->Object_0);
            r
        },
    }
}


/// The value of the first entry with key `key`.
pub open spec fn entry_get(es: Seq<(Seq<char>, JsonV)>, key: Seq<char>) -> Option<JsonV>
    decreases es.len(),
{
    if es.len() == 0 {
        None
    } else if es[0].0 == key {
        Some(es[0].1)
    } else {
        entry_get(es.drop_first(), key)
    }
}

/// The member `key` of an object; nothing for other values.
pub open spec fn vget(j: JsonV, key: Seq<char>) -> Option<JsonV> {
    match j {
        JsonV::Object(es) => entry_get(es, key),
        _ => None,
    }
}

/// The text of a string value.
pub open spec fn vstr(j: Option<JsonV>) -> Option<Seq<char>> {
    match j {
        Some(JsonV::Str(s)) => Some(s),
        _ => None,
    }
}

/// The string member `key`.
pub open spec fn str_at(j: JsonV, key: Seq<char>) -> Option<Seq<char>> {
    vstr(vget(j, key))
}

/// The array member `key`; empty when absent or not an array.
pub open spec fn arr_at(j: JsonV, key: Seq<char>) -> Seq<JsonV> {
    match vget(j, key) {
        Some(JsonV::Array(a)) => a,
        _ => Seq::empty(),
    }
}

/// The string member `inner` of the member `outer`.
pub open spec fn nested_str_at(j: JsonV, outer: Seq<char>, inner: Seq<char>) -> Option<Seq<char>> {
    match vget(j, outer) {
        Some(o) => str_at(o, inner),
        None => None,
    }
}

/// Null, an empty object or an empty array.
pub open spec fn empty_value(j: JsonV) -> bool {
    match j {
        JsonV::Null => true,
        JsonV::Object(es) => es.len() == 0,
        JsonV::Array(a) => a.len() == 0,
        _ => false,
    }
}

/// The entries after setting `key` to `v`: an existing entry keeps its place,
/// a new one goes last.
pub open spec fn vinsert(es: Seq<(Seq<char>, JsonV)>, key: Seq<char>, v: JsonV) -> Seq<(Seq<char>, JsonV)> {
    if exists|i: int| 0 <= i < es.len() && (#[trigger] es[i]).0 == key {
        let i = choose|i: int|
            0 <= i < es.len() && (#[trigger] es[i]).0 == key && forall|j: int| 0 <= j < i ==> es[j].0 != key;
        es.update(i, (key, v))
    } else {
        es.push((key, v))
    }
}

proof fn lemma_entry_get_skip(es: Seq<(Seq<char>, JsonV)>, key: Seq<char>, i: int)
    requires
        0 <= i <= es.len(),
        forall|j: int| 0 <= j < i ==> es[j].0 != key,
    ensures
        entry_get(es, key) == entry_get(es.skip(i), key),
    decreases i,
{
    if i > 0 {
        assert(es.skip(1) =~= es.drop_first());
        lemma_entry_get_skip(es.drop_first(), key, i - 1);
        assert(es.drop_first().skip(i - 1) =~= es.skip(i));
    } else {
        assert(es.skip(0) =~= es);
    }
}

/// The member `key` of an object (see [`vget`]).
#[verifier::loop_isolation(false)]
pub fn get<'a>(j: &'a Json, key: &str) -> (r: Option<&'a Json>)
    ensures
        match r {
            Some(x) => vget(jv(*j), key@) == Some(jv(*x)),
            None => vget(jv(*j), key@) is None,
        },
{
    match j {
        Json::Object(m) => {
            let ghost es = jv(*j)->Object_0;
            assert(es =~= jentries(m@));
            let mut i: usize = 0;
            while i < m.len()
                invariant
                    i <= m@.len(),
                    es == jentries(m@),
                    forall|k: int| 0 <= k < i ==> es[k].0 != key@,
                decreases m@.len() - i,
            {
                if str_eq(m[i].0.as_str(), key) {
                    proof {
                        lemma_entry_get_skip(es, key@, i as int);
                        assert(es.skip(i as int)[0] == es[i as int]);
                    }
                    return Some(&m[i].1);
                }
                i += 1;
            }
            proof {
                lemma_entry_get_skip(es, key@, m@.len() as int);
            }
            None
        },
        _ => None,
    }
}

/// The string member `key` (see [`str_at`]).
pub fn str_field(j: &Json, key: &str) -> (r: Option<String>)
    ensures
        match r {
            Some(s) => str_at(jv(*j), key@) == Some(s@),
            None => str_at(jv(*j), key@) is None,
        },
{
    match get(j, key) {
        Some(Json::Str(s)) => Some(s.clone()),
        _ => None,
    }
}

/// The array member `key` (see [`arr_at`]).
pub fn arr_field(j: &Json, key: &str) -> (r: Vec<Json>)
    ensures
        jvs(r@) == arr_at(jv(*j), key@),
{
    match get(j, key) {
        Some(x) => match x {
            Json::Array(v) => {
                let c = copy_json(x);
                let out = match c {
                    Json::Array(w) => w,
                    _ => Vec::new(),
                };
                assert(jvs(out@) =~= jv(*x)->Array_0);
                out
            },
            _ => {
                let out: Vec<Json> = Vec::new();
                assert(jvs(out@) =~= Seq::<JsonV>::empty());
                out
            },
        },
        None => {
            let out: Vec<Json> = Vec::new();
            assert(jvs(out@) =~= Seq::<JsonV>::empty());
            out
        },
    }
}

/// The string member `inner` of the member `outer` (see [`nested_str_at`]).
pub fn nested_str(j: &Json, outer: &str, inner: &str) -> (r: Option<String>)
    ensures
        match r {
            Some(s) => nested_str_at(jv(*j), outer@, inner@) == Some(s@),
            None => nested_str_at(jv(*j), outer@, inner@) is None,
        },
{
    match get(j, outer) {
        Some(o) => str_field(o, inner),
        None => None,
    }
}

/// Whether a value is null, an empty object or an empty array.
pub fn is_empty_value(j: &Json) -> (r: bool)
    ensures
        r == empty_value(jv(*j)),
{
    match j {
        Json::Null => true,
        Json::Object(m) => m.len() == 0,
        Json::Array(a) => a.len() == 0,
        _ => false,
    }
}

proof fn lemma_vinsert_at(es: Seq<(Seq<char>, JsonV)>, i: int, key: Seq<char>, v: JsonV)
    requires
        0 <= i < es.len(),
        es[i].0 == key,
        forall|j: int| 0 <= j < i ==> es[j].0 != key,
    ensures
        vinsert(es, key, v) == es.update(i, (key, v)),
{
    assert(exists|k: int| 0 <= k < es.len() && (#[trigger] es[k]).0 == key);
    let c = choose|c: int|
        0 <= c < es.len() && (#[trigger] es[c]).0 == key && forall|j: int| 0 <= j < c ==> es[j].0 != key;
    if c < i {
    } else if c > i {
        assert(es[i].0 != key);
    }
}

proof fn lemma_vinsert_new(es: Seq<(Seq<char>, JsonV)>, key: Seq<char>, v: JsonV)
    requires
        forall|j: int| 0 <= j < es.len() ==> es[j].0 != key,
    ensures
        vinsert(es, key, v) == es.push((key, v)),
{
}

proof fn lemma_first_with_key(es: Seq<(Seq<char>, JsonV)>, key: Seq<char>, i: int) -> (f: int)
    requires
        0 <= i < es.len(),
        es[i].0 == key,
    ensures
        0 <= f <= i,
        es[f].0 == key,
        forall|j: int| 0 <= j < f ==> es[j].0 != key,
    decreases i,
{
    if exists|j: int| 0 <= j < i && (#[trigger] es[j]).0 == key {
        let j = choose|j: int| 0 <= j < i && (#[trigger] es[j]).0 == key;
        lemma_first_with_key(es, key, j)
    } else {
        i
    }
}

proof fn lemma_entry_get_update(
    es: Seq<(Seq<char>, JsonV)>,
    i: int,
    key: Seq<char>,
    v: JsonV,
    k2: Seq<char>,
)
    requires
        0 <= i < es.len(),
        es[i].0 == key,
        forall|j: int| 0 <= j < i ==> es[j].0 != key,
    ensures
        entry_get(es.update(i, (key, v)), k2) == if k2 == key {
            Some(v)
        } else {
            entry_get(es, k2)
        },
    decreases i,
{
    let u = es.update(i, (key, v));
    if i == 0 {
        if k2 != key {
            assert(u.drop_first() =~= es.drop_first());
        }
    } else {
        assert(es[0].0 != key);
        if es[0].0 != k2 {
            assert(u.drop_first() =~= es.drop_first().update(i - 1, (key, v)));
            lemma_entry_get_update(es.drop_first(), i - 1, key, v, k2);
        }
    }
}

proof fn lemma_entry_get_push(es: Seq<(Seq<char>, JsonV)>, key: Seq<char>, v: JsonV, k2: Seq<char>)
    requires
        forall|j: int| 0 <= j < es.len() ==> es[j].0 != key,
    ensures
        entry_get(es.push((key, v)), k2) == if k2 == key {
            Some(v)
        } else {
            entry_get(es, k2)
        },
    decreases es.len(),
{
    let u = es.push((key, v));
    if es.len() == 0 {
        if k2 != key {
            assert(u.drop_first() =~= Seq::<(Seq<char>, JsonV)>::empty());
        }
    } else if es[0].0 != k2 {
        assert(u.drop_first() =~= es.drop_first().push((key, v)));
        lemma_entry_get_push(es.drop_first(), key, v, k2);
    }
}

/// After setting `key` to `v`, the member `key` is `v` and every other member
/// is as it was.
pub proof fn lemma_entry_get_vinsert(es: Seq<(Seq<char>, JsonV)>, key: Seq<char>, v: JsonV, k2: Seq<char>)
    ensures
        entry_get(vinsert(es, key, v), k2) == if k2 == key {
            Some(v)
        } else {
            entry_get(es, k2)
        },
{
    if exists|i: int| 0 <= i < es.len() && (#[trigger] es[i]).0 == key {
        let i = choose|i: int| 0 <= i < es.len() && (#[trigger] es[i]).0 == key;
        let f = lemma_first_with_key(es, key, i);
        lemma_vinsert_at(es, f, key, v);
        lemma_entry_get_update(es, f, key, v, k2);
    } else {
        lemma_vinsert_new(es, key, v);
        lemma_entry_get_push(es, key, v, k2);
    }
}

/// Whether two values are the same JSON value.
pub fn json_eq(a: &Json, b: &Json) -> (r: bool)
    ensures
        r == (jv(*a) == jv(*b)),
    decreases a,
{
    match (a, b) {
        (Json::Null, Json::Null) => true,
        (Json::Bool(x), Json::Bool(y)) => *x == *y,
        (Json::Number(x), Json::Number(y)) => str_eq(x.as_str(), y.as_str()),
        (Json::Str(x), Json::Str(y)) => str_eq(x.as_str(), y.as_str()),
        (Json::Array(x), Json::Array(y)) => {
            let ghost (xa, ya) = (jv(*a)->Array_0, jv(*b)->Array_0);
            if x.len() != y.len() {
                assert(xa.len() != ya.len());
                return false;
            }
            let mut i: usize = 0;
            while i < x.len()
                invariant
                    i <= x@.len(),
                    x@.len() == y@.len(),
                    xa == jv(*a)->Array_0,
                    ya == jv(*b)->Array_0,
                    *a == Json::Array(*x),
                    *b == Json::Array(*y),
                    forall|k: int| 0 <= k < i ==> xa[k] == ya[k],
                decreases x@.len() - i,
            {
                proof {
                    assert(decreases_to!(*a => *x));
                    assert(decreases_to!(*x => x@));
                    assert(decreases_to!(x@ => x@[i as int]));
                }
                if !json_eq(&x[i], &y[i]) {
                    assert(xa[i as int] != ya[i as int]);
                    return false;
                }
                i += 1;
            }
            assert(xa =~= ya);
            true
        },
        (Json::Object(x), Json::Object(y)) => {
            let ghost (xa, ya) = (jv(*a)->Object_0, jv(*b)->Object_0);
            if x.len() != y.len() {
                assert(xa.len() != ya.len());
                return false;
            }
            let mut i: usize = 0;
            while i < x.len()
                invariant
                    i <= x@.len(),
                    x@.len() == y@.len(),
                    xa == jv(*a)->Object_0,
                    ya == jv(*b)->Object_0,
                    *a == Json::Object(*x),
                    *b == Json::Object(*y),
                    forall|k: int| 0 <= k < i ==> xa[k] == ya[k],
                decreases x@.len() - i,
            {
                proof {
                    assert(decreases_to!(*a => *x));
                    assert(decreases_to!(*x => x@));
                    assert(decreases_to!(x@ => x@[i as int]));
                    assert(decreases_to!(x@[i as int] => x@[i as int].1));
                }
                if !str_eq(x[i].0.as_str(), y[i].0.as_str()) {
                    assert(xa[i as int].0 != ya[i as int].0);
                    return false;
                }
                if !json_eq(&x[i].1, &y[i].1) {
                    assert(xa[i as int].1 != ya[i as int].1);
                    return false;
                }
                i += 1;
            }
            assert(xa =~= ya);
            true
        },
        _ => false,
    }
}

/// The value of a number's text when it is a run of decimal digits that fits
/// in a `u64`, as `serde_json::Value::as_u64` reads it.
pub open spec fn number_u64(t: Seq<char>) -> Option<int> {
    if t.len() > 0 && all_digits(t) && digits_value(t) <= u64::MAX {
        Some(digits_value(t))
    } else {
        None
    }
}

/// The value of a number's text when it is a run of decimal digits, with an
/// optional leading minus, that fits in an `i64` (`as_i64`).
pub open spec fn number_i64(t: Seq<char>) -> Option<int> {
    if t.len() > 0 && t[0] == '-' {
        match number_u64(t.drop_first()) {
            Some(v) => if v <= 9223372036854775808 {
                Some(-v)
            } else {
                None
            },
            None => None,
        }
    } else {
        match number_u64(t) {
            Some(v) => if v <= i64::MAX {
                Some(v)
            } else {
                None
            },
            None => None,
        }
    }
}

fn digits_u64(v: &[char], from: usize) -> (r: Option<u64>)
    requires
        from <= v.len(),
    ensures
        match r {
            Some(n) => number_u64(v@.skip(from as int)) == Some(n as int),
            None => number_u64(v@.skip(from as int)) is None,
        },
{
    let ghost s = v@.skip(from as int);
    if from == v.len() {
        return None;
    }
    let mut n: u128 = 0;
    let mut i: usize = from;
    assert(s.take(0) =~= Seq::<char>::empty());
    while i < v.len()
        invariant
            from <= i <= v.len(),
            s == v@.skip(from as int),
            all_digits(s.take(i - from)),
            n as int == digits_value(s.take(i - from)),
            n <= u64::MAX,
        decreases v.len() - i,
    {
        assert(s.take(i - from + 1).drop_last() =~= s.take(i - from));
        assert(s[i - from] == v@[i as int]);
        if !('0' <= v[i] && v[i] <= '9') {
            assert(!all_digits(s));
            return None;
        }
        let d: u128 = ((v[i] as u32) - ('0' as u32)) as u128;
        n = n * 10 + d;
        i += 1;
        assert(all_digits(s.take(i - from)));
        if n > u64::MAX as u128 {
            proof {
                if all_digits(s) {
                    lemma_prefix_value_le(s, i - from);
                }
            }
            return None;
        }
    }
    assert(s.take(s.len() as int) =~= s);
    Some(n as u64)
}

/// A number's text as a `u64` (see [`number_u64`]).
pub fn number_as_u64(t: &str) -> (r: Option<u64>)
    ensures
        match r {
            Some(n) => number_u64(t@) == Some(n as int),
            None => number_u64(t@) is None,
        },
{
    let v = to_chars(t);
    assert(v@.skip(0) =~= v@);
    digits_u64(v.as_slice(), 0)
}

/// A number's text as an `i64` (see [`number_i64`]).
pub fn number_as_i64(t: &str) -> (r: Option<i64>)
    ensures
        match r {
            Some(n) => number_i64(t@) == Some(n as int),
            None => number_i64(t@) is None,
        },
{
    let v = to_chars(t);
    if v.len() > 0 && v[0] == '-' {
        assert(v@.skip(1) =~= v@.drop_first());
        match digits_u64(v.as_slice(), 1) {
            Some(m) => if m <= 9223372036854775807 {
                Some(-(m as i64))
            } else if m == 9223372036854775808 {
                Some(i64::MIN)
            } else {
                None
            },
            None => None,
        }
    } else {
        assert(v@.skip(0) =~= v@);
        match digits_u64(v.as_slice(), 0) {
            Some(m) => if m <= 9223372036854775807 {
                Some(m as i64)
            } else {
                None
            },
            None => None,
        }
    }
}

/// A JSON value of `serde_json`, as the YAML and JSON parsers give it.
#[verifier::external_type_specification]
#[verifier::external_body]
pub struct ExJsonValue(serde_json::Value);

/// A `serde_json::Value` as a [`Json`], member for member; numbers are kept
/// as their text.
#[verifier::external_body]
pub(crate) fn json_of_value(v: &serde_json::Value) -> (r: Json) {
    match v {
        serde_json::Value::Null => Json::Null,
        serde_json::Value::Bool(b) => Json::Bool(*b),
        serde_json::Value::Number(n) => Json::Number(n.to_string()),
        serde_json::Value::String(s) => Json::Str(s.clone()),
        serde_json::Value::Array(a) => Json::Array(a.iter().map(json_of_value).collect()),
        serde_json::Value::Object(m) => Json::Object(
            m.iter().map(|(k, x)| (k.clone(), json_of_value(x))).collect(),
        ),
    }
}

/// What `serde_json` reads from a JSON text, or the text of its error.
pub uninterp spec fn json_document(text: Seq<char>) -> Result<JsonV, Seq<char>>;

/// `serde_json::from_str::<serde_json::Value>`: the value of a JSON text (see
/// [`json_document`]), or the text of the parser's error.
#[verifier::external_body]
pub(crate) fn parse_json_document(text: &str) -> (r: Result<Json, String>)
    ensures
        match r {
            Ok(j) => json_document(text@) == Ok::<JsonV, Seq<char>>(jv(j)),
            Err(e) => json_document(text@) == Err::<JsonV, Seq<char>>(e@),
        },
{
    match serde_json::from_str::<serde_json::Value>(text) {
        Ok(v) => Ok(json_of_value(&v)),
        Err(e) => Err(e.to_string()),
    }
}

/// What `serde_json` reads from the bytes of a JSON body, or the text of its
/// error.
pub uninterp spec fn json_bytes_document(bytes: Seq<u8>) -> Result<JsonV, Seq<char>>;

/// `serde_json::from_slice::<serde_json::Value>`: the value of a JSON body
/// (see [`json_bytes_document`]), or the text of the parser's error.
#[verifier::external_body]
pub(crate) fn parse_json_bytes(bytes: &[u8]) -> (r: Result<Json, String>)
    ensures
        match r {
            Ok(j) => json_bytes_document(bytes@) == Ok::<JsonV, Seq<char>>(jv(j)),
            Err(e) => json_bytes_document(bytes@) == Err::<JsonV, Seq<char>>(e@),
        },
{
    match serde_json::from_slice::<serde_json::Value>(bytes) {
        Ok(v) => Ok(json_of_value(&v)),
        Err(e) => Err(e.to_string()),
    }
}

/// Sets `key` to `v` in the entries of an object (see [`vinsert`]).
pub fn obj_insert(es: &mut Vec<(String, Json)>, key: String, v: Json)
    ensures
        jentries(final(es)@) == vinsert(jentries(old(es)@), key@, jv(v)),
{
    let ghost before = jentries(es@);
    let ghost jvv = jv(v);
    let ghost keyv = key@;
    let mut i: usize = 0;
    while i < es.len()
        invariant
            i <= es@.len(),
            before == jentries(es@),
            before == jentries(old(es)@),
            jvv == jv(v),
            keyv == key@,
            forall|k: int| 0 <= k < i ==> before[k].0 != key@,
        decreases es@.len() - i,
    {
        if str_eq(es[i].0.as_str(), key.as_str()) {
            proof {
                lemma_vinsert_at(before, i as int, keyv, jvv);
            }
            es.set(i, (key, v));
            assert(jentries(es@) =~= before.update(i as int, (keyv, jvv)));
            return;
        }
        i += 1;
    }
    proof {
        lemma_vinsert_new(before, keyv, jvv);
    }
    es.push((key, v));
    assert(jentries(es@) =~= before.push((keyv, jvv)));
}

/// A string value.
pub fn jstr(s: &str) -> (r: Json)
    ensures
        jv(r) == JsonV::Str(s@),
{
    Json::Str(String::from_str(s))
}

/// An array value.
pub fn jarr(v: Vec<Json>) -> (r: Json)
    ensures
        jv(r) == JsonV::Array(jvs(v@)),
{
    let r = Json::Array(v);
    assert(jv(r)->Array_0 =~= jvs(v@));
    r
}

/// An object value.
pub fn jobj(es: Vec<(String, Json)>) -> (r: Json)
    ensures
        jv(r) == JsonV::Object(jentries(es@)),
{
    let r = Json::Object(es);
    assert(jv(r)->Object_0 =~= jentries(es@));
    r
}

} // verus!
