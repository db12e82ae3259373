//! What a task event may keep: bounded texts, with secrets and inline images
//! taken out of its payload.

use vstd::prelude::*;
use crate::action::{owned, str_eq};
use crate::audit::{char_width, utf8_len, utf8_len_exceeds};
use crate::text::{chars_of, chars_start_with, find_chars, lemma_find_from, occurs_at, string_from_range};

verus! {

/// Marks a text that was cut short.
pub open spec fn truncation_suffix() -> Seq<char> {
    "\n[truncated]"@
}

/// The number of leading characters of `s`, from the `k`-th on, whose UTF-8
/// encoding fits in `budget` bytes.
pub open spec fn fit_from(s: Seq<char>, budget: nat, k: int) -> int
    decreases s.len() - k,
{
    if 0 <= k < s.len() && utf8_len(s.take(k + 1)) <= budget {
        fit_from(s, budget, k + 1)
    } else {
        k
    }
}

/// `value` if its UTF-8 encoding fits in `max_bytes`; else its longest prefix
/// that leaves room for the truncation mark, followed by the mark.
pub open spec fn bounded_text(value: Seq<char>, max_bytes: nat) -> Seq<char> {
    if utf8_len(value) <= max_bytes {
        value
    } else {
        let budget: nat = if max_bytes >= 12 { (max_bytes - 12) as nat } else { 0 };
        value.take(fit_from(value, budget, 0)) + truncation_suffix()
    }
}

proof fn lemma_utf8_take_step(s: Seq<char>, k: int)
    requires
        0 <= k < s.len(),
    ensures
        utf8_len(s.take(k + 1)) == utf8_len(s.take(k)) + char_width(s[k]),
{
    assert(s.take(k + 1).drop_last() =~= s.take(k));
}

fn width_of(c: char) -> (r: usize)
    ensures
        r == char_width(c),
{
    if (c as u32) < 0x80 {
        1
    } else if (c as u32) < 0x800 {
        2
    } else if (c as u32) < 0x10000 {
        3
    } else {
        4
    }
}

/// Bounds a text of a task event to `max_bytes` bytes of UTF-8, cutting at a
/// character boundary and marking the cut.
pub fn bounded_event_text(value: &str, max_bytes: usize) -> (r: String)
    ensures
        r@ == bounded_text(value@, max_bytes as nat),
{
    let cs = chars_of(value);
    let n = cs.len();
    assert(cs@.subrange(0, n as int) =~= cs@);
    if !utf8_len_exceeds(cs.as_slice(), 0, n, max_bytes) {
        return owned(value);
    }
    let budget: usize = if max_bytes >= 12 { max_bytes - 12 } else { 0 };
    let ghost s = cs@;
    let mut used: usize = 0;
    let mut k: usize = 0;
    let mut full = false;
    while k < n && !full
        invariant
            s == cs@,
            n == s.len(),
            k <= n,
            used == utf8_len(s.take(k as int)),
            used <= budget,
            fit_from(s, budget as nat, 0) == fit_from(s, budget as nat, k as int),
            full ==> k < n && utf8_len(s.take(k + 1)) > budget,
        decreases n - k + if full { 0int } else { 1int },
    {
        let w = width_of(cs[k]);
        proof {
            lemma_utf8_take_step(s, k as int);
        }
        if w > budget - used {
            full = true;
        } else {
            used = used + w;
            k = k + 1;
        }
    }
    assert(fit_from(s, budget as nat, k as int) == k as int);
    let mut out = string_from_range(cs.as_slice(), 0, k);
    out.append("\n[truncated]");
    assert(s.subrange(0, k as int) =~= s.take(k as int));
    out
}

/// The lowercase of an ASCII letter; other characters stay.
pub open spec fn ascii_lower(c: char) -> char {
    if 'A' <= c && c <= 'Z' {
        ((c as u8) + 32) as char
    } else {
        c
    }
}

/// `s` with its ASCII letters in lowercase.
pub open spec fn ascii_lowercase(s: Seq<char>) -> Seq<char> {
    s.map_values(|c: char| ascii_lower(c))
}

/// A payload key whose value is a credential.
pub open spec fn sensitive_key(key: Seq<char>) -> bool {
    let k = ascii_lowercase(key);
    ||| k == "token"@
    ||| k == "access_token"@
    ||| k == "refreshtoken"@
    ||| k == "refresh_token"@
    ||| k == "bearer_token"@
    ||| k == "secret"@
    ||| k == "password"@
    ||| k == "api_key"@
    ||| k == "apikey"@
    ||| k == "authorization"@
    ||| (k.len() >= 7 && k.skip(k.len() - 7) == "_secret"@)
}

fn lower_char(c: char) -> (r: char)
    ensures
        r == ascii_lower(c),
{
    if 'A' <= c && c <= 'Z' {
        let b: u8 = c as u8;
        let l: u8 = b + 32;
        l as char
    } else {
        c
    }
}

fn lowercase_chars(cs: &[char]) -> (r: Vec<char>)
    ensures
        r@ == ascii_lowercase(cs@),
{
    let mut out: Vec<char> = Vec::new();
    for i in 0..cs.len()
        invariant
            out@ == ascii_lowercase(cs@.take(i as int)),
    {
        out.push(lower_char(cs[i]));
        assert(ascii_lowercase(cs@.take(i + 1)) =~= ascii_lowercase(cs@.take(i as int)).push(
            ascii_lower(cs@[i as int]),
        ));
    }
    assert(cs@.take(cs@.len() as int) =~= cs@);
    out
}

fn ends_with_secret(lower: &[char]) -> (r: bool)
    ensures
        r == (lower@.len() >= 7 && lower@.skip(lower@.len() - 7) == "_secret"@),
{
    let suffix = chars_of("_secret");
    let n = lower.len();
    proof {
        reveal_strlit("_secret");
    }
    if n < 7 {
        return false;
    }
    let mut i: usize = 0;
    while i < 7
        invariant
            suffix@ == "_secret"@,
            suffix@.len() == 7,
            n == lower@.len(),
            n >= 7,
            i <= 7,
            forall|j: int| 0 <= j < i ==> lower@[n - 7 + j] == suffix@[j],
        decreases 7 - i,
    {
        if lower[n - 7 + i] != suffix[i] {
            assert(lower@.skip(n - 7)[i as int] != "_secret"@[i as int]);
            return false;
        }
        i = i + 1;
    }
    assert(lower@.skip(n - 7) =~= "_secret"@);
    true
}

/// Whether a payload key names a credential, whose value is never kept.
pub fn is_sensitive_event_key(key: &str) -> (r: bool)
    ensures
        r == sensitive_key(key@),
{
    let cs = chars_of(key);
    let lower = lowercase_chars(cs.as_slice());
    let k = string_from_range(lower.as_slice(), 0, lower.len());
    assert(lower@.subrange(0, lower@.len() as int) =~= lower@);
    let ks = k.as_str();
    if str_eq(ks, "token") || str_eq(ks, "access_token") || str_eq(ks, "refreshtoken") || str_eq(
        ks,
        "refresh_token",
    ) || str_eq(ks, "bearer_token") || str_eq(ks, "secret") || str_eq(ks, "password") || str_eq(
        ks,
        "api_key",
    ) || str_eq(ks, "apikey") || str_eq(ks, "authorization") {
        return true;
    }
    ends_with_secret(lower.as_slice())
}

/// A JSON value, with its numbers kept as their text.
#[derive(Debug, PartialEq, Eq)]
pub enum JsonValue {
    Null,
    Bool(bool),
    Number(String),
    String(String),
    Array(Vec<JsonValue>),
    Object(Vec<(String, JsonValue)>),
}

/// The most items of an array, or entries of an object, that an event keeps.
pub const MAX_EVENT_ITEMS: usize = 64;

/// The most bytes of a string that an event keeps.
pub const MAX_EVENT_TEXT_BYTES: usize = 8192;

/// The most bytes of an object key that an event keeps.
pub const MAX_EVENT_KEY_BYTES: usize = 128;

/// A string that carries an inline base64 data URL.
pub open spec fn is_data_url(s: Seq<char>) -> bool {
    s.len() >= 5 && s.take(5) == "data:"@ && exists|i: int| occurs_at(s, ";base64,"@, i)
}

/// What an event keeps of a string.
pub open spec fn sanitized_text(s: Seq<char>) -> Seq<char> {
    if is_data_url(s) {
        "[data URL omitted]"@
    } else {
        bounded_text(s, MAX_EVENT_TEXT_BYTES as nat)
    }
}

/// Whether `out` is what an event keeps of `value`, found under `key`: the value
/// of a credential key is replaced, data URLs are omitted, strings and keys are
/// bounded, and arrays and objects keep their first items, each sanitized.
pub open spec fn sanitized(out: JsonValue, value: JsonValue, key: Option<Seq<char>>) -> bool
    decreases value,
{
    if key is Some && sensitive_key(key->0) {
        out matches JsonValue::String(t) && t@ == "[redacted]"@
    } else {
        match value {
            JsonValue::String(s) => out matches JsonValue::String(t) && t@ == sanitized_text(s@),
            JsonValue::Array(items) => match out {
                JsonValue::Array(kept) => {
                    &&& kept.len() == if items.len() <= MAX_EVENT_ITEMS {
                        items.len()
                    } else {
                        MAX_EVENT_ITEMS
                    }
                    &&& forall|i: int|
                        0 <= i < kept.len() ==> sanitized(#[trigger] kept@[i], items@[i], None)
                },
                _ => false,
            },
            JsonValue::Object(entries) => match out {
                JsonValue::Object(kept) => {
                    &&& kept.len() == if entries.len() <= MAX_EVENT_ITEMS {
                        entries.len()
                    } else {
                        MAX_EVENT_ITEMS
                    }
                    &&& forall|i: int|
                        0 <= i < kept.len() ==> {
                            &&& (#[trigger] kept@[i]).0@ == bounded_text(
                                entries@[i].0@,
                                MAX_EVENT_KEY_BYTES as nat,
                            )
                            &&& sanitized(kept@[i].1, entries@[i].1, Some(entries@[i].0@))
                        }
                },
                _ => false,
            },
            JsonValue::Number(n) => out matches JsonValue::Number(m) && m@ == n@,
            _ => out == value,
        }
    }
}

fn is_data_url_text(s: &str) -> (r: bool)
    ensures
        r == is_data_url(s@),
{
    let cs = chars_of(s);
    let prefix = chars_of("data:");
    let marker = chars_of(";base64,");
    proof {
        reveal_strlit("data:");
    }
    if !chars_start_with(cs.as_slice(), prefix.as_slice()) {
        return false;
    }
    let found = find_chars(cs.as_slice(), marker.as_slice(), 0);
    proof {
        lemma_find_from(cs@, marker@, 0);
        assert(cs@.take(5) =~= cs@.subrange(0, 5));
    }
    found.is_some()
}

fn sanitized_string(s: &str) -> (r: String)
    ensures
        r@ == sanitized_text(s@),
{
    if is_data_url_text(s) {
        owned("[data URL omitted]")
    } else {
        bounded_event_text(s, MAX_EVENT_TEXT_BYTES)
    }
}

fn clone_number(s: &String) -> (r: String)
    ensures
        r@ == s@,
{
    owned(s.as_str())
}

/// What a task event keeps of a payload value found under `key`.
#[verifier::loop_isolation(false)]
pub fn sanitize_task_event_payload(value: &JsonValue, key: Option<&str>) -> (r: JsonValue)
    ensures
        sanitized(
            r,
            *value,
            match key {
                Some(k) => Some(k@),
                None => None,
            },
        ),
    decreases value,
{
    match key {
        Some(k) => {
            if is_sensitive_event_key(k) {
                return JsonValue::String(owned("[redacted]"));
            }
        },
        None => {},
    }
    match value {
        JsonValue::String(s) => JsonValue::String(sanitized_string(s.as_str())),
        JsonValue::Array(items) => {
            let n = if items.len() <= MAX_EVENT_ITEMS {
                items.len()
            } else {
                MAX_EVENT_ITEMS
            };
            let mut kept: Vec<JsonValue> = Vec::new();
            for i in 0..n
                invariant
                    n <= items.len(),
                    kept.len() == i,
                    forall|j: int| 0 <= j < i ==> sanitized(#[trigger] kept@[j], items@[j], None),
            {
                proof {
                    assert(decreases_to!(*value => *items));
                    assert(decreases_to!(*items => items@));
                    assert(decreases_to!(items@ => items@[i as int]));
                }
                let item = sanitize_task_event_payload(&items[i], None);
                kept.push(item);
            }
            JsonValue::Array(kept)
        },
        JsonValue::Object(entries) => {
            let n = if entries.len() <= MAX_EVENT_ITEMS {
                entries.len()
            } else {
                MAX_EVENT_ITEMS
            };
            let mut kept: Vec<(String, JsonValue)> = Vec::new();
            for i in 0..n
                invariant
                    n <= entries.len(),
                    kept.len() == i,
                    forall|j: int|
                        0 <= j < i ==> {
                            &&& (#[trigger] kept@[j]).0@ == bounded_text(
                                entries@[j].0@,
                                MAX_EVENT_KEY_BYTES as nat,
                            )
                            &&& sanitized(kept@[j].1, entries@[j].1, Some(entries@[j].0@))
                        },
            {
                let entry = &entries[i];
                proof {
                    assert(decreases_to!(*value => *entries));
                    assert(decreases_to!(*entries => entries@));
                    assert(decreases_to!(entries@ => entries@[i as int]));
                    assert(decreases_to!(entries@[i as int] => entries@[i as int].1));
                }
                let name = bounded_event_text(entry.0.as_str(), MAX_EVENT_KEY_BYTES);
                let item = sanitize_task_event_payload(&entry.1, Some(entry.0.as_str()));
                kept.push((name, item));
            }
            JsonValue::Object(kept)
        },
        JsonValue::Null => JsonValue::Null,
        JsonValue::Bool(b) => JsonValue::Bool(*b),
        JsonValue::Number(t) => JsonValue::Number(clone_number(t)),
    }
}


proof fn lemma_utf8_concat(x: Seq<char>, y: Seq<char>)
    ensures
        utf8_len(x + y) == utf8_len(x) + utf8_len(y),
    decreases y.len(),
{
    if y.len() > 0 {
        assert((x + y).drop_last() =~= x + y.drop_last());
        lemma_utf8_concat(x, y.drop_last());
    } else {
        assert(x + y =~= x);
    }
}

proof fn lemma_utf8_ascii(s: Seq<char>)
    requires
        forall|i: int| 0 <= i < s.len() ==> (#[trigger] s[i] as u32) < 0x80,
    ensures
        utf8_len(s) == s.len(),
    decreases s.len(),
{
    if s.len() > 0 {
        lemma_utf8_ascii(s.drop_last());
    }
}

proof fn lemma_fit_from(s: Seq<char>, budget: nat, k: int)
    requires
        0 <= k <= s.len(),
        utf8_len(s.take(k)) <= budget,
    ensures
        k <= fit_from(s, budget, k) <= s.len(),
        utf8_len(s.take(fit_from(s, budget, k))) <= budget,
    decreases s.len() - k,
{
    if k < s.len() && utf8_len(s.take(k + 1)) <= budget {
        lemma_fit_from(s, budget, k + 1);
    }
}

/// A bounded event text never takes more than its bound in UTF-8 bytes, once
/// the bound leaves room for the truncation mark.
pub proof fn law_bounded_text_fits(value: Seq<char>, max_bytes: nat)
    requires
        max_bytes >= 12,
    ensures
        utf8_len(bounded_text(value, max_bytes)) <= max_bytes,
{
    if utf8_len(value) > max_bytes {
        let budget: nat = (max_bytes - 12) as nat;
        assert(value.take(0) =~= Seq::<char>::empty());
        lemma_fit_from(value, budget, 0);
        let k = fit_from(value, budget, 0);
        reveal_strlit("\n[truncated]");
        lemma_utf8_ascii(truncation_suffix());
        lemma_utf8_concat(value.take(k), truncation_suffix());
    }
}

/// Whatever an object holds under a credential key, the event keeps only the
/// redaction mark in its place.
pub proof fn law_credentials_are_redacted(out: JsonValue, value: JsonValue, i: int)
    requires
        sanitized(out, value, None),
        value matches JsonValue::Object(entries) && 0 <= i < entries.len() && i < MAX_EVENT_ITEMS
            && sensitive_key(entries@[i].0@),
    ensures
        out matches JsonValue::Object(kept) && kept@[i].1 matches JsonValue::String(t) && t@
            == "[redacted]"@,
{
    match (out, value) {
        (JsonValue::Object(kept), JsonValue::Object(entries)) => {
            assert(kept@[i].0@ == bounded_text(entries@[i].0@, MAX_EVENT_KEY_BYTES as nat));
            assert(sanitized(kept@[i].1, entries@[i].1, Some(entries@[i].0@)));
        },
        _ => {},
    }
}


/// A JSON value as the contracts read it.
#[verifier::ext_equal]
pub enum Json {
    Null,
    Bool(bool),
    Number(Seq<char>),
    Str(Seq<char>),
    Array(Seq<Json>),
    Object(Seq<(Seq<char>, Json)>),
}

/// What a JSON value holds.
pub open spec fn json_of(v: JsonValue) -> Json
    decreases v,
{
    match v {
        JsonValue::Null => Json::Null,
        JsonValue::Bool(b) => Json::Bool(b),
        JsonValue::Number(n) => Json::Number(n@),
        JsonValue::String(s) => Json::Str(s@),
        JsonValue::Array(items) => Json::Array(
            Seq::new(
                items@.len(),
                |i: int|
                    if 0 <= i < items@.len() {
                        json_of(items@[i])
                    } else {
                        Json::Null
                    },
            ),
        ),
        JsonValue::Object(entries) => Json::Object(
            Seq::new(
                entries@.len(),
                |i: int|
                    if 0 <= i < entries@.len() {
                        (entries@[i].0@, json_of(entries@[i].1))
                    } else {
                        (Seq::empty(), Json::Null)
                    },
            ),
        ),
    }
}

/// A copy of `v`.
#[verifier::loop_isolation(false)]
pub fn copy_json(v: &JsonValue) -> (r: JsonValue)
    ensures
        json_of(r) == json_of(*v),
    decreases v,
{
    match v {
        JsonValue::Null => JsonValue::Null,
        JsonValue::Bool(b) => JsonValue::Bool(*b),
        JsonValue::Number(n) => JsonValue::Number(owned(n.as_str())),
        JsonValue::String(t) => JsonValue::String(owned(t.as_str())),
        JsonValue::Array(items) => {
            let mut out: Vec<JsonValue> = Vec::new();
            for i in 0..items.len()
                invariant
                    out@.len() == i,
                    forall|j: int| 0 <= j < i ==> json_of(#[trigger] out@[j]) == json_of(items@[j]),
            {
                proof {
                    assert(decreases_to!(*v => *items));
                    assert(decreases_to!(*items => items@));
                    assert(decreases_to!(items@ => items@[i as int]));
                }
                out.push(copy_json(&items[i]));
            }
            let r = JsonValue::Array(out);
            assert(json_of(r)->Array_0 =~= json_of(*v)->Array_0);
            r
        },
        JsonValue::Object(entries) => {
            let mut out: Vec<(String, JsonValue)> = Vec::new();
            for i in 0..entries.len()
                invariant
                    out@.len() == i,
                    forall|j: int|
                        0 <= j < i ==> (#[trigger] out@[j]).0@ == entries@[j].0@ && json_of(out@[j].1) == json_of(
                            entries@[j].1,
                        ),
            {
                proof {
                    assert(decreases_to!(*v => *entries));
                    assert(decreases_to!(*entries => entries@));
                    assert(decreases_to!(entries@ => entries@[i as int]));
                    assert(decreases_to!(entries@[i as int] => entries@[i as int].1));
                }
                let entry = &entries[i];
                out.push((owned(entry.0.as_str()), copy_json(&entry.1)));
            }
            let r = JsonValue::Object(out);
            assert(json_of(r)->Object_0 =~= json_of(*v)->Object_0);
            r
        },
    }
}

} // verus!
