//! The text of per-turn conversation audit records: file names, fenced blocks,
//! truncation, redaction of inline data URLs and the record sections.

use vstd::prelude::*;
use crate::action::{owned, str_eq};
use crate::events::JsonValue;
use crate::routing::RouteDecision;
use crate::text::{
    chars_of, decimal, find_chars, find_from, hex_lower, i64_decimal, is_ascii_alnum, lemma_find_from,
    occurs_at, push_char, push_chars, signed_decimal, to_hex_lower, u64_decimal,
};

verus! {

#[verifier::external_type_specification]
#[verifier::external_body]
pub struct ExPathBuf(std::path::PathBuf);

/// `PathBuf::clone`: nothing is claimed of the copy.
pub assume_specification[ <std::path::PathBuf as std::clone::Clone>::clone ](p: &std::path::PathBuf) -> std::path::PathBuf;

/// Where a turn's audit record goes and what it is about.
#[derive(Debug, Clone, PartialEq, Eq)]
pub struct TurnAuditContext {
    pub project_root: std::path::PathBuf,
    pub target_dir: std::path::PathBuf,
    pub conversation_id: String,
    pub turn: u64,
    pub target: String,
    pub agent_code: String,
    pub attempt_id: String,
}

/// Token usage reported for a turn.
#[derive(Debug, Clone, Default, PartialEq, Eq)]
pub struct TurnAuditUsage {
    pub input_tokens: i64,
    pub cached_input_tokens: i64,
    pub output_tokens: i64,
    pub reasoning_output_tokens: i64,
    pub total_tokens: i64,
}

/// How a turn ended.
#[derive(Debug, Clone, Default, PartialEq, Eq)]
pub struct TurnAuditCompletion {
    pub response: Option<String>,
    pub error: Option<String>,
    pub usage: Option<TurnAuditUsage>,
    pub duration_ms: Option<i64>,
    pub time_to_first_token_ms: Option<i64>,
}

// ---------------------------------------------------------------------------
// Trusted: SHA-256
// ---------------------------------------------------------------------------

/// The SHA-256 digest of `data`.
pub uninterp spec fn sha256_digest(data: Seq<u8>) -> Seq<u8>;

/// Calls `sha2::Sha256::digest`. Claimed: the result is the SHA-256 digest of `data`
/// (named, not defined here) and is 32 bytes long, the output size of SHA-256.
#[verifier::external_body]
fn sha256(data: &[u8]) -> (r: Vec<u8>)
    ensures
        r@ == sha256_digest(data@),
        r@.len() == 32,
{
    <sha2::Sha256 as sha2::Digest>::digest(data).to_vec()
}

/// Lowercase hexadecimal of the SHA-256 digest of the UTF-8 bytes of `content`.
pub open spec fn content_hash_text(content: Seq<char>) -> Seq<char> {
    hex_lower(sha256_digest(vstd::utf8::encode_utf8(content)))
}

/// The hexadecimal SHA-256 digest of the UTF-8 bytes of `content`.
pub fn content_hash(content: &str) -> (r: String)
    ensures
        r@ == content_hash_text(content@),
        r@.len() == 64,
{
    let bytes = content.as_bytes();
    let digest = sha256(bytes);
    let hex = to_hex_lower(digest.as_slice());
    proof {
        lemma_hex_len(digest@);
    }
    let mut s = String::new();
    push_chars(&mut s, hex.as_slice());
    s
}

/// The hexadecimal SHA-256 digest of `bytes`.
pub fn bytes_hash(bytes: &[u8]) -> (r: String)
    ensures
        r@ == hex_lower(sha256_digest(bytes@)),
        r@.len() == 64,
{
    let digest = sha256(bytes);
    let hex = to_hex_lower(digest.as_slice());
    proof {
        lemma_hex_len(digest@);
    }
    let mut s = String::new();
    push_chars(&mut s, hex.as_slice());
    s
}

pub proof fn lemma_hex_len(bytes: Seq<u8>)
    ensures
        hex_lower(bytes).len() == 2 * bytes.len(),
    decreases bytes.len(),
{
    if bytes.len() > 0 {
        lemma_hex_len(bytes.drop_last());
    }
}

// ---------------------------------------------------------------------------
// File name
// ---------------------------------------------------------------------------

/// An agent code character kept in a file name; others become '_'.
pub open spec fn file_char(c: char) -> char {
    if is_ascii_alnum(c) || c == '-' || c == '_' {
        c
    } else {
        '_'
    }
}

/// The file name of a turn's audit record: "{agent}-turn-{turn}-{attempt}.md" with
/// the agent code reduced to ASCII letters, digits, '-' and '_'.
pub open spec fn audit_file_name_text(agent: Seq<char>, turn: nat, attempt: Seq<char>) -> Seq<char> {
    agent.map_values(|c: char| file_char(c)) + "-turn-"@ + decimal(turn) + "-"@ + attempt + ".md"@
}

/// The file name of the audit record for `context`.
pub fn audit_file_name(context: &TurnAuditContext) -> (r: String)
    ensures
        r@ == audit_file_name_text(context.agent_code@, context.turn as nat, context.attempt_id@),
{
    let cs = chars_of(context.agent_code.as_str());
    let mut s = String::new();
    for i in 0..cs.len()
        invariant
            s@ == cs@.take(i as int).map_values(|c: char| file_char(c)),
    {
        let c = cs[i];
        let keep = ('a' <= c && c <= 'z') || ('A' <= c && c <= 'Z') || ('0' <= c && c <= '9') || c == '-'
            || c == '_';
        push_char(&mut s, if keep { c } else { '_' });
        assert(cs@.take(i + 1).map_values(|c: char| file_char(c)) =~= cs@.take(i as int).map_values(
            |c: char| file_char(c),
        ).push(file_char(cs@[i as int])));
    }
    assert(cs@.take(cs.len() as int) =~= cs@);
    s.append("-turn-");
    push_chars(&mut s, u64_decimal(context.turn).as_slice());
    s.append("-");
    s.append(context.attempt_id.as_str());
    s.append(".md");
    s
}

// ---------------------------------------------------------------------------
// Fenced blocks and truncation
// ---------------------------------------------------------------------------

/// The length of the run of backticks that ends just before index `k`.
pub open spec fn run_ending(s: Seq<char>, k: int) -> nat
    decreases k,
{
    if 0 < k <= s.len() && s[k - 1] == '`' {
        run_ending(s, k - 1) + 1
    } else {
        0
    }
}

/// The longest run of backticks among the first `k` characters.
pub open spec fn longest_run(s: Seq<char>, k: int) -> nat
    decreases k,
{
    if k <= 0 {
        0
    } else {
        let prev = longest_run(s, k - 1);
        let here = run_ending(s, k);
        if here > prev {
            here
        } else {
            prev
        }
    }
}

/// A fence that no backtick run in `content` can close: one backtick longer than the
/// longest run (saturating at `usize::MAX`), and at least three.
pub open spec fn fence_for(content: Seq<char>) -> Seq<char> {
    let l = longest_run(content, content.len() as int);
    let n = if l >= usize::MAX { usize::MAX as nat } else { l + 1 };
    Seq::new(if n > 3 { n } else { 3 }, |i: int| '`')
}

/// `content` in a fenced block tagged with `language`.
pub open spec fn code_block_text(content: Seq<char>, language: Seq<char>) -> Seq<char> {
    fence_for(content) + language + "\n"@ + content + "\n"@ + fence_for(content) + "\n"@
}

fn fence(content: &[char]) -> (r: Vec<char>)
    ensures
        r@ == fence_for(content@),
{
    let mut best: usize = 0;
    let mut cur: usize = 0;
    for i in 0..content.len()
        invariant
            cur == run_ending(content@, i as int),
            best == longest_run(content@, i as int),
            cur <= i,
            best <= i,
    {
        if content[i] == '`' {
            cur = cur + 1;
        } else {
            cur = 0;
        }
        if cur > best {
            best = cur;
        }
    }
    let b = best.saturating_add(1);
    let n = if b > 3 { b } else { 3 };
    let mut v: Vec<char> = Vec::new();
    for i in 0..n
        invariant
            v@ == Seq::new(i as nat, |k: int| '`'),
    {
        v.push('`');
        assert(v@ =~= Seq::new((i + 1) as nat, |k: int| '`'));
    }
    v
}

/// Appends `content` as a fenced block tagged with `language`.
pub fn push_code_block(s: &mut String, content: &[char], language: &str)
    ensures
        final(s)@ == old(s)@ + code_block_text(content@, language@),
{
    let f = fence(content);
    push_chars(s, f.as_slice());
    s.append(language);
    s.append("\n");
    push_chars(s, content);
    s.append("\n");
    push_chars(s, f.as_slice());
    s.append("\n");
}

/// `content` in a fenced block tagged with `language`.
pub fn code_block(content: &str, language: &str) -> (r: String)
    ensures
        r@ == code_block_text(content@, language@),
{
    let cs = chars_of(content);
    let mut s = String::new();
    push_code_block(&mut s, cs.as_slice(), language);
    s
}

/// `content` cut to `max` characters, with a note when something was cut.
pub open spec fn truncated_text(content: Seq<char>, max: nat) -> Seq<char> {
    if content.len() > max {
        content.take(max as int) + "\n[truncated after "@ + decimal(max) + " characters]"@
    } else {
        content
    }
}

/// `content` cut to `max_chars` characters, with a note when something was cut.
pub fn truncate_chars(content: &[char], max_chars: usize) -> (r: Vec<char>)
    ensures
        r@ == truncated_text(content@, max_chars as nat),
{
    let n = if content.len() > max_chars { max_chars } else { content.len() };
    let mut v: Vec<char> = Vec::new();
    for i in 0..n
        invariant
            n <= content@.len(),
            v@ == content@.take(i as int),
    {
        v.push(content[i]);
        assert(content@.take(i + 1) == content@.take(i as int).push(content@[i as int]));
    }
    if content.len() > max_chars {
        let mut s = owned("\n[truncated after ");
        push_chars(&mut s, u64_decimal(max_chars as u64).as_slice());
        s.append(" characters]");
        let tail = chars_of(s.as_str());
        let ghost before = v@;
        for i in 0..tail.len()
            invariant
                v@ == before + tail@.take(i as int),
        {
            v.push(tail[i]);
            assert(tail@.take(i + 1) == tail@.take(i as int).push(tail@[i as int]));
        }
        assert(tail@.take(tail.len() as int) == tail@);
        v
    } else {
        assert(content@.take(n as int) =~= content@);
        v
    }
}


// ---------------------------------------------------------------------------
// Data URL redaction
// ---------------------------------------------------------------------------

/// The number of bytes of `c` in UTF-8.
pub open spec fn char_width(c: char) -> nat {
    if (c as u32) < 0x80 {
        1
    } else if (c as u32) < 0x800 {
        2
    } else if (c as u32) < 0x10000 {
        3
    } else {
        4
    }
}

/// The number of bytes of `s` in UTF-8.
pub open spec fn utf8_len(s: Seq<char>) -> nat
    decreases s.len(),
{
    if s.len() == 0 {
        0
    } else {
        utf8_len(s.drop_last()) + char_width(s.last())
    }
}

/// A base64 character: ASCII letter, digit, '+', '/' or '='.
pub open spec fn is_b64_char(c: char) -> bool {
    is_ascii_alnum(c) || c == '+' || c == '/' || c == '='
}

/// The number of consecutive base64 characters from index `from`.
pub open spec fn b64_run(s: Seq<char>, from: int) -> nat
    decreases s.len() - from,
{
    if 0 <= from < s.len() && is_b64_char(s[from]) {
        1 + b64_run(s, from + 1)
    } else {
        0
    }
}

pub proof fn lemma_b64_run(s: Seq<char>, from: int)
    requires
        0 <= from <= s.len(),
    ensures
        from + b64_run(s, from) <= s.len(),
    decreases s.len() - from,
{
    if from < s.len() && is_b64_char(s[from]) {
        lemma_b64_run(s, from + 1);
    }
}

/// What replaces an inline data URL: its MIME type, the length of its payload and the
/// first 16 hexadecimal digits of the payload's SHA-256.
pub open spec fn data_url_placeholder(mime: Seq<char>, payload: Seq<char>) -> Seq<char> {
    "[data URL omitted: mime="@ + (if mime.len() == 0 { "unknown"@ } else { mime }) + ", encoded_chars="@
        + decimal(payload.len()) + ", sha256="@ + content_hash_text(payload).take(16) + "]"@
}

/// `s` from index `pos` with every inline base64 data URL replaced by a placeholder.
///
/// A data URL starts at "data:"; its payload follows the first ";base64," after it,
/// which must come within 128 bytes, and is the run of base64 characters there. An
/// empty payload is kept as it is and scanning goes on after the marker; a marker
/// that is missing or too far keeps the rest of the text unchanged.
pub open spec fn redact_from(s: Seq<char>, pos: int) -> Seq<char>
    decreases s.len() - pos,
{
    if pos < 0 || pos > s.len() {
        Seq::empty()
    } else {
        match find_from(s, "data:"@, pos) {
            None => s.subrange(pos, s.len() as int),
            Some(start) => match find_from(s, ";base64,"@, start) {
                None => s.subrange(pos, s.len() as int),
                Some(m) => if m < start + 5 || utf8_len(s.subrange(start, m)) > 128 {
                    s.subrange(pos, s.len() as int)
                } else {
                    let ps = m + 8;
                    proof {
                        lemma_find_from(s, "data:"@, pos);
                        lemma_find_from(s, ";base64,"@, start);
                        reveal_strlit(";base64,");
                        lemma_b64_run(s, ps);
                    }
                    let n = b64_run(s, ps);
                    if n == 0 {
                        s.subrange(pos, ps) + redact_from(s, ps)
                    } else {
                        s.subrange(pos, start) + data_url_placeholder(s.subrange(start + 5, m), s.subrange(ps, ps + n))
                            + redact_from(s, ps + n)
                    }
                }
            },
        }
    }
}

/// `s` with every inline base64 data URL replaced by a placeholder.
pub open spec fn redacted(s: Seq<char>) -> Seq<char> {
    redact_from(s, 0)
}

pub(crate) fn utf8_len_exceeds(s: &[char], from: usize, to: usize, limit: usize) -> (r: bool)
    requires
        from <= to <= s@.len(),
    ensures
        r == (utf8_len(s@.subrange(from as int, to as int)) > limit),
{
    let mut acc: usize = 0;
    for i in from..to
        invariant
            to <= s@.len(),
            acc == utf8_len(s@.subrange(from as int, i as int)),
            acc <= limit,
    {
        assert(s@.subrange(from as int, i + 1).drop_last() =~= s@.subrange(from as int, i as int));
        let c = s[i];
        let w: usize = if (c as u32) < 0x80 {
            1
        } else if (c as u32) < 0x800 {
            2
        } else if (c as u32) < 0x10000 {
            3
        } else {
            4
        };
        if w > limit - acc {
            proof {
                lemma_utf8_len_grows(s@.subrange(from as int, to as int), (i + 1 - from) as int);
                assert(s@.subrange(from as int, to as int).take((i + 1 - from) as int) =~= s@.subrange(from as int, i + 1));
            }
            return true;
        }
        acc = acc + w;
    }
    false
}

pub proof fn lemma_utf8_len_grows(s: Seq<char>, k: int)
    requires
        0 <= k <= s.len(),
    ensures
        utf8_len(s.take(k)) <= utf8_len(s),
    decreases s.len(),
{
    if k < s.len() {
        assert(s.drop_last().take(k) =~= s.take(k));
        lemma_utf8_len_grows(s.drop_last(), k);
    } else {
        assert(s.take(k) =~= s);
    }
}

fn is_b64(c: char) -> (r: bool)
    ensures
        r == is_b64_char(c),
{
    ('a' <= c && c <= 'z') || ('A' <= c && c <= 'Z') || ('0' <= c && c <= '9') || c == '+' || c == '/' || c == '='
}

fn b64_run_at(s: &[char], from: usize) -> (r: usize)
    requires
        from <= s@.len(),
    ensures
        r == b64_run(s@, from as int),
        from + r <= s@.len(),
{
    let n = s.len();
    let mut i = from;
    while i < n && is_b64(s[i])
        invariant
            n == s@.len(),
            from <= i <= n,
            b64_run(s@, from as int) == (i - from) + b64_run(s@, i as int),
        decreases n - i,
    {
        i = i + 1;
    }
    i - from
}

fn push_range(out: &mut String, s: &[char], from: usize, to: usize)
    requires
        from <= to <= s@.len(),
    ensures
        final(out)@ == old(out)@ + s@.subrange(from as int, to as int),
{
    for i in from..to
        invariant
            to <= s@.len(),
            out@ == old(out)@ + s@.subrange(from as int, i as int),
    {
        push_char(out, s[i]);
        assert(s@.subrange(from as int, i + 1) == s@.subrange(from as int, i as int).push(s@[i as int]));
    }
}

fn push_placeholder(out: &mut String, s: &[char], start: usize, m: usize, ps: usize, n: usize)
    requires
        start + 5 <= m <= ps <= ps + n <= s@.len(),
    ensures
        final(out)@ == old(out)@ + data_url_placeholder(
            s@.subrange(start + 5, m as int),
            s@.subrange(ps as int, ps + n),
        ),
{
    let total = s.len();
    assert(ps + n <= total);
    let mut payload = String::new();
    push_range(&mut payload, s, ps, ps + n);
    let hash = content_hash(payload.as_str());
    proof {
        lemma_hex_len(sha256_digest(vstd::utf8::encode_utf8(payload@)));
    }
    let hash_chars = chars_of(hash.as_str());
    out.append("[data URL omitted: mime=");
    if m == start + 5 {
        out.append("unknown");
    } else {
        push_range(out, s, start + 5, m);
    }
    out.append(", encoded_chars=");
    push_chars(out, u64_decimal(n as u64).as_slice());
    out.append(", sha256=");
    push_range(out, hash_chars.as_slice(), 0, 16);
    out.append("]");
}

/// `content` with every inline base64 data URL replaced by a placeholder that keeps
/// its MIME type, its length and a prefix of its SHA-256.
pub fn redact_data_urls(content: &str) -> (r: String)
    ensures
        r@ == redacted(content@),
{
    proof {
        reveal_strlit("data:");
        reveal_strlit(";base64,");
    }
    let s = chars_of(content);
    let n = s.len();
    let data = chars_of("data:");
    let marker = chars_of(";base64,");
    let mut out = String::new();
    let mut pos: usize = 0;
    loop
        invariant
            n == s@.len(),
            s@ == content@,
            data@ == "data:"@,
            marker@ == ";base64,"@,
            pos <= n,
            redact_from(s@, 0) == out@ + redact_from(s@, pos as int),
        decreases n - pos,
    {
        proof {
            reveal_strlit("data:");
            reveal_strlit(";base64,");
            lemma_find_from(s@, data@, pos as int);
        }
        let start = match find_chars(s.as_slice(), data.as_slice(), pos) {
            Some(i) => i,
            None => {
                push_range(&mut out, s.as_slice(), pos, n);
                return out;
            },
        };
        proof {
            lemma_find_from(s@, marker@, start as int);
        }
        let m = match find_chars(s.as_slice(), marker.as_slice(), start) {
            Some(i) => i,
            None => {
                push_range(&mut out, s.as_slice(), pos, n);
                return out;
            },
        };
        assert(occurs_at(s@, marker@, m as int));
        assert(occurs_at(s@, data@, start as int));
        if m < start + 5 {
            push_range(&mut out, s.as_slice(), pos, n);
            return out;
        }
        if utf8_len_exceeds(s.as_slice(), start, m, 128) {
            push_range(&mut out, s.as_slice(), pos, n);
            return out;
        }
        let ps = m + 8;
        let run = b64_run_at(s.as_slice(), ps);
        let ghost before = out@;
        if run == 0 {
            assert(redact_from(s@, pos as int) == s@.subrange(pos as int, ps as int) + redact_from(s@, ps as int));
            push_range(&mut out, s.as_slice(), pos, ps);
            assert(before + (s@.subrange(pos as int, ps as int) + redact_from(s@, ps as int)) =~= out@ + redact_from(s@, ps as int));
            pos = ps;
        } else {
            let ghost ph = data_url_placeholder(s@.subrange(start + 5, m as int), s@.subrange(ps as int, ps + run));
            assert(redact_from(s@, pos as int) == s@.subrange(pos as int, start as int) + ph + redact_from(s@, ps + run));
            push_range(&mut out, s.as_slice(), pos, start);
            push_placeholder(&mut out, s.as_slice(), start, m, ps, run);
            assert(before + (s@.subrange(pos as int, start as int) + ph + redact_from(s@, ps + run)) =~= out@ + redact_from(s@, ps + run));
            pos = ps + run;
        }
    }
}


// ---------------------------------------------------------------------------
// Record sections
// ---------------------------------------------------------------------------

/// The usage lines of a completion record.
pub open spec fn usage_text(u: TurnAuditUsage) -> Seq<char> {
    "\n- Input tokens："@ + signed_decimal(u.input_tokens as int) + "\n- Cached input tokens："@ + signed_decimal(
        u.cached_input_tokens as int,
    ) + "\n- Output tokens："@ + signed_decimal(u.output_tokens as int) + "\n- Reasoning output tokens："@
        + signed_decimal(u.reasoning_output_tokens as int) + "\n- Total tokens："@ + signed_decimal(
        u.total_tokens as int,
    ) + "\n"@
}

/// The part of a completion record that shows how the turn ended: the error, or
/// else the redacted response.
pub open spec fn outcome_text(c: TurnAuditCompletion) -> Seq<char> {
    match c.error {
        Some(e) => "\n### Error\n\n"@ + code_block_text(e@, "text"@),
        None => match c.response {
            Some(r) => "\n### Response\n\n"@ + code_block_text(redacted(r@), "markdown"@),
            None => Seq::empty(),
        },
    }
}

/// A timing line, when the value is known.
pub open spec fn timing_text(label: Seq<char>, value: Option<i64>) -> Seq<char> {
    match value {
        Some(v) => label + signed_decimal(v as int) + " ms\n"@,
        None => Seq::empty(),
    }
}

/// The section appended when a turn completes: the outcome, then usage, latency and
/// time to first token where known.
pub open spec fn completion_text(c: TurnAuditCompletion) -> Seq<char> {
    outcome_text(c) + (match c.usage {
        Some(u) => usage_text(u),
        None => Seq::empty(),
    }) + timing_text("- Latency："@, c.duration_ms) + timing_text("- Time to first token："@, c.time_to_first_token_ms)
}

fn push_outcome(body: &mut String, completion: &TurnAuditCompletion)
    ensures
        final(body)@ == old(body)@ + outcome_text(*completion),
{
    if let Some(error) = &completion.error {
        body.append("\n### Error\n\n");
        let cs = chars_of(error.as_str());
        push_code_block(body, cs.as_slice(), "text");
    } else if let Some(response) = &completion.response {
        body.append("\n### Response\n\n");
        let redacted_response = redact_data_urls(response.as_str());
        let cs = chars_of(redacted_response.as_str());
        push_code_block(body, cs.as_slice(), "markdown");
    } else {
        assert(old(body)@ + outcome_text(*completion) =~= old(body)@);
    }
}

fn push_usage(body: &mut String, usage: &TurnAuditUsage)
    ensures
        final(body)@ == old(body)@ + usage_text(*usage),
{
    body.append("\n- Input tokens：");
    push_chars(body, i64_decimal(usage.input_tokens).as_slice());
    body.append("\n- Cached input tokens：");
    push_chars(body, i64_decimal(usage.cached_input_tokens).as_slice());
    body.append("\n- Output tokens：");
    push_chars(body, i64_decimal(usage.output_tokens).as_slice());
    body.append("\n- Reasoning output tokens：");
    push_chars(body, i64_decimal(usage.reasoning_output_tokens).as_slice());
    body.append("\n- Total tokens：");
    push_chars(body, i64_decimal(usage.total_tokens).as_slice());
    body.append("\n");
    assert(body@ =~= old(body)@ + usage_text(*usage));
}

fn push_timing(body: &mut String, label: &str, value: Option<i64>)
    ensures
        final(body)@ == old(body)@ + timing_text(label@, value),
{
    if let Some(v) = value {
        body.append(label);
        push_chars(body, i64_decimal(v).as_slice());
        body.append(" ms\n");
        assert(body@ =~= old(body)@ + timing_text(label@, value));
    } else {
        assert(old(body)@ + timing_text(label@, value) =~= old(body)@);
    }
}

/// The section appended when a turn completes.
pub fn completion_record(completion: &TurnAuditCompletion) -> (r: String)
    ensures
        r@ == completion_text(*completion),
{
    let mut body = String::new();
    push_outcome(&mut body, completion);
    let ghost a = body@;
    if let Some(usage) = &completion.usage {
        push_usage(&mut body, usage);
    } else {
        assert(a + Seq::<char>::empty() =~= a);
    }
    let ghost b = body@;
    push_timing(&mut body, "- Latency：", completion.duration_ms);
    let ghost c = body@;
    push_timing(&mut body, "- Time to first token：", completion.time_to_first_token_ms);
    assert(body@ =~= completion_text(*completion));
    body
}

/// The section appended for a stream operation: when, in which stage, which
/// operation, and the redacted detail cut to 4096 characters.
pub open spec fn stream_operation_text(now: int, stage: Seq<char>, operation: Seq<char>, detail: Seq<char>) -> Seq<char> {
    "\n### Stream Operation\n\n- Time："@ + signed_decimal(now) + "\n- Stage："@ + stage + "\n- Operation："@ + operation
        + "\n\n"@ + code_block_text(truncated_text(redacted(detail), 4096), "text"@)
}

/// The section appended for a stream operation at time `now`.
pub fn stream_operation_record(now: i64, stage: &str, operation: &str, detail: &str) -> (r: String)
    ensures
        r@ == stream_operation_text(now as int, stage@, operation@, detail@),
{
    let redacted_detail = redact_data_urls(detail);
    let cs = chars_of(redacted_detail.as_str());
    let cut = truncate_chars(cs.as_slice(), 4096);
    let mut s = owned("\n### Stream Operation\n\n- Time：");
    push_chars(&mut s, i64_decimal(now).as_slice());
    s.append("\n- Stage：");
    s.append(stage);
    s.append("\n- Operation：");
    s.append(operation);
    s.append("\n\n");
    push_code_block(&mut s, cut.as_slice(), "text");
    s
}

/// The section appended when a turn fails to start.
pub open spec fn start_error_text(error: Seq<char>) -> Seq<char> {
    "\n### Error\n\n"@ + code_block_text(error, "text"@)
}

/// The section appended when a turn fails to start.
pub fn start_error_record(error: &str) -> (r: String)
    ensures
        r@ == start_error_text(error@),
{
    let mut s = owned("\n### Error\n\n");
    let cs = chars_of(error);
    push_code_block(&mut s, cs.as_slice(), "text");
    s
}

/// A route field as shown in the record: "configured" when empty.
pub open spec fn shown_or_configured(v: Seq<char>) -> Seq<char> {
    if v.len() == 0 {
        "configured"@
    } else {
        v
    }
}

/// The header of a turn's audit record, with the redacted model input as the request.
pub open spec fn request_text(
    conversation: Seq<char>,
    turn: nat,
    now: int,
    target: Seq<char>,
    agent: Seq<char>,
    attempt: Seq<char>,
    provider: Seq<char>,
    model: Seq<char>,
    input: Seq<char>,
) -> Seq<char> {
    "# LLM 对话审计\n\n- 会话："@ + conversation + "\n- 轮次："@ + decimal(turn) + "\n- 时间："@ + signed_decimal(now)
        + "\n- 目标："@ + target + "\n- Agent："@ + agent + "\n- Attempt："@ + attempt + "\n\n## 调用 1：主回答\n\n- Provider："@
        + shown_or_configured(provider) + "\n- Model："@ + shown_or_configured(model) + "\n\n### Request\n\n#### 1.1 user\n\n"@
        + code_block_text(redacted(input), "text"@)
}

/// The header of a turn's audit record, written when the turn's request is sent at `now`.
pub fn request_record(context: &TurnAuditContext, route: &RouteDecision, input: &str, now: i64) -> (r: String)
    ensures
        r@ == request_text(
            context.conversation_id@,
            context.turn as nat,
            now as int,
            context.target@,
            context.agent_code@,
            context.attempt_id@,
            route.provider@,
            route.model@,
            input@,
        ),
{
    let mut s = owned("# LLM 对话审计\n\n- 会话：");
    s.append(context.conversation_id.as_str());
    s.append("\n- 轮次：");
    push_chars(&mut s, u64_decimal(context.turn).as_slice());
    s.append("\n- 时间：");
    push_chars(&mut s, i64_decimal(now).as_slice());
    s.append("\n- 目标：");
    s.append(context.target.as_str());
    s.append("\n- Agent：");
    s.append(context.agent_code.as_str());
    s.append("\n- Attempt：");
    s.append(context.attempt_id.as_str());
    s.append("\n\n## 调用 1：主回答\n\n- Provider：");
    if route.provider.as_str().is_empty() {
        s.append("configured");
    } else {
        s.append(route.provider.as_str());
    }
    s.append("\n- Model：");
    if route.model.as_str().is_empty() {
        s.append("configured");
    } else {
        s.append(route.model.as_str());
    }
    s.append("\n\n### Request\n\n#### 1.1 user\n\n");
    let redacted_input = redact_data_urls(input);
    let cs = chars_of(redacted_input.as_str());
    push_code_block(&mut s, cs.as_slice(), "text");
    s
}


// ---------------------------------------------------------------------------
// Whether a project keeps audits
// ---------------------------------------------------------------------------

/// The value of the first entry of an object under `key`, if any.
pub open spec fn entry_value(entries: Seq<(String, JsonValue)>, key: Seq<char>) -> Option<JsonValue>
    decreases entries.len(),
{
    if entries.len() == 0 {
        None
    } else if entries[0].0@ == key {
        Some(entries[0].1)
    } else {
        entry_value(entries.skip(1), key)
    }
}

/// Whether a project keeps conversation audits, given its parsed `project.json`
/// (`None` when it cannot be read or parsed): only an object document counts;
/// `conversationAudit`, or failing that `conversation_audit`, decides when it
/// is a boolean, and audits are kept when neither says otherwise.
pub open spec fn audit_enabled(document: Option<JsonValue>) -> bool {
    match document {
        Some(JsonValue::Object(entries)) => {
            let setting = match entry_value(entries@, "conversationAudit"@) {
                Some(v) => Some(v),
                None => entry_value(entries@, "conversation_audit"@),
            };
            match setting {
                Some(JsonValue::Bool(b)) => b,
                _ => true,
            }
        },
        _ => false,
    }
}

pub(crate) fn entry_at<'a>(entries: &'a Vec<(String, JsonValue)>, key: &str) -> (r: Option<&'a JsonValue>)
    ensures
        match r {
            Some(v) => entry_value(entries@, key@) == Some(*v),
            None => entry_value(entries@, key@) is None,
        },
{
    let n = entries.len();
    assert(entries@.skip(0) =~= entries@);
    for i in 0..n
        invariant
            n == entries@.len(),
            entry_value(entries@, key@) == entry_value(entries@.skip(i as int), key@),
    {
        assert(entries@.skip(i as int).skip(1) =~= entries@.skip(i + 1));
        assert(entries@.skip(i as int)[0] == entries@[i as int]);
        if str_eq(entries[i].0.as_str(), key) {
            return Some(&entries[i].1);
        }
    }
    assert(entries@.skip(n as int) =~= Seq::<(String, JsonValue)>::empty());
    None
}

/// Whether a project keeps conversation audits, given its parsed `project.json`.
pub fn conversation_audit_enabled(document: Option<&JsonValue>) -> (r: bool)
    ensures
        r == audit_enabled(
            match document {
                Some(d) => Some(*d),
                None => None,
            },
        ),
{
    match document {
        Some(JsonValue::Object(entries)) => {
            let setting = match entry_at(entries, "conversationAudit") {
                Some(v) => Some(v),
                None => entry_at(entries, "conversation_audit"),
            };
            match setting {
                Some(JsonValue::Bool(b)) => *b,
                _ => true,
            }
        },
        _ => false,
    }
}

// ---------------------------------------------------------------------------
// Raw stream records
// ---------------------------------------------------------------------------

/// A raw record: its heading, the bytes as received, and a line break.
pub open spec fn raw_record_bytes(heading: Seq<char>, content: Seq<u8>) -> Seq<u8> {
    ascii_bytes(heading) + content + seq![10u8]
}

/// The bytes of an ASCII text.
pub open spec fn ascii_bytes(s: Seq<char>) -> Seq<u8> {
    s.map_values(|c: char| c as u8)
}

fn raw_record(heading: &str, content: &[u8]) -> (r: Vec<u8>)
    ensures
        r@ == raw_record_bytes(heading@, content@),
{
    let hc = chars_of(heading);
    let mut out: Vec<u8> = Vec::new();
    for i in 0..hc.len()
        invariant
            out@ == ascii_bytes(hc@.take(i as int)),
    {
        out.push(hc[i] as u8);
        assert(ascii_bytes(hc@.take(i + 1)) =~= ascii_bytes(hc@.take(i as int)).push(hc@[i as int] as u8));
    }
    assert(hc@.take(hc@.len() as int) =~= hc@);
    let ghost before = out@;
    for i in 0..content.len()
        invariant
            out@ == before + content@.take(i as int),
    {
        out.push(content[i]);
        assert(content@.take(i + 1) =~= content@.take(i as int).push(content@[i as int]));
    }
    assert(content@.take(content@.len() as int) =~= content@);
    out.push(10u8);
    out
}

/// The record of a streamed response's headers, as received.
pub fn response_headers_record(headers: &[u8]) -> (r: Vec<u8>)
    ensures
        r@ == raw_record_bytes("\n### Response Headers\n\n"@, headers@),
{
    raw_record("\n### Response Headers\n\n", headers)
}

/// The record of a chunk of a streamed response, as received.
pub fn stream_response_record(response: &[u8]) -> (r: Vec<u8>)
    ensures
        r@ == raw_record_bytes("\n### Stream Response\n\n"@, response@),
{
    raw_record("\n### Stream Response\n\n", response)
}

// ---------------------------------------------------------------------------
// 3D model job audits
// ---------------------------------------------------------------------------

/// The most characters of a JSON document that a 3D model audit keeps.
pub const MAX_MODEL3D_AUDIT_CHARS: usize = 16384;

/// The audit trail of one 3D model job; without a path, records are dropped.
pub struct Model3dAuditFile {
    path: Option<std::path::PathBuf>,
}

impl Model3dAuditFile {
    /// Where the records go, if anywhere.
    pub closed spec fn target(&self) -> Option<std::path::PathBuf> {
        self.path
    }

    /// An audit trail that writes to `path`, or drops records when `None`.
    pub fn new(path: Option<std::path::PathBuf>) -> (r: Self)
        ensures
            r.target() == path,
    {
        Model3dAuditFile { path }
    }

    /// Where the records go, if anywhere.
    pub fn path(&self) -> (r: Option<&std::path::PathBuf>)
        ensures
            match r {
                Some(p) => self.target() == Some(*p),
                None => self.target() is None,
            },
    {
        match &self.path {
            Some(p) => Some(p),
            None => None,
        }
    }
}

/// The file name of a 3D model job's audit.
pub open spec fn model3d_audit_file_name_text(job_id: Seq<char>) -> Seq<char> {
    "model3d-"@ + job_id + ".md"@
}

/// The file name of a 3D model job's audit.
pub fn model3d_audit_file_name(job_id: &str) -> (r: String)
    ensures
        r@ == model3d_audit_file_name_text(job_id@),
{
    let mut s = owned("model3d-");
    s.append(job_id);
    s.append(".md");
    s
}

/// The header written when a 3D model job's audit starts or resumes.
pub open spec fn model3d_header_text(
    job_id: Seq<char>,
    project_id: Seq<char>,
    character_id: Seq<char>,
    provider_code: Seq<char>,
    pipeline_version: Seq<char>,
    source_hash: Seq<char>,
    now: int,
) -> Seq<char> {
    "# 3D 模型生成审计\n\n- Job："@ + job_id + "\n- 项目："@ + project_id + "\n- 角色："@ + character_id
        + "\n- Provider："@ + provider_code + "\n- Pipeline 版本："@ + pipeline_version
        + "\n- 四视图哈希："@ + source_hash + "\n- 记录开始："@ + signed_decimal(now) + "\n"@
}

/// The header written when a 3D model job's audit starts or resumes.
pub fn model3d_audit_header(
    job_id: &str,
    project_id: &str,
    character_id: &str,
    provider_code: &str,
    pipeline_version: &str,
    source_hash: &str,
    now: i64,
) -> (r: String)
    ensures
        r@ == model3d_header_text(
            job_id@,
            project_id@,
            character_id@,
            provider_code@,
            pipeline_version@,
            source_hash@,
            now as int,
        ),
{
    let mut s = owned("# 3D 模型生成审计\n\n- Job：");
    s.append(job_id);
    s.append("\n- 项目：");
    s.append(project_id);
    s.append("\n- 角色：");
    s.append(character_id);
    s.append("\n- Provider：");
    s.append(provider_code);
    s.append("\n- Pipeline 版本：");
    s.append(pipeline_version);
    s.append("\n- 四视图哈希：");
    s.append(source_hash);
    s.append("\n- 记录开始：");
    push_chars(&mut s, i64_decimal(now).as_slice());
    s.append("\n");
    s
}

/// A rendered JSON document as shown in a 3D model audit: cut, then fenced.
pub open spec fn json_block_text(rendered: Seq<char>) -> Seq<char> {
    code_block_text(truncated_text(rendered, MAX_MODEL3D_AUDIT_CHARS as nat), "json"@)
}

/// The record of one provider call of a 3D model job; the JSON documents come
/// rendered.
pub open spec fn model3d_call_text(
    method: Seq<char>,
    now: int,
    outcome: Seq<char>,
    duration_ms: nat,
    headers_json: Seq<char>,
    request_json: Seq<char>,
    response_json: Seq<char>,
) -> Seq<char> {
    "\n## "@ + method + "\n\n- Time："@ + signed_decimal(now) + "\n- Outcome："@ + outcome
        + "\n- Duration："@ + decimal(duration_ms) + " ms\n\n### Request\n\n#### Headers\n\n"@
        + json_block_text(headers_json) + "\n#### Body\n\n"@ + json_block_text(request_json)
        + "\n### Response\n\n"@ + json_block_text(response_json)
}

fn push_json_block(s: &mut String, rendered: &str)
    ensures
        final(s)@ == old(s)@ + json_block_text(rendered@),
{
    let cs = chars_of(rendered);
    let cut = truncate_chars(cs.as_slice(), MAX_MODEL3D_AUDIT_CHARS);
    push_code_block(s, cut.as_slice(), "json");
}

/// The record of one provider call of a 3D model job.
pub fn model3d_call_record(
    method: &str,
    now: i64,
    outcome: &str,
    duration_ms: u64,
    headers_json: &str,
    request_json: &str,
    response_json: &str,
) -> (r: String)
    ensures
        r@ == model3d_call_text(
            method@,
            now as int,
            outcome@,
            duration_ms as nat,
            headers_json@,
            request_json@,
            response_json@,
        ),
{
    let mut s = owned("\n## ");
    s.append(method);
    s.append("\n\n- Time：");
    push_chars(&mut s, i64_decimal(now).as_slice());
    s.append("\n- Outcome：");
    s.append(outcome);
    s.append("\n- Duration：");
    push_chars(&mut s, u64_decimal(duration_ms).as_slice());
    s.append(" ms\n\n### Request\n\n#### Headers\n\n");
    push_json_block(&mut s, headers_json);
    s.append("\n#### Body\n\n");
    push_json_block(&mut s, request_json);
    s.append("\n### Response\n\n");
    push_json_block(&mut s, response_json);
    s
}

} // verus!
