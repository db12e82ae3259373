//! Usage limits of AI models: limit kinds, accounting windows, the quota test and the
//! circuit breaker.

use vstd::prelude::*;
use crate::action::{owned, str_eq};
use crate::text::{chars_of, is_ascii_digit};

verus! {

/// What a usage limit counts.
#[derive(Debug, Clone, Copy, PartialEq, Eq, Structural)]
pub enum LimitKind {
    Calls,
    InputTokens,
    OutputTokens,
    TotalTokens,
    Tokens,
    Credits,
}

/// A stored AI configuration value that cannot be read.
#[derive(Debug, Clone, PartialEq, Eq)]
pub enum ConfigError {
    InvalidData(String),
}

/// The stored name of a limit kind.
pub open spec fn limit_kind_text(kind: LimitKind) -> Seq<char> {
    match kind {
        LimitKind::Calls => "calls"@,
        LimitKind::InputTokens => "input_tokens"@,
        LimitKind::OutputTokens => "output_tokens"@,
        LimitKind::TotalTokens => "total_tokens"@,
        LimitKind::Tokens => "tokens"@,
        LimitKind::Credits => "credits"@,
    }
}

/// The stored name of a limit kind.
pub fn limit_kind_name(kind: &LimitKind) -> (r: &'static str)
    ensures
        r@ == limit_kind_text(*kind),
{
    match kind {
        LimitKind::Calls => "calls",
        LimitKind::InputTokens => "input_tokens",
        LimitKind::OutputTokens => "output_tokens",
        LimitKind::TotalTokens => "total_tokens",
        LimitKind::Tokens => "tokens",
        LimitKind::Credits => "credits",
    }
}

/// The limit kind stored under `value`, if any.
pub open spec fn limit_kind_of(value: Seq<char>) -> Option<LimitKind> {
    if value == "calls"@ {
        Some(LimitKind::Calls)
    } else if value == "input_tokens"@ {
        Some(LimitKind::InputTokens)
    } else if value == "output_tokens"@ {
        Some(LimitKind::OutputTokens)
    } else if value == "total_tokens"@ {
        Some(LimitKind::TotalTokens)
    } else if value == "tokens"@ {
        Some(LimitKind::Tokens)
    } else if value == "credits"@ {
        Some(LimitKind::Credits)
    } else {
        None
    }
}

/// Reads a stored limit kind.
pub fn parse_limit_kind(value: &str) -> (r: Result<LimitKind, ConfigError>)
    ensures
        match limit_kind_of(value@) {
            Some(k) => r == Ok::<LimitKind, ConfigError>(k),
            None => r matches Err(ConfigError::InvalidData(m)) && m@ == "unknown limit kind: "@ + value@,
        },
{
    if str_eq(value, "calls") {
        Ok(LimitKind::Calls)
    } else if str_eq(value, "input_tokens") {
        Ok(LimitKind::InputTokens)
    } else if str_eq(value, "output_tokens") {
        Ok(LimitKind::OutputTokens)
    } else if str_eq(value, "total_tokens") {
        Ok(LimitKind::TotalTokens)
    } else if str_eq(value, "tokens") {
        Ok(LimitKind::Tokens)
    } else if str_eq(value, "credits") {
        Ok(LimitKind::Credits)
    } else {
        let mut m = owned("unknown limit kind: ");
        m.append(value);
        Err(ConfigError::InvalidData(m))
    }
}

/// The value of a sequence of decimal digits.
pub open spec fn digits_value(d: Seq<char>) -> nat
    decreases d.len(),
{
    if d.len() == 0 {
        0
    } else {
        digits_value(d.drop_last()) * 10 + (d.last() as nat - '0' as nat) as nat
    }
}

pub open spec fn all_digits(d: Seq<char>) -> bool {
    forall|i: int| 0 <= i < d.len() ==> is_ascii_digit(#[trigger] d[i])
}

/// What `str::parse::<i64>` reads from `s`: an optional sign, then one or more
/// decimal digits, within the range of `i64`.
pub open spec fn parsed_i64(s: Seq<char>) -> Option<int> {
    let neg = s.len() > 0 && s[0] == '-';
    let signed = s.len() > 0 && (s[0] == '-' || s[0] == '+');
    let d = if signed { s.skip(1) } else { s };
    if d.len() == 0 || !all_digits(d) {
        None
    } else {
        let v = if neg { -(digits_value(d) as int) } else { digits_value(d) as int };
        if i64::MIN <= v <= i64::MAX { Some(v) } else { None }
    }
}

pub proof fn lemma_digits_value_grows(d: Seq<char>, k: int)
    requires
        all_digits(d),
        0 <= k <= d.len(),
    ensures
        digits_value(d.take(k)) <= digits_value(d),
    decreases d.len(),
{
    if k < d.len() {
        assert(d.drop_last().take(k) =~= d.take(k));
        assert(all_digits(d.drop_last())) by {
            assert forall|i: int| 0 <= i < d.drop_last().len() implies is_ascii_digit(#[trigger] d.drop_last()[i]) by {
                assert(d.drop_last()[i] == d[i]);
            }
        }
        lemma_digits_value_grows(d.drop_last(), k);
    } else {
        assert(d.take(k) =~= d);
    }
}

fn digit_value(c: char) -> (r: u64)
    requires
        is_ascii_digit(c),
    ensures
        r == (c as nat - '0' as nat),
{
    if c == '0' { 0 }
    else if c == '1' { 1 }
    else if c == '2' { 2 }
    else if c == '3' { 3 }
    else if c == '4' { 4 }
    else if c == '5' { 5 }
    else if c == '6' { 6 }
    else if c == '7' { 7 }
    else if c == '8' { 8 }
    else { 9 }
}

/// Reads a decimal `i64` the way `str::parse::<i64>` does.
pub fn parse_i64(cs: &[char]) -> (r: Option<i64>)
    ensures
        match parsed_i64(cs@) {
            Some(v) => r == Some(v as i64),
            None => r is None,
        },
{
    let n = cs.len();
    let neg = n > 0 && cs[0] == '-';
    let signed = n > 0 && (cs[0] == '-' || cs[0] == '+');
    let start: usize = if signed { 1 } else { 0 };
    let ghost d = if signed { cs@.skip(1) } else { cs@ };
    assert(d =~= cs@.subrange(start as int, n as int));
    if start >= n {
        assert(d.len() == 0);
        return None;
    }
    let limit: u64 = if neg { 9223372036854775808u64 } else { 9223372036854775807u64 };
    let mut acc: u64 = 0;
    let mut i = start;
    while i < n
        invariant
            n == cs@.len(),
            start <= i <= n,
            signed == (cs@.len() > 0 && (cs@[0] == '-' || cs@[0] == '+')),
            neg == (cs@.len() > 0 && cs@[0] == '-'),
            start == (if signed { 1usize } else { 0usize }),
            d == (if signed { cs@.skip(1) } else { cs@ }),
            limit == (if neg { 9223372036854775808u64 } else { 9223372036854775807u64 }),
            d == cs@.subrange(start as int, n as int),
            all_digits(cs@.subrange(start as int, i as int)),
            acc == digits_value(cs@.subrange(start as int, i as int)),
            acc <= limit,
        decreases n - i,
    {
        let c = cs[i];
        if !('0' <= c && c <= '9') {
            assert(d[i - start] == c);
            return None;
        }
        let ghost prefix = cs@.subrange(start as int, i + 1);
        assert(prefix.drop_last() =~= cs@.subrange(start as int, i as int));
        assert(all_digits(prefix)) by {
            assert forall|k: int| 0 <= k < prefix.len() implies is_ascii_digit(#[trigger] prefix[k]) by {
                if k < prefix.len() - 1 {
                    assert(prefix[k] == cs@.subrange(start as int, i as int)[k]);
                }
            }
        }
        let dv = digit_value(c);
        if acc > (limit - dv) / 10 {
            proof {
                assert(digits_value(prefix) == acc * 10 + dv);
                assert(acc * 10 + dv > limit) by (nonlinear_arith)
                    requires acc > (limit - dv) / 10, dv <= 9, limit >= 9;
                if all_digits(d) {
                    lemma_digits_value_grows(d, i + 1 - start);
                    assert(d.take(i + 1 - start) =~= prefix);
                }
            }
            return None;
        }
        assert(acc * 10 + dv <= limit) by (nonlinear_arith)
            requires acc <= (limit - dv) / 10, dv <= 9, limit >= 9;
        acc = acc * 10 + dv;
        i = i + 1;
    }
    assert(cs@.subrange(start as int, n as int) =~= d);
    if neg {
        if acc == 9223372036854775808u64 {
            Some(i64::MIN)
        } else {
            Some(-(acc as i64))
        }
    } else {
        Some(acc as i64)
    }
}


/// Seconds per unit letter, in either case: s, m, h, d, w.
pub open spec fn unit_seconds(c: char) -> Option<int> {
    if c == 's' || c == 'S' {
        Some(1)
    } else if c == 'm' || c == 'M' {
        Some(60)
    } else if c == 'h' || c == 'H' {
        Some(3600)
    } else if c == 'd' || c == 'D' {
        Some(86400)
    } else if c == 'w' || c == 'W' {
        Some(604800)
    } else {
        None
    }
}

/// A duration such as "90s" or "2h": an `i64` count and a unit letter, giving a
/// positive number of seconds that fits in an `i64`.
pub open spec fn period_duration(p: Seq<char>) -> Option<int> {
    if p.len() == 0 {
        None
    } else {
        match (parsed_i64(p.drop_last()), unit_seconds(p.last())) {
            (Some(a), Some(m)) => if 0 < a * m <= i64::MAX {
                Some(a * m)
            } else {
                None
            },
            _ => None,
        }
    }
}

/// The text ends on an ASCII character (or is empty), so cutting off its last byte
/// leaves whole characters.
pub open spec fn last_is_ascii(p: Seq<char>) -> bool {
    p.len() == 0 || (p.last() as u32) < 0x80
}

pub open spec fn invalid_period_message(p: Seq<char>) -> Seq<char> {
    "invalid AI limit period: "@ + p
}

/// Reads a duration such as "90s" or "2h" as seconds.
pub fn parse_period_duration(period: &str) -> (r: Result<i64, ConfigError>)
    requires
        last_is_ascii(period@),
    ensures
        match period_duration(period@) {
            Some(v) => r == Ok::<i64, ConfigError>(v as i64),
            None => r matches Err(ConfigError::InvalidData(m)) && m@ == invalid_period_message(period@),
        },
{
    let cs = chars_of(period);
    let n = cs.len();
    if n == 0 {
        return Err(invalid_period(period));
    }
    let mut amount: Vec<char> = Vec::new();
    for i in 0..n - 1
        invariant
            n == cs@.len(),
            n > 0,
            amount@ == cs@.take(i as int),
    {
        amount.push(cs[i]);
        assert(cs@.take(i + 1) == cs@.take(i as int).push(cs@[i as int]));
    }
    assert(amount@ =~= cs@.drop_last());
    let unit = cs[n - 1];
    let a = match parse_i64(amount.as_slice()) {
        Some(a) => a,
        None => return Err(invalid_period(period)),
    };
    let m: i64 = if unit == 's' || unit == 'S' {
        1
    } else if unit == 'm' || unit == 'M' {
        60
    } else if unit == 'h' || unit == 'H' {
        3600
    } else if unit == 'd' || unit == 'D' {
        86400
    } else if unit == 'w' || unit == 'W' {
        604800
    } else {
        return Err(invalid_period(period));
    };
    match a.checked_mul(m) {
        Some(v) => if v > 0 {
            Ok(v)
        } else {
            Err(invalid_period(period))
        },
        None => Err(invalid_period(period)),
    }
}

fn invalid_period(period: &str) -> (e: ConfigError)
    ensures
        e matches ConfigError::InvalidData(m) && m@ == invalid_period_message(period@),
{
    let mut m = owned("invalid AI limit period: ");
    m.append(period);
    ConfigError::InvalidData(m)
}

/// Seconds of a named period.
pub open spec fn named_period_seconds(p: Seq<char>) -> Option<int> {
    if p == "second"@ {
        Some(1)
    } else if p == "minute"@ {
        Some(60)
    } else if p == "hour"@ {
        Some(3600)
    } else if p == "day"@ {
        Some(86400)
    } else if p == "week"@ {
        Some(604800)
    } else if p == "month"@ {
        Some(2592000)
    } else {
        None
    }
}

/// The index of the first '+' in `p`, if any.
pub open spec fn first_plus(p: Seq<char>) -> Option<int> {
    if exists|i: int| 0 <= i < p.len() && p[i] == '+' {
        Some(choose|i: int| 0 <= i < p.len() && p[i] == '+' && forall|k: int| 0 <= k < i ==> p[k] != '+')
    } else {
        None
    }
}

/// The base period and the offset text of a period expression "base+offset".
pub open spec fn period_parts(p: Seq<char>) -> (Seq<char>, Option<Seq<char>>) {
    match first_plus(p) {
        Some(i) => (p.take(i), Some(p.skip(i + 1))),
        None => (p, None),
    }
}

/// The offset and length of the accounting window of a period expression, or the part
/// of it that cannot be read. "total" has no window.
pub open spec fn period_window(p: Seq<char>) -> Result<(int, int), Seq<char>> {
    let (base, offset_text) = period_parts(p);
    let offset = match offset_text {
        Some(t) => match period_duration(t) {
            Some(o) => Ok(o),
            None => Err(t),
        },
        None => Ok(0),
    };
    match offset {
        Err(t) => Err(t),
        Ok(o) => match named_period_seconds(base) {
            Some(sec) => Ok((o, sec)),
            None => match period_duration(base) {
                Some(sec) => Ok((o, sec)),
                None => Err(base),
            },
        },
    }
}

/// Reading the period expression never cuts a character in half.
pub open spec fn period_parse_safe(p: Seq<char>) -> bool {
    let (base, offset_text) = period_parts(p);
    &&& (offset_text matches Some(t) ==> last_is_ascii(t))
    &&& ((offset_text matches Some(t) ==> period_duration(t) is Some) && named_period_seconds(base) is None
        ==> last_is_ascii(base))
}

/// The start of the accounting window that contains `now`: windows of `sec` seconds
/// aligned to `offset` seconds after the epoch.
pub open spec fn window_start(now: int, offset: int, sec: int) -> int {
    now - (now - offset) % sec
}

/// The arithmetic of the window stays within `i64`.
pub open spec fn period_arith_safe(now: int, p: Seq<char>) -> bool {
    p != "total"@ ==> (period_window(p) matches Ok((o, sec)) ==> (i64::MIN <= now - o <= i64::MAX
        && i64::MIN <= window_start(now, o, sec)))
}

/// The non-negative remainder of `a` divided by a positive `m` (`i64::rem_euclid`).
pub fn rem_euclid(a: i64, m: i64) -> (r: i64)
    requires
        m > 0,
    ensures
        r == a % m,
        0 <= r < m,
{
    if a >= 0 {
        let t = (a as u64) % (m as u64);
        proof {
            vstd::arithmetic::div_mod::lemma_fundamental_div_mod(a as int, m as int);
            vstd::arithmetic::div_mod::lemma_fundamental_div_mod(a as u64 as int, m as u64 as int);
        }
        t as i64
    } else {
        let na: u64 = (-(a + 1)) as u64;
        let t = na % (m as u64);
        let r = m - 1 - (t as i64);
        proof {
            let q = (na as int) / (m as int);
            vstd::arithmetic::div_mod::lemma_fundamental_div_mod(na as int, m as int);
            assert(a as int == (-q - 1) * (m as int) + (r as int)) by (nonlinear_arith)
                requires
                    na as int == (m as int) * q + (t as int),
                    a as int == -(na as int) - 1,
                    r as int == m - 1 - t;
            vstd::arithmetic::div_mod::lemma_fundamental_div_mod_converse(a as int, m as int, -q - 1, r as int);
        }
        r
    }
}

/// The start of the accounting window of `period` that contains `now`; 0 for "total".
pub fn period_start(now: i64, period: &str) -> (r: Result<i64, ConfigError>)
    requires
        period@ != "total"@ ==> period_parse_safe(period@),
        period_arith_safe(now as int, period@),
    ensures
        period@ == "total"@ ==> r == Ok::<i64, ConfigError>(0),
        period@ != "total"@ ==> match period_window(period@) {
            Ok((o, sec)) => r == Ok::<i64, ConfigError>(window_start(now as int, o, sec) as i64),
            Err(t) => r matches Err(ConfigError::InvalidData(m)) && m@ == invalid_period_message(t),
        },
{
    if str_eq(period, "total") {
        return Ok(0);
    }
    let cs = chars_of(period);
    let n = cs.len();
    let mut plus: usize = 0;
    while plus < n && cs[plus] != '+'
        invariant
            n == cs@.len(),
            plus <= n,
            forall|k: int| 0 <= k < plus ==> cs@[k] != '+',
        decreases n - plus,
    {
        plus = plus + 1;
    }
    proof {
        if plus < n {
            assert(exists|i: int| 0 <= i < cs@.len() && cs@[i] == '+');
            let c = choose|i: int| 0 <= i < cs@.len() && cs@[i] == '+' && forall|k: int| 0 <= k < i ==> cs@[k] != '+';
            assert(cs@[plus as int] == '+');
            assert(c == plus);
        } else {
            assert(!exists|i: int| 0 <= i < cs@.len() && cs@[i] == '+');
        }
    }
    let base_end = plus;
    let ghost parts = period_parts(cs@);
    let offset: i64 = if plus < n {
        let mut t = String::new();
        for i in plus + 1..n
            invariant
                n == cs@.len(),
                plus < n,
                t@ == cs@.subrange(plus + 1, i as int),
        {
            crate::text::push_char(&mut t, cs[i]);
            assert(cs@.subrange(plus + 1, i + 1) == cs@.subrange(plus + 1, i as int).push(cs@[i as int]));
        }
        assert(t@ =~= cs@.skip(plus + 1));
        match parse_period_duration(t.as_str()) {
            Ok(o) => o,
            Err(e) => return Err(e),
        }
    } else {
        0
    };
    let mut base = String::new();
    for i in 0..base_end
        invariant
            base_end <= cs@.len(),
            base@ == cs@.take(i as int),
    {
        crate::text::push_char(&mut base, cs[i]);
        assert(cs@.take(i + 1) == cs@.take(i as int).push(cs@[i as int]));
    }
    if plus == n {
        assert(cs@.take(n as int) =~= cs@);
    }
    let b = base.as_str();
    let sec: i64 = if str_eq(b, "second") {
        1
    } else if str_eq(b, "minute") {
        60
    } else if str_eq(b, "hour") {
        3600
    } else if str_eq(b, "day") {
        86400
    } else if str_eq(b, "week") {
        604800
    } else if str_eq(b, "month") {
        2592000
    } else {
        match parse_period_duration(b) {
            Ok(v) => v,
            Err(e) => return Err(e),
        }
    };
    let shifted = now - offset;
    let rem = rem_euclid(shifted, sec);
    Ok(now - rem)
}


// ---------------------------------------------------------------------------
// Quotas, capacity and the circuit breaker
// ---------------------------------------------------------------------------

/// The unsigned reading of a signed total (`as u64`).
pub open spec fn as_unsigned(v: i64) -> int {
    if v >= 0 {
        v as int
    } else {
        v + 18446744073709551616
    }
}

/// A reservation of `amount` on top of `used` goes over a positive limit `max_value`.
pub open spec fn quota_exceeded(used: i64, amount: u64, max_value: u64) -> bool {
    as_unsigned(used) + amount > max_value
}

/// Whether reserving `amount` on top of `used` goes over `max_value`.
pub fn exceeds_quota(used: i64, amount: u64, max_value: u64) -> (r: bool)
    requires
        as_unsigned(used) + amount <= u64::MAX,
    ensures
        r == quota_exceeded(used, amount, max_value),
{
    let u: u64 = if used >= 0 {
        used as u64
    } else {
        u64::MAX - ((-(used + 1)) as u64)
    };
    u + amount > max_value
}

/// A model has capacity when every positive limit has room left in its window.
pub open spec fn has_capacity(limits: Seq<(u64, u64)>) -> bool {
    forall|i: int| 0 <= i < limits.len() ==> (#[trigger] limits[i]).0 == 0 || limits[i].1 < limits[i].0
}

/// Whether every positive limit `(max_value, used)` has room left.
pub fn model_has_capacity(limits: &[(u64, u64)]) -> (r: bool)
    ensures
        r == has_capacity(limits@),
{
    for i in 0..limits.len()
        invariant
            forall|k: int| 0 <= k < i ==> (#[trigger] limits@[k]).0 == 0 || limits@[k].1 < limits@[k].0,
    {
        let (max_value, used) = limits[i];
        if max_value > 0 && used >= max_value {
            assert(!((limits@[i as int]).0 == 0 || limits@[i as int].1 < limits@[i as int].0));
            return false;
        }
    }
    true
}

/// A bound model can be routed to: its provider and itself are enabled, its breaker
/// (if any) has reached its retry time, and it has capacity.
pub open spec fn route_model_available_spec(
    provider_enabled: bool,
    model_enabled: bool,
    retry_at: Option<i64>,
    now: i64,
    capacity: bool,
) -> bool {
    provider_enabled && model_enabled && (match retry_at {
        Some(t) => t <= now,
        None => true,
    }) && capacity
}

/// Whether a bound model can be routed to at `now`.
pub fn route_model_available(
    provider_enabled: bool,
    model_enabled: bool,
    retry_at: Option<i64>,
    now: i64,
    capacity: bool,
) -> (r: bool)
    ensures
        r == route_model_available_spec(provider_enabled, model_enabled, retry_at, now, capacity),
{
    let retry_ok = match retry_at {
        Some(t) => t <= now,
        None => true,
    };
    provider_enabled && model_enabled && retry_ok && capacity
}

/// A model's breaker after one more failure.
#[derive(Debug, Clone, Copy, PartialEq, Eq)]
pub struct BreakerUpdate {
    pub failure_count: i64,
    pub opened_at: Option<i64>,
    pub retry_at: Option<i64>,
}

/// The signed reading of an unsigned number (`as i64`).
pub open spec fn as_signed(v: u64) -> int {
    if v <= i64::MAX {
        v as int
    } else {
        v - 18446744073709551616
    }
}

/// `a + b`, held within the range of `i64`.
pub open spec fn saturating(v: int) -> int {
    if v > i64::MAX {
        i64::MAX as int
    } else if v < i64::MIN {
        i64::MIN as int
    } else {
        v
    }
}

/// The failure threshold in effect: the configured one (3 by default), at least 1.
pub open spec fn effective_threshold(threshold: Option<u64>) -> int {
    let t = match threshold {
        Some(t) => t as int,
        None => 3,
    };
    if t < 1 {
        1
    } else {
        t
    }
}

/// The breaker after a failure: the count goes up by one; once it reaches the
/// threshold the breaker opens now and allows a retry after the cooldown (60 s by default).
pub open spec fn breaker_after_failure_spec(
    previous: Option<i64>,
    threshold: Option<u64>,
    cooldown: Option<u64>,
    now: i64,
) -> BreakerUpdate {
    let count = match previous {
        Some(p) => p + 1,
        None => 1,
    };
    let wait = match cooldown {
        Some(c) => c,
        None => 60,
    };
    let opens = as_unsigned(count as i64) >= effective_threshold(threshold);
    BreakerUpdate {
        failure_count: count as i64,
        opened_at: if opens { Some(now) } else { None },
        retry_at: if opens { Some(saturating(now + as_signed(wait)) as i64) } else { None },
    }
}

/// The breaker after one more failure of a model.
pub fn breaker_after_failure(
    previous: Option<i64>,
    threshold: Option<u64>,
    cooldown: Option<u64>,
    now: i64,
) -> (r: BreakerUpdate)
    requires
        previous matches Some(p) ==> p < i64::MAX,
    ensures
        r == breaker_after_failure_spec(previous, threshold, cooldown, now),
{
    let t = match threshold {
        Some(t) => t,
        None => 3,
    };
    let t = if t < 1 { 1 } else { t };
    let wait = match cooldown {
        Some(c) => c,
        None => 60,
    };
    let count: i64 = match previous {
        Some(p) => p + 1,
        None => 1,
    };
    let count_u: u64 = if count >= 0 {
        count as u64
    } else {
        u64::MAX - ((-(count + 1)) as u64)
    };
    if count_u >= t {
        let w: i64 = if wait <= 9223372036854775807u64 {
            wait as i64
        } else {
            -((u64::MAX - wait) as i64) - 1
        };
        let retry = match now.checked_add(w) {
            Some(v) => v,
            None => if w > 0 {
                i64::MAX
            } else {
                i64::MIN
            },
        };
        BreakerUpdate { failure_count: count, opened_at: Some(now), retry_at: Some(retry) }
    } else {
        BreakerUpdate { failure_count: count, opened_at: None, retry_at: None }
    }
}

/// A model whose breaker has just opened is not routed to before its retry time, and
/// is routed to again (other conditions holding) from that time on.
pub proof fn law_open_breaker_blocks_until_retry(
    previous: Option<i64>,
    threshold: Option<u64>,
    cooldown: Option<u64>,
    now: i64,
    later: i64,
)
    requires
        breaker_after_failure_spec(previous, threshold, cooldown, now).retry_at is Some,
    ensures
        ({
            let retry = breaker_after_failure_spec(previous, threshold, cooldown, now).retry_at;
            &&& later < retry->Some_0 ==> !route_model_available_spec(true, true, retry, later, true)
            &&& later >= retry->Some_0 ==> route_model_available_spec(true, true, retry, later, true)
        }),
{
}

/// Failures below the threshold leave the breaker closed; the failure that reaches it
/// opens the breaker.
pub proof fn law_breaker_opens_at_threshold(previous: i64, threshold: Option<u64>, cooldown: Option<u64>, now: i64)
    requires
        0 <= previous < i64::MAX,
    ensures
        breaker_after_failure_spec(Some(previous), threshold, cooldown, now).opened_at is Some <==> previous + 1
            >= effective_threshold(threshold),
{
}

/// Every kind reads back from its stored name.
pub proof fn law_limit_kind_round_trip(kind: LimitKind)
    ensures
        limit_kind_of(limit_kind_text(kind)) == Some(kind),
{
    reveal_strlit("calls");
    reveal_strlit("input_tokens");
    reveal_strlit("output_tokens");
    reveal_strlit("total_tokens");
    reveal_strlit("tokens");
    reveal_strlit("credits");
    assert("calls"@.len() == 5);
    assert("tokens"@.len() == 6);
    assert("credits"@.len() == 7);
    assert("input_tokens"@.len() == 12);
    assert("total_tokens"@.len() == 12);
    assert("output_tokens"@.len() == 13);
    assert("input_tokens"@[0] != "total_tokens"@[0]);
    assert("calls"@ != "tokens"@);
    assert("calls"@ != "credits"@);
    assert("calls"@ != "input_tokens"@);
    assert("calls"@ != "output_tokens"@);
    assert("calls"@ != "total_tokens"@);
    assert("input_tokens"@ != "output_tokens"@);
    assert("input_tokens"@ != "total_tokens"@);
    assert("output_tokens"@ != "total_tokens"@);
    assert("input_tokens"@ != "tokens"@);
    assert("output_tokens"@ != "tokens"@);
    assert("total_tokens"@ != "tokens"@);
}


proof fn lemma_no_offset(p: Seq<char>)
    requires
        forall|i: int| 0 <= i < p.len() ==> p[i] != '+',
    ensures
        period_parts(p) == (p, None::<Seq<char>>),
{
}

/// The named periods have their calendar lengths: a second, a minute of 60
/// seconds, an hour of 60 minutes, a day of 24 hours, a week of 7 days and a
/// month of 30 days, the same as the durations "1m", "1h", "1d" and "1w". A
/// named period without an offset counts in windows of its length aligned to
/// the epoch: the window of `now` starts at the latest multiple of that length
/// that is not after `now`.
pub proof fn law_named_periods_have_calendar_lengths(p: Seq<char>, now: int)
    requires
        forall|i: int| 0 <= i < p.len() ==> p[i] != '+',
    ensures
        named_period_seconds("second"@) == Some(1int),
        named_period_seconds("minute"@) == Some(60 * named_period_seconds("second"@)->0),
        named_period_seconds("hour"@) == Some(60 * named_period_seconds("minute"@)->0),
        named_period_seconds("day"@) == Some(24 * named_period_seconds("hour"@)->0),
        named_period_seconds("week"@) == Some(7 * named_period_seconds("day"@)->0),
        named_period_seconds("month"@) == Some(30 * named_period_seconds("day"@)->0),
        unit_seconds('m') == named_period_seconds("minute"@),
        unit_seconds('h') == named_period_seconds("hour"@),
        unit_seconds('d') == named_period_seconds("day"@),
        unit_seconds('w') == named_period_seconds("week"@),
        named_period_seconds(p) matches Some(sec) ==> ({
            let start = window_start(now, 0, sec);
            &&& period_window(p) == Ok::<(int, int), Seq<char>>((0, sec))
            &&& start <= now < start + sec
            &&& start % sec == 0
        }),
{
    reveal_strlit("second");
    reveal_strlit("minute");
    reveal_strlit("hour");
    reveal_strlit("day");
    reveal_strlit("week");
    reveal_strlit("month");
    assert("minute"@[0] != "second"@[0]);
    assert("hour"@[0] != "second"@[0] && "hour"@[0] != "minute"@[0]);
    assert("day"@[0] != "second"@[0] && "day"@[0] != "minute"@[0] && "day"@[0] != "hour"@[0]);
    assert("week"@[0] != "second"@[0] && "week"@[0] != "minute"@[0] && "week"@[0] != "hour"@[0]
        && "week"@[0] != "day"@[0]);
    assert("month"@.len() != "minute"@.len() && "month"@[0] != "second"@[0] && "month"@[0] != "hour"@[0]
        && "month"@[0] != "day"@[0] && "month"@[0] != "week"@[0]);
    lemma_no_offset(p);
    if let Some(sec) = named_period_seconds(p) {
        assert(sec > 0);
        vstd::arithmetic::div_mod::lemma_fundamental_div_mod(now, sec);
        vstd::arithmetic::div_mod::lemma_mod_bound(now, sec);
        let q = now / sec;
        assert(window_start(now, 0, sec) == q * sec) by (nonlinear_arith)
            requires
                now == sec * q + now % sec,
                window_start(now, 0, sec) == now - (now - 0) % sec;
        vstd::arithmetic::div_mod::lemma_mod_multiples_basic(q, sec);
    }
}

} // verus!
