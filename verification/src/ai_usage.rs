//! Reserving AI usage against a model's stored limits: a repeated key
//! reserves nothing; each required amount is checked against what the
//! limit's group has used in the current window; and either every amount is
//! recorded or none is.

use vstd::prelude::*;
use crate::action::{owned, str_eq};
use crate::attempts::StoreError;
use crate::gates::{first_true, lemma_first_true, lemma_first_true_unique};
use crate::limits::{
    invalid_period_message, limit_kind_name, limit_kind_text, period_arith_safe, period_parse_safe, period_start,
    period_window, window_start, ConfigError, LimitKind,
};

verus! {

/// A stored limit of a model: at most `max_value` of `limit_kind` per window
/// of `period_expr`, shared by every model of `group_name`.
#[derive(Debug, Clone, PartialEq, Eq)]
pub struct AiLimit {
    pub model_id: String,
    pub limit_kind: LimitKind,
    pub max_value: u64,
    pub period_expr: String,
    pub group_name: String,
}

/// A stored use of a model.
#[derive(Debug, Clone, PartialEq, Eq)]
pub struct AiUsageRow {
    pub model_id: String,
    pub limit_kind: LimitKind,
    pub amount: u64,
    pub idempotency_key: String,
    pub created_at: i64,
}

/// The start of the window of `period` that holds `now`, or the message for a
/// period that cannot be read.
pub open spec fn period_start_of(now: i64, period: Seq<char>) -> Result<i64, Seq<char>> {
    if period == "total"@ {
        Ok(0)
    } else {
        match period_window(period) {
            Ok((o, sec)) => Ok(window_start(now as int, o, sec) as i64),
            Err(t) => Err(invalid_period_message(t)),
        }
    }
}

/// The limit of `kind` on `model`, by its position.
pub open spec fn limit_index(limits: Seq<AiLimit>, model: Seq<char>, kind: LimitKind) -> Option<int> {
    first_true(limits.map_values(|l: AiLimit| l.model_id@ == model && l.limit_kind == kind))
}

/// What usage row `u` counts against the limit group of `kind`, `group` and
/// `period` from `start` on: its amount once for each limit of its model and
/// kind in that group and period.
pub open spec fn counted(limits: Seq<AiLimit>, u: AiUsageRow, kind: LimitKind, group: Seq<char>, period: Seq<char>, start: i64) -> int
    decreases limits.len(),
{
    if limits.len() == 0 {
        0
    } else {
        let l = limits.last();
        counted(limits.drop_last(), u, kind, group, period, start) + if l.model_id@ == u.model_id@ && l.limit_kind
            == u.limit_kind && l.limit_kind == kind && l.group_name@ == group && l.period_expr@ == period
            && u.created_at >= start {
            u.amount as int
        } else {
            0
        }
    }
}

/// What a limit group has used from `start` on.
pub open spec fn group_used(
    usage: Seq<AiUsageRow>,
    limits: Seq<AiLimit>,
    kind: LimitKind,
    group: Seq<char>,
    period: Seq<char>,
    start: i64,
) -> int
    decreases usage.len(),
{
    if usage.len() == 0 {
        0
    } else {
        group_used(usage.drop_last(), limits, kind, group, period, start) + counted(
            limits,
            usage.last(),
            kind,
            group,
            period,
            start,
        )
    }
}

/// Why requirement `i` cannot be reserved, if it cannot: the period of its
/// limit cannot be read, or what the limit's group used in the current window
/// and the amount together go over a positive limit.
pub open spec fn requirement_refusal(
    usage: Seq<AiUsageRow>,
    limits: Seq<AiLimit>,
    model: Seq<char>,
    req: (LimitKind, u64),
    now: i64,
) -> Option<Result<Seq<char>, Seq<char>>> {
    match limit_index(limits, model, req.0) {
        None => None,
        Some(k) => {
            let l = limits[k];
            if l.max_value == 0 {
                None
            } else {
                match period_start_of(now, l.period_expr@) {
                    Err(m) => Some(Err(m)),
                    Ok(start) => if group_used(usage, limits, req.0, l.group_name@, l.period_expr@, start) + req.1
                        > l.max_value {
                        Some(Ok(
                            "AI quota exceeded for model "@ + model + ", metric "@ + limit_kind_text(req.0),
                        ))
                    } else {
                        None
                    },
                }
            }
        },
    }
}

/// The first requirement at or after `from` that cannot be reserved.
pub open spec fn first_refusal(
    usage: Seq<AiUsageRow>,
    limits: Seq<AiLimit>,
    model: Seq<char>,
    reqs: Seq<(LimitKind, u64)>,
    now: i64,
    from: int,
) -> Option<Result<Seq<char>, Seq<char>>>
    decreases reqs.len() - from,
{
    if from < 0 || from >= reqs.len() {
        None
    } else {
        match requirement_refusal(usage, limits, model, reqs[from], now) {
            Some(e) => Some(e),
            None => first_refusal(usage, limits, model, reqs, now, from + 1),
        }
    }
}

/// Whether `model` already used `key`.
pub open spec fn key_used(usage: Seq<AiUsageRow>, model: Seq<char>, key: Seq<char>) -> bool {
    exists|i: int| 0 <= i < usage.len() && usage[i].model_id@ == model && usage[i].idempotency_key@ == key
}

/// Every limit a requirement consults has a period whose reading neither
/// cuts a character in half nor leaves `i64`.
pub open spec fn periods_readable(limits: Seq<AiLimit>, model: Seq<char>, reqs: Seq<(LimitKind, u64)>, now: i64) -> bool {
    forall|i: int|
        0 <= i < reqs.len() ==> match #[trigger] limit_index(limits, model, reqs[i].0) {
            Some(k) => (limits[k].period_expr@ != "total"@ ==> period_parse_safe(limits[k].period_expr@))
                && period_arith_safe(now as int, limits[k].period_expr@),
            None => true,
        }
}

/// The rows a reservation writes, one per requirement, in order.
pub open spec fn reserved_rows(new_rows: Seq<AiUsageRow>, model: Seq<char>, key: Seq<char>, reqs: Seq<(LimitKind, u64)>, now: i64) -> bool {
    &&& new_rows.len() == reqs.len()
    &&& forall|i: int|
        0 <= i < reqs.len() ==> (#[trigger] new_rows[i]).model_id@ == model && new_rows[i].limit_kind == reqs[i].0
            && new_rows[i].amount == reqs[i].1 && new_rows[i].idempotency_key@ == key && new_rows[i].created_at == now
}

fn find_limit(limits: &Vec<AiLimit>, model: &str, kind: LimitKind) -> (r: Option<usize>)
    ensures
        match r {
            Some(k) => k < limits@.len() && limit_index(limits@, model@, kind) == Some(k as int),
            None => limit_index(limits@, model@, kind) is None,
        },
{
    let ghost flags = limits@.map_values(|l: AiLimit| l.model_id@ == model@ && l.limit_kind == kind);
    let mut k: usize = 0;
    while k < limits.len()
        invariant
            k <= limits@.len(),
            flags == limits@.map_values(|l: AiLimit| l.model_id@ == model@ && l.limit_kind == kind),
            forall|j: int| 0 <= j < k ==> !flags[j],
        decreases limits.len() - k,
    {
        if str_eq(limits[k].model_id.as_str(), model) && limits[k].limit_kind == kind {
            proof {
                lemma_first_true_unique(flags, k as int);
            }
            return Some(k);
        }
        k = k + 1;
    }
    proof {
        lemma_first_true(flags);
    }
    None
}

fn row_counted(limits: &Vec<AiLimit>, u: &AiUsageRow, kind: LimitKind, group: &str, period: &str, start: i64) -> (r: Option<u64>)
    ensures
        match r {
            Some(x) => x == counted(limits@, *u, kind, group@, period@, start),
            None => counted(limits@, *u, kind, group@, period@, start) > u64::MAX,
        },
{
    let mut acc: u64 = 0;
    let mut over = false;
    let mut k: usize = 0;
    while k < limits.len()
        invariant
            k <= limits@.len(),
            over ==> counted(limits@.take(k as int), *u, kind, group@, period@, start) > u64::MAX,
            !over ==> acc == counted(limits@.take(k as int), *u, kind, group@, period@, start),
        decreases limits.len() - k,
    {
        proof {
            assert(limits@.take(k + 1).drop_last() =~= limits@.take(k as int));
        }
        let l = &limits[k];
        if str_eq(l.model_id.as_str(), u.model_id.as_str()) && l.limit_kind == u.limit_kind && l.limit_kind == kind
            && str_eq(l.group_name.as_str(), group) && str_eq(l.period_expr.as_str(), period) && u.created_at >= start {
            match acc.checked_add(u.amount) {
                Some(x) => {
                    if !over {
                        acc = x;
                    }
                },
                None => {
                    over = true;
                },
            }
        }
        k = k + 1;
    }
    assert(limits@.take(limits@.len() as int) =~= limits@);
    if over {
        None
    } else {
        Some(acc)
    }
}

fn used_total(usage: &Vec<AiUsageRow>, limits: &Vec<AiLimit>, kind: LimitKind, group: &str, period: &str, start: i64) -> (r: Option<u64>)
    ensures
        match r {
            Some(x) => x == group_used(usage@, limits@, kind, group@, period@, start),
            None => group_used(usage@, limits@, kind, group@, period@, start) > u64::MAX,
        },
{
    let mut acc: u64 = 0;
    let mut over = false;
    let mut i: usize = 0;
    while i < usage.len()
        invariant
            i <= usage@.len(),
            over ==> group_used(usage@.take(i as int), limits@, kind, group@, period@, start) > u64::MAX,
            !over ==> acc == group_used(usage@.take(i as int), limits@, kind, group@, period@, start),
        decreases usage.len() - i,
    {
        proof {
            assert(usage@.take(i + 1).drop_last() =~= usage@.take(i as int));
            lemma_counted_nonnegative(limits@, usage@[i as int], kind, group@, period@, start);
        }
        match row_counted(limits, &usage[i], kind, group, period, start) {
            Some(c) => match acc.checked_add(c) {
                Some(x) => {
                    if !over {
                        acc = x;
                    }
                },
                None => {
                    over = true;
                },
            },
            None => {
                over = true;
            },
        }
        i = i + 1;
    }
    assert(usage@.take(usage@.len() as int) =~= usage@);
    if over {
        None
    } else {
        Some(acc)
    }
}

proof fn lemma_counted_nonnegative(limits: Seq<AiLimit>, u: AiUsageRow, kind: LimitKind, group: Seq<char>, period: Seq<char>, start: i64)
    ensures
        counted(limits, u, kind, group, period, start) >= 0,
    decreases limits.len(),
{
    if limits.len() > 0 {
        lemma_counted_nonnegative(limits.drop_last(), u, kind, group, period, start);
    }
}

/// Reserves `requirements` for `model_id` under `idempotency_key` at `now`.
/// A key the model already used reserves nothing and gives `false`. Otherwise
/// each requirement is checked in order against its limit (a limit of 0 has
/// no bound): the first whose period cannot be read or whose group has no
/// room left refuses the whole reservation and nothing is written; when every
/// one fits, a row is written for each and the result is `true`.
pub fn reserve_ai_usage(
    usage: &mut Vec<AiUsageRow>,
    limits: &Vec<AiLimit>,
    model_id: &str,
    idempotency_key: &str,
    requirements: &[(LimitKind, u64)],
    now: i64,
) -> (r: Result<bool, StoreError>)
    requires
        periods_readable(limits@, model_id@, requirements@, now),
    ensures
        key_used(old(usage)@, model_id@, idempotency_key@) ==> (r == Ok::<bool, StoreError>(false)
            && final(usage)@ == old(usage)@),
        !key_used(old(usage)@, model_id@, idempotency_key@) ==> match first_refusal(
            old(usage)@,
            limits@,
            model_id@,
            requirements@,
            now,
            0,
        ) {
            Some(Err(m)) => r matches Err(StoreError::InvalidData(x)) && x@ == m
                && final(usage)@ == old(usage)@,
            Some(Ok(m)) => r matches Err(StoreError::Conflict(x)) && x@ == m && final(usage)@ == old(usage)@,
            None => r == Ok::<bool, StoreError>(true) && final(usage)@.take(old(usage)@.len() as int)
                == old(usage)@ && reserved_rows(
                final(usage)@.skip(old(usage)@.len() as int),
                model_id@,
                idempotency_key@,
                requirements@,
                now,
            ),
        },
{
    let mut i: usize = 0;
    while i < usage.len()
        invariant
            i <= usage@.len(),
            usage@ == old(usage)@,
            forall|j: int| 0 <= j < i ==> !(usage@[j].model_id@ == model_id@ && usage@[j].idempotency_key@ == idempotency_key@),
        decreases usage.len() - i,
    {
        if str_eq(usage[i].model_id.as_str(), model_id) && str_eq(usage[i].idempotency_key.as_str(), idempotency_key) {
            return Ok(false);
        }
        i = i + 1;
    }
    let mut n: usize = 0;
    while n < requirements.len()
        invariant
            n <= requirements@.len(),
            usage@ == old(usage)@,
            !key_used(old(usage)@, model_id@, idempotency_key@),
            periods_readable(limits@, model_id@, requirements@, now),
            first_refusal(usage@, limits@, model_id@, requirements@, now, 0) == first_refusal(
                usage@,
                limits@,
                model_id@,
                requirements@,
                now,
                n as int,
            ),
        decreases requirements.len() - n,
    {
        let (kind, amount) = requirements[n];
        proof {
            assert(requirements@[n as int] == (kind, amount));
        }
        if let Some(k) = find_limit(limits, model_id, kind) {
            let l = &limits[k];
            if l.max_value > 0 {
                proof {
                    assert(match limit_index(limits@, model_id@, requirements@[n as int].0) {
                        Some(k) => (limits@[k].period_expr@ != "total"@ ==> period_parse_safe(limits@[k].period_expr@))
                            && period_arith_safe(now as int, limits@[k].period_expr@),
                        None => true,
                    });
                }
                let start = match period_start(now, l.period_expr.as_str()) {
                    Ok(s) => s,
                    Err(ConfigError::InvalidData(m)) => {
                        return Err(StoreError::InvalidData(m));
                    },
                };
                let exceeded = match used_total(usage, limits, kind, l.group_name.as_str(), l.period_expr.as_str(), start) {
                    Some(used) => match used.checked_add(amount) {
                        Some(t) => t > l.max_value,
                        None => true,
                    },
                    None => true,
                };
                if exceeded {
                    let mut m = owned("AI quota exceeded for model ");
                    m.append(model_id);
                    m.append(", metric ");
                    m.append(limit_kind_name(&kind));
                    return Err(StoreError::Conflict(m));
                }
            }
        }
        n = n + 1;
    }
    let ghost before = usage@;
    let mut j: usize = 0;
    while j < requirements.len()
        invariant
            j <= requirements@.len(),
            usage@.len() == before.len() + j,
            usage@.take(before.len() as int) == before,
            reserved_rows(usage@.skip(before.len() as int), model_id@, idempotency_key@, requirements@.take(j as int), now),
        decreases requirements.len() - j,
    {
        let (kind, amount) = requirements[j];
        let ghost prev = usage@;
        usage.push(
            AiUsageRow {
                model_id: owned(model_id),
                limit_kind: kind,
                amount,
                idempotency_key: owned(idempotency_key),
                created_at: now,
            },
        );
        proof {
            assert(usage@.take(before.len() as int) =~= prev.take(before.len() as int));
            assert forall|x: int| 0 <= x < j + 1 implies #[trigger] usage@.skip(before.len() as int)[x] == (if x < j {
                prev.skip(before.len() as int)[x]
            } else {
                usage@[usage@.len() - 1]
            }) by {}
            assert(requirements@.take(j + 1)[j as int] == requirements@[j as int]);
        }
        j = j + 1;
    }
    assert(requirements@.take(requirements@.len() as int) =~= requirements@);
    Ok(true)
}

} // verus!
