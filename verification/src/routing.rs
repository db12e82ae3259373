//! Route selection between provider accounts: sticky bindings per scope,
//! failover away from failed accounts, and atomic, idempotent quota reservation.

use vstd::prelude::*;
use crate::assoc::{assoc_map, has_key, keys_unique, lemma_assoc_lookup, lemma_assoc_push, lemma_assoc_update};

verus! {

/// What a route must be able to do.
#[derive(Debug, Clone, Copy, PartialEq, Eq, Hash, Structural)]
pub enum Capability {
    TextReasoning,
    TextStructuredOutput,
    VisionAnalysis,
    ImageTextToImage,
    ImageImageToImage,
    ImageReferenceConsistency,
}

/// A provider account that may serve requests with one model.
#[derive(Debug, Clone, PartialEq, Eq)]
pub struct RouteCandidate {
    pub account_id: String,
    pub provider: String,
    pub model: String,
    pub capabilities: Vec<Capability>,
    pub available: bool,
}

pub struct RouteCandidateView {
    pub account_id: Seq<char>,
    pub provider: Seq<char>,
    pub model: Seq<char>,
    pub capabilities: Seq<Capability>,
    pub available: bool,
}

impl View for RouteCandidate {
    type V = RouteCandidateView;

    open spec fn view(&self) -> RouteCandidateView {
        RouteCandidateView {
            account_id: self.account_id@,
            provider: self.provider@,
            model: self.model@,
            capabilities: self.capabilities@,
            available: self.available,
        }
    }
}

/// The account, provider and model chosen for a scope.
#[derive(Debug, Clone, PartialEq, Eq)]
pub struct RouteDecision {
    pub account_id: String,
    pub provider: String,
    pub model: String,
}

pub struct RouteDecisionView {
    pub account_id: Seq<char>,
    pub provider: Seq<char>,
    pub model: Seq<char>,
}

impl View for RouteDecision {
    type V = RouteDecisionView;

    open spec fn view(&self) -> RouteDecisionView {
        RouteDecisionView { account_id: self.account_id@, provider: self.provider@, model: self.model@ }
    }
}

impl RouteDecision {
    /// A copy of this decision.
    pub fn duplicate(&self) -> (r: RouteDecision)
        ensures
            r@ == self@,
    {
        RouteDecision {
            account_id: self.account_id.clone(),
            provider: self.provider.clone(),
            model: self.model.clone(),
        }
    }
}

/// An amount of one quota metric that a request consumes.
#[derive(Debug, Clone, PartialEq, Eq)]
pub struct QuotaRequirement {
    pub metric: String,
    pub amount: u64,
}

pub struct QuotaRequirementView {
    pub metric: Seq<char>,
    pub amount: u64,
}

impl View for QuotaRequirement {
    type V = QuotaRequirementView;

    open spec fn view(&self) -> QuotaRequirementView {
        QuotaRequirementView { metric: self.metric@, amount: self.amount }
    }
}

/// A change of routing state, to be recorded by the caller.
#[derive(Debug, Clone, PartialEq, Eq)]
pub enum RouteEvent {
    Selected { scope: String, decision: RouteDecision },
    Switched { scope: String, decision: RouteDecision },
    UsageUpdated { account_id: String, metric: String, amount: u64 },
}

pub enum RouteEventView {
    Selected { scope: Seq<char>, decision: RouteDecisionView },
    Switched { scope: Seq<char>, decision: RouteDecisionView },
    UsageUpdated { account_id: Seq<char>, metric: Seq<char>, amount: u64 },
}

impl View for RouteEvent {
    type V = RouteEventView;

    open spec fn view(&self) -> RouteEventView {
        match self {
            RouteEvent::Selected { scope, decision } => RouteEventView::Selected {
                scope: scope@,
                decision: decision@,
            },
            RouteEvent::Switched { scope, decision } => RouteEventView::Switched {
                scope: scope@,
                decision: decision@,
            },
            RouteEvent::UsageUpdated { account_id, metric, amount } => RouteEventView::UsageUpdated {
                account_id: account_id@,
                metric: metric@,
                amount: *amount,
            },
        }
    }
}

/// Why a route could not be selected or reserved.
#[derive(Debug, Clone, PartialEq, Eq)]
pub enum RouteError {
    CapabilityUnavailable,
    StateUnavailable,
    QuotaExceeded { account_id: String, metric: String },
}

pub enum RouteErrorView {
    CapabilityUnavailable,
    StateUnavailable,
    QuotaExceeded { account_id: Seq<char>, metric: Seq<char> },
}

impl View for RouteError {
    type V = RouteErrorView;

    open spec fn view(&self) -> RouteErrorView {
        match self {
            RouteError::CapabilityUnavailable => RouteErrorView::CapabilityUnavailable,
            RouteError::StateUnavailable => RouteErrorView::StateUnavailable,
            RouteError::QuotaExceeded { account_id, metric } => RouteErrorView::QuotaExceeded {
                account_id: account_id@,
                metric: metric@,
            },
        }
    }
}

/// The message of a route error.
pub open spec fn route_error_text(e: RouteErrorView) -> Seq<char> {
    match e {
        RouteErrorView::CapabilityUnavailable => "no provider supports the requested capability"@,
        RouteErrorView::StateUnavailable => "route state is unavailable"@,
        RouteErrorView::QuotaExceeded { account_id, metric } => "quota is insufficient for account "@
            + account_id + " metric "@ + metric,
    }
}

impl RouteError {
    /// The message that describes this error.
    pub fn message(&self) -> (r: String)
        ensures
            r@ == route_error_text(self@),
    {
        match self {
            RouteError::CapabilityUnavailable => "no provider supports the requested capability".to_owned(),
            RouteError::StateUnavailable => "route state is unavailable".to_owned(),
            RouteError::QuotaExceeded { account_id, metric } => {
                let mut s = "quota is insufficient for account ".to_owned();
                s.append(account_id.as_str());
                s.append(" metric ");
                s.append(metric.as_str());
                s
            },
        }
    }
}

/// How a request on a route failed.
#[derive(Debug, Clone, Copy, PartialEq, Eq, Structural)]
pub enum RouteFailureKind {
    Retryable,
    ContextTooLarge,
    CapabilityUnavailable,
    InvalidRequest,
    Fatal,
}

/// How a request on a route ended.
#[derive(Debug, Clone, Copy, PartialEq, Eq, Structural)]
pub enum RouteOutcome {
    Succeeded,
    Failed(RouteFailureKind),
}

/// How many candidates can currently serve a capability.
#[derive(Debug, Clone, PartialEq, Eq)]
pub struct RouteHealth {
    pub capability: Capability,
    pub available_candidates: usize,
}

/// The abstract state of a selector.
pub struct RouteSelectorView {
    pub candidates: Seq<RouteCandidateView>,
    pub bindings: Map<Seq<char>, RouteDecisionView>,
    pub unavailable: Set<Seq<char>>,
    pub quota: Map<(Seq<char>, Seq<char>), u64>,
    pub usage: Set<(Seq<char>, Seq<char>)>,
}

/// Chooses routes among candidates, keeping per-scope bindings, the accounts
/// reported as failed, the remaining quota per account and metric, and the
/// reservations already made.
#[derive(Debug)]
pub struct RouteSelector {
    candidates: Vec<RouteCandidate>,
    bindings: Vec<(String, RouteDecision)>,
    unavailable_accounts: Vec<String>,
    remaining_quota: Vec<(String, String, u64)>,
    usage_keys: Vec<(String, String)>,
}

// ---------------------------------------------------------------------------
// Specification
// ---------------------------------------------------------------------------

/// A candidate can serve `cap` and its account has not failed.
pub open spec fn usable(c: RouteCandidateView, cap: Capability, unavailable: Set<Seq<char>>) -> bool {
    c.available && !unavailable.contains(c.account_id) && c.capabilities.contains(cap)
}

/// A candidate serves the same provider and model as a decision, when one is given.
pub open spec fn same_model_as(c: RouteCandidateView, like: Option<RouteDecisionView>) -> bool {
    match like {
        Some(d) => c.provider == d.provider && c.model == d.model,
        None => true,
    }
}

/// The first usable candidate at or after `from` (with the model of `like`, if given).
pub open spec fn first_usable(
    cands: Seq<RouteCandidateView>,
    cap: Capability,
    unavailable: Set<Seq<char>>,
    like: Option<RouteDecisionView>,
    from: int,
) -> Option<int>
    decreases cands.len() - from,
{
    if from < 0 || from >= cands.len() {
        None
    } else if usable(cands[from], cap, unavailable) && same_model_as(cands[from], like) {
        Some(from)
    } else {
        first_usable(cands, cap, unavailable, like, from + 1)
    }
}

/// The number of candidates in `cands` that can serve `cap`.
pub open spec fn usable_count(cands: Seq<RouteCandidateView>, cap: Capability, unavailable: Set<Seq<char>>) -> nat
    decreases cands.len(),
{
    if cands.len() == 0 {
        0
    } else {
        usable_count(cands.drop_last(), cap, unavailable)
            + if usable(cands.last(), cap, unavailable) { 1nat } else { 0nat }
    }
}

pub open spec fn decision_of(c: RouteCandidateView) -> RouteDecisionView {
    RouteDecisionView { account_id: c.account_id, provider: c.provider, model: c.model }
}

/// The binding of `scope` exists and its account still has a usable candidate.
pub open spec fn bound_route_usable(v: RouteSelectorView, cap: Capability, scope: Seq<char>) -> bool {
    &&& v.bindings.contains_key(scope)
    &&& exists|i: int|
        0 <= i < v.candidates.len() && #[trigger] usable(v.candidates[i], cap, v.unavailable)
            && v.candidates[i].account_id == v.bindings[scope].account_id
}

/// The candidate that a selection falls back to when the binding cannot be kept:
/// first one with the bound provider and model, else the first usable one.
pub open spec fn fallback_index(v: RouteSelectorView, cap: Capability, scope: Seq<char>) -> Option<int> {
    let like = if v.bindings.contains_key(scope) {
        first_usable(v.candidates, cap, v.unavailable, Some(v.bindings[scope]), 0)
    } else {
        None
    };
    if like is Some {
        like
    } else {
        first_usable(v.candidates, cap, v.unavailable, None, 0)
    }
}

/// What `select` returns and leaves behind.
pub open spec fn spec_select(v: RouteSelectorView, cap: Capability, scope: Seq<char>) -> Result<
    (RouteDecisionView, RouteEventView, RouteSelectorView),
    RouteErrorView,
> {
    if bound_route_usable(v, cap, scope) {
        let d = v.bindings[scope];
        Ok((d, RouteEventView::Selected { scope, decision: d }, v))
    } else {
        match fallback_index(v, cap, scope) {
            None => Err(RouteErrorView::CapabilityUnavailable),
            Some(i) => {
                let d = decision_of(v.candidates[i]);
                let e = if v.bindings.contains_key(scope) {
                    RouteEventView::Switched { scope, decision: d }
                } else {
                    RouteEventView::Selected { scope, decision: d }
                };
                Ok((d, e, RouteSelectorView { bindings: v.bindings.insert(scope, d), ..v }))
            },
        }
    }
}

/// The outcomes after which an account is no longer used.
pub open spec fn outcome_disables(outcome: RouteOutcome) -> bool {
    match outcome {
        RouteOutcome::Failed(RouteFailureKind::Retryable) => true,
        RouteOutcome::Failed(RouteFailureKind::CapabilityUnavailable) => true,
        RouteOutcome::Failed(RouteFailureKind::Fatal) => true,
        _ => false,
    }
}

/// The total amount that requirements ask of `metric`.
pub open spec fn metric_total(reqs: Seq<QuotaRequirementView>, metric: Seq<char>) -> int
    decreases reqs.len(),
{
    if reqs.len() == 0 {
        0
    } else {
        metric_total(reqs.drop_last(), metric) + if reqs.last().metric == metric {
            reqs.last().amount as int
        } else {
            0
        }
    }
}

/// Requirement `i` does not fit: its metric has a known remaining quota that
/// is below what this requirement and the earlier ones on the same metric
/// ask together.
pub open spec fn short_at(
    quota: Map<(Seq<char>, Seq<char>), u64>,
    account: Seq<char>,
    reqs: Seq<QuotaRequirementView>,
    i: int,
) -> bool {
    quota.contains_key((account, reqs[i].metric)) && metric_total(reqs.take(i + 1), reqs[i].metric)
        > quota[(account, reqs[i].metric)]
}

/// The first requirement, at or after `from`, that does not fit.
pub open spec fn exceeded_index(
    quota: Map<(Seq<char>, Seq<char>), u64>,
    account: Seq<char>,
    reqs: Seq<QuotaRequirementView>,
    from: int,
) -> Option<int>
    decreases reqs.len() - from,
{
    if from < 0 || from >= reqs.len() {
        None
    } else if short_at(quota, account, reqs, from) {
        Some(from)
    } else {
        exceeded_index(quota, account, reqs, from + 1)
    }
}

/// The quota after subtracting each requirement, in order, from the metrics that have a quota.
pub open spec fn apply_reservations(
    quota: Map<(Seq<char>, Seq<char>), u64>,
    account: Seq<char>,
    reqs: Seq<QuotaRequirementView>,
) -> Map<(Seq<char>, Seq<char>), u64>
    decreases reqs.len(),
{
    if reqs.len() == 0 {
        quota
    } else {
        let prev = apply_reservations(quota, account, reqs.drop_last());
        let key = (account, reqs.last().metric);
        if prev.contains_key(key) {
            prev.insert(key, (prev[key] - reqs.last().amount) as u64)
        } else {
            prev
        }
    }
}

/// Subtracting the requirements in order never takes a quota below zero.
pub open spec fn reservations_fit(
    quota: Map<(Seq<char>, Seq<char>), u64>,
    account: Seq<char>,
    reqs: Seq<QuotaRequirementView>,
) -> bool
    decreases reqs.len(),
{
    if reqs.len() == 0 {
        true
    } else {
        let prev = apply_reservations(quota, account, reqs.drop_last());
        let key = (account, reqs.last().metric);
        reservations_fit(quota, account, reqs.drop_last()) && (prev.contains_key(key) ==> prev[key]
            >= reqs.last().amount)
    }
}

pub open spec fn usage_event(account: Seq<char>, r: QuotaRequirementView) -> RouteEventView {
    RouteEventView::UsageUpdated { account_id: account, metric: r.metric, amount: r.amount }
}

pub open spec fn usage_events(account: Seq<char>, reqs: Seq<QuotaRequirementView>) -> Seq<RouteEventView> {
    reqs.map_values(|r: QuotaRequirementView| usage_event(account, r))
}

/// What `reserve_usage` returns and leaves behind.
pub open spec fn spec_reserve(
    v: RouteSelectorView,
    account: Seq<char>,
    key: Seq<char>,
    reqs: Seq<QuotaRequirementView>,
) -> Result<(Seq<RouteEventView>, RouteSelectorView), RouteErrorView> {
    if v.usage.contains((account, key)) {
        Ok((Seq::empty(), v))
    } else {
        match exceeded_index(v.quota, account, reqs, 0) {
            Some(i) => Err(RouteErrorView::QuotaExceeded { account_id: account, metric: reqs[i].metric }),
            None => Ok((
                usage_events(account, reqs),
                RouteSelectorView {
                    quota: apply_reservations(v.quota, account, reqs),
                    usage: v.usage.insert((account, key)),
                    ..v
                },
            )),
        }
    }
}

pub open spec fn candidate_views(s: Seq<RouteCandidate>) -> Seq<RouteCandidateView> {
    s.map_values(|c: RouteCandidate| c@)
}

pub open spec fn requirement_views(s: Seq<QuotaRequirement>) -> Seq<QuotaRequirementView> {
    s.map_values(|q: QuotaRequirement| q@)
}

pub open spec fn event_views(s: Seq<RouteEvent>) -> Seq<RouteEventView> {
    s.map_values(|e: RouteEvent| e@)
}

/// A prefix of requirements that fits as a whole fits too.
pub proof fn lemma_fits_prefix(
    quota: Map<(Seq<char>, Seq<char>), u64>,
    account: Seq<char>,
    reqs: Seq<QuotaRequirementView>,
    k: int,
)
    requires
        reservations_fit(quota, account, reqs) || exceeded_index(quota, account, reqs, 0) is None,
        0 <= k <= reqs.len(),
    ensures
        reservations_fit(quota, account, reqs) ==> reservations_fit(quota, account, reqs.take(k)),
    decreases reqs.len(),
{
    if reservations_fit(quota, account, reqs) {
        if k == reqs.len() {
            assert(reqs.take(k) =~= reqs);
        } else {
            assert(reqs.drop_last().take(k) =~= reqs.take(k));
            lemma_fits_prefix(quota, account, reqs.drop_last(), k);
        }
    }
}

proof fn lemma_exceeded_none(
    quota: Map<(Seq<char>, Seq<char>), u64>,
    account: Seq<char>,
    reqs: Seq<QuotaRequirementView>,
    from: int,
)
    requires
        0 <= from <= reqs.len(),
    ensures
        exceeded_index(quota, account, reqs, from) is None <==> forall|i: int|
            from <= i < reqs.len() ==> !short_at(quota, account, reqs, i),
    decreases reqs.len() - from,
{
    if from < reqs.len() {
        lemma_exceeded_none(quota, account, reqs, from + 1);
    }
}

proof fn lemma_applied_quota(
    quota: Map<(Seq<char>, Seq<char>), u64>,
    account: Seq<char>,
    reqs: Seq<QuotaRequirementView>,
    metric: Seq<char>,
)
    requires
        reservations_fit(quota, account, reqs),
    ensures
        apply_reservations(quota, account, reqs).contains_key((account, metric)) == quota.contains_key((account, metric)),
        quota.contains_key((account, metric)) ==> apply_reservations(quota, account, reqs)[(account, metric)]
            == quota[(account, metric)] - metric_total(reqs, metric),
    decreases reqs.len(),
{
    if reqs.len() > 0 {
        lemma_applied_quota(quota, account, reqs.drop_last(), metric);
    }
}

proof fn lemma_no_shortfall_fits(
    quota: Map<(Seq<char>, Seq<char>), u64>,
    account: Seq<char>,
    reqs: Seq<QuotaRequirementView>,
)
    requires
        exceeded_index(quota, account, reqs, 0) is None,
    ensures
        reservations_fit(quota, account, reqs),
    decreases reqs.len(),
{
    if reqs.len() > 0 {
        let d = reqs.drop_last();
        let n = reqs.len() - 1;
        lemma_exceeded_none(quota, account, reqs, 0);
        assert forall|i: int| 0 <= i < d.len() implies !short_at(quota, account, d, i) by {
            assert(d.take(i + 1) =~= reqs.take(i + 1));
            assert(!short_at(quota, account, reqs, i));
        }
        lemma_exceeded_none(quota, account, d, 0);
        lemma_no_shortfall_fits(quota, account, d);
        lemma_applied_quota(quota, account, d, reqs.last().metric);
        assert(reqs.take(n + 1) =~= reqs);
        assert(!short_at(quota, account, reqs, n));
    }
}

/// Whether requirement `i` and the earlier ones on its metric ask together
/// more than `limit`.
fn total_exceeds(requirements: &[QuotaRequirement], i: usize, limit: u64) -> (r: bool)
    requires
        i < requirements@.len(),
    ensures
        r == (metric_total(requirement_views(requirements@).take(i + 1), requirements@[i as int]@.metric) > limit),
{
    let ghost reqs = requirement_views(requirements@);
    let ghost m = requirements@[i as int]@.metric;
    let mut acc: u64 = 0;
    let mut over = false;
    let mut j: usize = 0;
    while j <= i
        invariant
            j <= i + 1,
            i < requirements@.len(),
            reqs == requirement_views(requirements@),
            m == requirements@[i as int]@.metric,
            over ==> metric_total(reqs.take(j as int), m) > u64::MAX,
            !over ==> acc == metric_total(reqs.take(j as int), m),
        decreases i + 1 - j,
    {
        proof {
            assert(reqs.take(j + 1).drop_last() =~= reqs.take(j as int));
            assert(reqs.take(j + 1).last() == requirements@[j as int]@);
        }
        if crate::action::str_eq(requirements[j].metric.as_str(), requirements[i].metric.as_str()) {
            match acc.checked_add(requirements[j].amount) {
                Some(x) => {
                    if !over {
                        acc = x;
                    }
                },
                None => {
                    over = true;
                },
            }
        }
        j = j + 1;
    }
    over || acc > limit
}

impl RouteSelector {
    pub closed spec fn binding_entries(&self) -> Seq<(Seq<char>, RouteDecisionView)> {
        self.bindings@.map_values(|p: (String, RouteDecision)| (p.0@, p.1@))
    }

    pub closed spec fn quota_entries(&self) -> Seq<((Seq<char>, Seq<char>), u64)> {
        self.remaining_quota@.map_values(|q: (String, String, u64)| ((q.0@, q.1@), q.2))
    }

    pub closed spec fn unavailable_set(&self) -> Set<Seq<char>> {
        Set::new(|a: Seq<char>| exists|i: int| 0 <= i < self.unavailable_accounts.len() && #[trigger] self.unavailable_accounts@[i]@ == a)
    }

    pub closed spec fn usage_set(&self) -> Set<(Seq<char>, Seq<char>)> {
        Set::new(|k: (Seq<char>, Seq<char>)| exists|i: int| 0 <= i < self.usage_keys.len() && #[trigger] self.usage_keys@[i].0@ == k.0 && self.usage_keys@[i].1@ == k.1)
    }

    /// The selector's internal tables have no repeated keys.
    pub closed spec fn wf(&self) -> bool {
        &&& keys_unique(self.binding_entries())
        &&& keys_unique(self.quota_entries())
    }
}

impl View for RouteSelector {
    type V = RouteSelectorView;

    closed spec fn view(&self) -> RouteSelectorView {
        RouteSelectorView {
            candidates: candidate_views(self.candidates@),
            bindings: assoc_map(self.binding_entries()),
            unavailable: self.unavailable_set(),
            quota: assoc_map(self.quota_entries()),
            usage: self.usage_set(),
        }
    }
}


fn has_capability(caps: &Vec<Capability>, cap: Capability) -> (r: bool)
    ensures
        r == caps@.contains(cap),
{
    for i in 0..caps.len()
        invariant
            forall|j: int| 0 <= j < i ==> caps@[j] != cap,
    {
        if caps[i] == cap {
            assert(caps@[i as int] == cap);
            return true;
        }
    }
    false
}

impl RouteSelector {
    /// A selector over `candidates`, with no bindings, failures, quotas or reservations.
    pub fn new(candidates: Vec<RouteCandidate>) -> (r: Self)
        ensures
            r.wf(),
            r@.candidates == candidate_views(candidates@),
            r@.bindings == Map::<Seq<char>, RouteDecisionView>::empty(),
            r@.unavailable == Set::<Seq<char>>::empty(),
            r@.quota == Map::<(Seq<char>, Seq<char>), u64>::empty(),
            r@.usage == Set::<(Seq<char>, Seq<char>)>::empty(),
    {
        let r = RouteSelector {
            candidates,
            bindings: Vec::new(),
            unavailable_accounts: Vec::new(),
            remaining_quota: Vec::new(),
            usage_keys: Vec::new(),
        };
        assert(r@.bindings =~= Map::<Seq<char>, RouteDecisionView>::empty());
        assert(r@.unavailable =~= Set::<Seq<char>>::empty());
        assert(r@.quota =~= Map::<(Seq<char>, Seq<char>), u64>::empty());
        assert(r@.usage =~= Set::<(Seq<char>, Seq<char>)>::empty());
        r
    }

    /// The candidates this selector chooses among, in order.
    pub fn candidates(&self) -> (r: &[RouteCandidate])
        ensures
            candidate_views(r@) == self@.candidates,
    {
        self.candidates.as_slice()
    }

    fn is_unavailable(&self, account: &String) -> (r: bool)
        ensures
            r == self@.unavailable.contains(account@),
    {
        for i in 0..self.unavailable_accounts.len()
            invariant
                forall|j: int| 0 <= j < i ==> self.unavailable_accounts@[j]@ != account@,
        {
            if self.unavailable_accounts[i] == *account {
                assert(self.unavailable_set().contains(account@));
                return true;
            }
        }
        false
    }

    fn candidate_usable(&self, i: usize, cap: Capability) -> (r: bool)
        requires
            i < self.candidates.len(),
        ensures
            r == usable(self@.candidates[i as int], cap, self@.unavailable),
    {
        let c = &self.candidates[i];
        c.available && !self.is_unavailable(&c.account_id) && has_capability(&c.capabilities, cap)
    }

    fn find_binding(&self, scope: &String) -> (r: Option<usize>)
        requires
            self.wf(),
        ensures
            match r {
                Some(i) => i < self.bindings.len() && self.bindings@[i as int].0@ == scope@
                    && self@.bindings.contains_key(scope@)
                    && self@.bindings[scope@] == self.bindings@[i as int].1@,
                None => !self@.bindings.contains_key(scope@),
            },
    {
        let ghost entries = self.binding_entries();
        for i in 0..self.bindings.len()
            invariant
                entries == self.binding_entries(),
                entries.len() == self.bindings.len(),
                keys_unique(entries),
                forall|j: int| 0 <= j < i ==> #[trigger] entries[j].0 != scope@,
        {
            if self.bindings[i].0 == *scope {
                proof {
                    lemma_assoc_lookup(entries, i as int);
                }
                return Some(i);
            }
        }
        proof {
            if has_key(entries, scope@) {
                let j = choose|j: int| 0 <= j < entries.len() && #[trigger] entries[j].0 == scope@;
                assert(entries[j].0 != scope@);
            }
        }
        None
    }

    /// The decision bound to `scope`, if any.
    pub fn current_binding(&self, scope: &str) -> (r: Result<Option<RouteDecision>, RouteError>)
        requires
            self.wf(),
        ensures
            match r {
                Ok(Some(d)) => self@.bindings.contains_key(scope@) && d@ == self@.bindings[scope@],
                Ok(None) => !self@.bindings.contains_key(scope@),
                Err(_) => false,
            },
    {
        let scope = scope.to_owned();
        match self.find_binding(&scope) {
            Some(i) => Ok(Some(self.bindings[i].1.duplicate())),
            None => Ok(None),
        }
    }

    /// Binds `scope` to `decision` unless it is bound already.
    pub fn restore_binding(&mut self, scope: String, decision: RouteDecision) -> (r: Result<(), RouteError>)
        requires
            old(self).wf(),
        ensures
            final(self).wf(),
            r is Ok,
            final(self)@ == (RouteSelectorView {
                bindings: if old(self)@.bindings.contains_key(scope@) {
                    old(self)@.bindings
                } else {
                    old(self)@.bindings.insert(scope@, decision@)
                },
                ..old(self)@
            }),
    {
        if self.find_binding(&scope).is_none() {
            proof {
                lemma_assoc_push(self.binding_entries(), scope@, decision@);
            }
            let ghost old_entries = self.binding_entries();
            self.bindings.push((scope, decision));
            assert(self.binding_entries() =~= old_entries.push((scope@, decision@)));
        }
        Ok(())
    }

    fn account_usable(&self, account: &String, cap: Capability) -> (r: bool)
        ensures
            r == exists|i: int|
                0 <= i < self@.candidates.len() && #[trigger] usable(self@.candidates[i], cap, self@.unavailable)
                    && self@.candidates[i].account_id == account@,
    {
        for i in 0..self.candidates.len()
            invariant
                forall|j: int|
                    0 <= j < i ==> !(#[trigger] usable(self@.candidates[j], cap, self@.unavailable)
                        && self@.candidates[j].account_id == account@),
        {
            if self.candidate_usable(i, cap) && self.candidates[i].account_id == *account {
                return true;
            }
        }
        false
    }

    fn find_usable(&self, cap: Capability, like: Option<usize>) -> (r: Option<usize>)
        requires
            like matches Some(b) ==> b < self.bindings.len(),
        ensures
            ({
                let l = match like {
                    Some(b) => Some(self.bindings@[b as int].1@),
                    None => None,
                };
                match r {
                    Some(i) => i < self.candidates.len() && first_usable(self@.candidates, cap, self@.unavailable, l, 0)
                        == Some(i as int),
                    None => first_usable(self@.candidates, cap, self@.unavailable, l, 0) is None,
                }
            }),
    {
        let ghost l = match like {
            Some(b) => Some(self.bindings@[b as int].1@),
            None => None,
        };
        let ghost cands = self@.candidates;
        for i in 0..self.candidates.len()
            invariant
                cands == self@.candidates,
                cands.len() == self.candidates.len(),
                like matches Some(b) ==> b < self.bindings.len(),
                l == match like {
                    Some(b) => Some(self.bindings@[b as int].1@),
                    None => None,
                },
                first_usable(cands, cap, self@.unavailable, l, 0) == first_usable(
                    cands,
                    cap,
                    self@.unavailable,
                    l,
                    i as int,
                ),
        {
            let same = match like {
                Some(b) => {
                    let d = &self.bindings[b].1;
                    self.candidates[i].provider == d.provider && self.candidates[i].model == d.model
                },
                None => true,
            };
            if same && self.candidate_usable(i, cap) {
                return Some(i);
            }
        }
        None
    }

    /// Chooses a route for `capability` within `binding_scope`.
    ///
    /// A binding whose account still has a usable candidate is kept. Otherwise the
    /// first usable candidate with the bound provider and model is taken, else the
    /// first usable candidate; the scope is (re)bound to it.
    pub fn select(&mut self, capability: Capability, binding_scope: &str) -> (r: Result<
        (RouteDecision, RouteEvent),
        RouteError,
    >)
        requires
            old(self).wf(),
        ensures
            final(self).wf(),
            match spec_select(old(self)@, capability, binding_scope@) {
                Ok((d, e, v)) => r matches Ok((rd, re)) && rd@ == d && re@ == e && final(self)@ == v,
                Err(e) => r matches Err(err) && err@ == e && final(self)@ == old(self)@,
            },
    {
        let scope = binding_scope.to_owned();
        let bound = self.find_binding(&scope);
        if let Some(bi) = bound {
            if self.account_usable(&self.bindings[bi].1.account_id, capability) {
                let d = self.bindings[bi].1.duplicate();
                return Ok((d.duplicate(), RouteEvent::Selected { scope, decision: d }));
            }
        }
        let like = match bound {
            Some(bi) => self.find_usable(capability, Some(bi)),
            None => None,
        };
        let idx = if like.is_some() {
            like
        } else {
            self.find_usable(capability, None)
        };
        match idx {
            None => Err(RouteError::CapabilityUnavailable),
            Some(i) => {
                let c = &self.candidates[i];
                let d = RouteDecision {
                    account_id: c.account_id.clone(),
                    provider: c.provider.clone(),
                    model: c.model.clone(),
                };
                let ghost old_entries = self.binding_entries();
                let event = match bound {
                    Some(bi) => {
                        proof {
                            lemma_assoc_update(old_entries, bi as int, d@);
                        }
                        self.bindings.set(bi, (scope.clone(), d.duplicate()));
                        assert(self.binding_entries() =~= old_entries.update(bi as int, (old_entries[bi as int].0, d@)));
                        RouteEvent::Switched { scope, decision: d.duplicate() }
                    },
                    None => {
                        proof {
                            lemma_assoc_push(old_entries, scope@, d@);
                        }
                        self.bindings.push((scope.clone(), d.duplicate()));
                        assert(self.binding_entries() =~= old_entries.push((scope@, d@)));
                        RouteEvent::Selected { scope, decision: d.duplicate() }
                    },
                };
                Ok((d, event))
            },
        }
    }

    fn find_quota(&self, account: &String, metric: &String) -> (r: Option<usize>)
        requires
            self.wf(),
        ensures
            match r {
                Some(i) => i < self.remaining_quota.len() && self.remaining_quota@[i as int].0@ == account@
                    && self.remaining_quota@[i as int].1@ == metric@
                    && self@.quota.contains_key((account@, metric@))
                    && self@.quota[(account@, metric@)] == self.remaining_quota@[i as int].2,
                None => !self@.quota.contains_key((account@, metric@)),
            },
    {
        let ghost entries = self.quota_entries();
        for i in 0..self.remaining_quota.len()
            invariant
                entries == self.quota_entries(),
                entries.len() == self.remaining_quota.len(),
                keys_unique(entries),
                forall|j: int| 0 <= j < i ==> #[trigger] entries[j].0 != (account@, metric@),
        {
            if self.remaining_quota[i].0 == *account && self.remaining_quota[i].1 == *metric {
                proof {
                    lemma_assoc_lookup(entries, i as int);
                }
                return Some(i);
            }
        }
        proof {
            if has_key(entries, (account@, metric@)) {
                let j = choose|j: int| 0 <= j < entries.len() && #[trigger] entries[j].0 == (account@, metric@);
                assert(entries[j].0 != (account@, metric@));
            }
        }
        None
    }

    fn set_quota_entry(&mut self, account: &String, metric: &String, amount: u64)
        requires
            old(self).wf(),
        ensures
            final(self).wf(),
            final(self)@ == (RouteSelectorView {
                quota: old(self)@.quota.insert((account@, metric@), amount),
                ..old(self)@
            }),
    {
        let ghost old_entries = self.quota_entries();
        match self.find_quota(account, metric) {
            Some(i) => {
                proof {
                    lemma_assoc_update(old_entries, i as int, amount);
                }
                self.remaining_quota.set(i, (account.clone(), metric.clone(), amount));
                assert(self.quota_entries() =~= old_entries.update(i as int, (old_entries[i as int].0, amount)));
            },
            None => {
                proof {
                    lemma_assoc_push(old_entries, (account@, metric@), amount);
                }
                self.remaining_quota.push((account.clone(), metric.clone(), amount));
                assert(self.quota_entries() =~= old_entries.push(((account@, metric@), amount)));
            },
        }
    }

    /// Sets the remaining quota of `metric` on `account` to `amount`.
    pub fn set_quota(&mut self, account_id: &str, metric: &str, amount: u64) -> (r: Result<(), RouteError>)
        requires
            old(self).wf(),
        ensures
            final(self).wf(),
            r is Ok,
            final(self)@ == (RouteSelectorView {
                quota: old(self)@.quota.insert((account_id@, metric@), amount),
                ..old(self)@
            }),
    {
        let account = account_id.to_owned();
        let metric = metric.to_owned();
        self.set_quota_entry(&account, &metric, amount);
        Ok(())
    }

    /// The name under which an event is recorded.
    pub fn event_type(event: &RouteEvent) -> (r: &'static str)
        ensures
            r@ == match event {
                RouteEvent::Selected { .. } => "route.selected"@,
                RouteEvent::Switched { .. } => "route.switched"@,
                RouteEvent::UsageUpdated { .. } => "usage.updated"@,
            },
    {
        match event {
            RouteEvent::Selected { .. } => "route.selected",
            RouteEvent::Switched { .. } => "route.switched",
            RouteEvent::UsageUpdated { .. } => "usage.updated",
        }
    }

    /// Records how a request on `decision` ended; retryable, capability and fatal
    /// failures take the decision's account out of further selection.
    pub fn report(&mut self, decision: &RouteDecision, outcome: RouteOutcome) -> (r: Result<(), RouteError>)
        requires
            old(self).wf(),
        ensures
            final(self).wf(),
            r is Ok,
            final(self)@ == (RouteSelectorView {
                unavailable: if outcome_disables(outcome) {
                    old(self)@.unavailable.insert(decision.account_id@)
                } else {
                    old(self)@.unavailable
                },
                ..old(self)@
            }),
    {
        let disables = match outcome {
            RouteOutcome::Failed(RouteFailureKind::Retryable) => true,
            RouteOutcome::Failed(RouteFailureKind::CapabilityUnavailable) => true,
            RouteOutcome::Failed(RouteFailureKind::Fatal) => true,
            _ => false,
        };
        if disables && !self.is_unavailable(&decision.account_id) {
            let ghost old_set = self.unavailable_set();
            self.unavailable_accounts.push(decision.account_id.clone());
            assert forall|a: Seq<char>| #[trigger] self.unavailable_set().contains(a) <==> old_set.insert(decision.account_id@).contains(a) by {
                if old_set.contains(a) {
                    let j = choose|j: int| 0 <= j < old(self).unavailable_accounts.len() && #[trigger] old(self).unavailable_accounts@[j]@ == a;
                    assert(self.unavailable_accounts@[j] == old(self).unavailable_accounts@[j]);
                }
                if self.unavailable_set().contains(a) {
                    let j = choose|j: int| 0 <= j < self.unavailable_accounts.len() && #[trigger] self.unavailable_accounts@[j]@ == a;
                    if j < old(self).unavailable_accounts.len() {
                        assert(self.unavailable_accounts@[j] == old(self).unavailable_accounts@[j]);
                    }
                }
                if a == decision.account_id@ {
                    assert(self.unavailable_accounts@[old(self).unavailable_accounts.len() as int]@ == a);
                }
            }
            assert(self.unavailable_set() =~= old_set.insert(decision.account_id@));
        } else if disables {
            assert(old(self)@.unavailable.insert(decision.account_id@) =~= old(self)@.unavailable);
        }
        Ok(())
    }

    /// How many candidates can currently serve `capability`.
    pub fn health(&self, capability: Capability) -> (r: Result<RouteHealth, RouteError>)
        ensures
            r matches Ok(h) && h.capability == capability && h.available_candidates == usable_count(
                self@.candidates,
                capability,
                self@.unavailable,
            ),
    {
        let ghost cands = self@.candidates;
        let mut count: usize = 0;
        for i in 0..self.candidates.len()
            invariant
                cands == self@.candidates,
                cands.len() == self.candidates.len(),
                count == usable_count(cands.take(i as int), capability, self@.unavailable),
                count <= i,
        {
            assert(cands.take(i + 1).drop_last() =~= cands.take(i as int));
            if self.candidate_usable(i, capability) {
                count = count + 1;
            }
        }
        assert(cands.take(cands.len() as int) =~= cands);
        Ok(RouteHealth { capability, available_candidates: count })
    }

    fn has_usage(&self, account: &String, key: &String) -> (r: bool)
        ensures
            r == self@.usage.contains((account@, key@)),
    {
        for i in 0..self.usage_keys.len()
            invariant
                forall|j: int|
                    0 <= j < i ==> !(#[trigger] self.usage_keys@[j].0@ == account@ && self.usage_keys@[j].1@
                        == key@),
        {
            if self.usage_keys[i].0 == *account && self.usage_keys[i].1 == *key {
                assert(self.usage_set().contains((account@, key@)));
                return true;
            }
        }
        false
    }

    /// Reserves every requirement on the decision's account, once per idempotency key.
    ///
    /// A repeated key reserves nothing and returns no events. If any metric with a
    /// known quota has less left than required, nothing is reserved. Otherwise each
    /// requirement is subtracted and reported as a usage event.
    pub fn reserve_usage(
        &mut self,
        decision: &RouteDecision,
        idempotency_key: &str,
        requirements: &[QuotaRequirement],
    ) -> (r: Result<Vec<RouteEvent>, RouteError>)
        requires
            old(self).wf(),
        ensures
            final(self).wf(),
            match spec_reserve(
                old(self)@,
                decision.account_id@,
                idempotency_key@,
                requirement_views(requirements@),
            ) {
                Ok((evs, v)) => r matches Ok(rv) && event_views(rv@) == evs
                    && final(self)@ == v,
                Err(e) => r matches Err(err) && err@ == e && final(self)@ == old(self)@,
            },
    {
        let key = idempotency_key.to_owned();
        let account = &decision.account_id;
        if self.has_usage(account, &key) {
            let v: Vec<RouteEvent> = Vec::new();
            assert(event_views(v@) =~= Seq::<RouteEventView>::empty());
            return Ok(v);
        }
        let ghost reqs = requirement_views(requirements@);
        let ghost q0 = self@.quota;
        for i in 0..requirements.len()
            invariant
                self.wf(),
                reqs == requirement_views(requirements@),
                q0 == self@.quota,
                *self == *old(self),
                account@ == decision.account_id@,
                key@ == idempotency_key@,
                !old(self)@.usage.contains((account@, idempotency_key@)),
                exceeded_index(q0, account@, reqs, 0) == exceeded_index(q0, account@, reqs, i as int),
        {
            assert(reqs[i as int] == requirements@[i as int]@);
            if let Some(qi) = self.find_quota(account, &requirements[i].metric) {
                if total_exceeds(requirements, i, self.remaining_quota[qi].2) {
                    assert(exceeded_index(q0, account@, reqs, i as int) == Some(i as int));
                    let err = RouteError::QuotaExceeded {
                        account_id: account.clone(),
                        metric: requirements[i].metric.clone(),
                    };
                    assert(old(self)@.quota == q0);
                    assert(spec_reserve(old(self)@, account@, idempotency_key@, reqs) == Err::<(Seq<RouteEventView>, RouteSelectorView), RouteErrorView>(RouteErrorView::QuotaExceeded { account_id: account@, metric: reqs[i as int].metric }));
                    assert(err@ == RouteErrorView::QuotaExceeded { account_id: account@, metric: reqs[i as int].metric });
                    assert(self@ == old(self)@);
                    return Err(err);
                }
            }
        }
        proof {
            assert(exceeded_index(q0, account@, reqs, requirements.len() as int) is None);
            lemma_no_shortfall_fits(q0, account@, reqs);
            lemma_fits_prefix(q0, account@, reqs, 0);
        }
        let ghost s0 = self@;
        let mut events: Vec<RouteEvent> = Vec::new();
        for i in 0..requirements.len()
            invariant
                self.wf(),
                reqs == requirement_views(requirements@),
                reservations_fit(q0, account@, reqs),
                self@.quota == apply_reservations(q0, account@, reqs.take(i as int)),
                self@ == (RouteSelectorView { quota: self@.quota, ..s0 }),
                event_views(events@) == usage_events(account@, reqs.take(i as int)),
        {
            proof {
                lemma_fits_prefix(q0, account@, reqs, i + 1);
                assert(reqs.take(i + 1).drop_last() =~= reqs.take(i as int));
                assert(reqs.take(i + 1).last() == reqs[i as int]);
            }
            let metric = &requirements[i].metric;
            let amount = requirements[i].amount;
            if let Some(qi) = self.find_quota(account, metric) {
                let left = self.remaining_quota[qi].2 - amount;
                self.set_quota_entry(account, metric, left);
            }
            let ghost old_events = events@;
            events.push(RouteEvent::UsageUpdated { account_id: account.clone(), metric: metric.clone(), amount });
            assert(event_views(events@) =~= event_views(old_events).push(usage_event(account@, reqs[i as int])));
            assert(usage_events(account@, reqs.take(i + 1)) =~= usage_events(account@, reqs.take(i as int)).push(usage_event(account@, reqs[i as int])));
        }
        assert(reqs.take(requirements.len() as int) =~= reqs);
        let ghost old_usage = self.usage_set();
        let ghost old_keys = self.usage_keys@;
        self.usage_keys.push((account.clone(), key));
        assert forall|k: (Seq<char>, Seq<char>)| #[trigger] self.usage_set().contains(k) <==> old_usage.insert((account@, idempotency_key@)).contains(k) by {
            let n = self.usage_keys.len() - 1;
            if old_usage.contains(k) {
                let j = choose|j: int| 0 <= j < old_keys.len() && #[trigger] old_keys[j].0@ == k.0 && old_keys[j].1@ == k.1;
                assert(self.usage_keys@[j] == old_keys[j]);
            }
            if self.usage_set().contains(k) {
                let j = choose|j: int| 0 <= j < self.usage_keys.len() && #[trigger] self.usage_keys@[j].0@ == k.0 && self.usage_keys@[j].1@ == k.1;
                if j < n {
                    assert(old_usage.contains(k));
                }
            }
            if k == (account@, idempotency_key@) {
                assert(self.usage_keys@[n].0@ == k.0);
            }
        }
        assert(self.usage_set() =~= old_usage.insert((account@, idempotency_key@)));
        Ok(events)
    }
}


/// A found index is in range and satisfies the search condition.
pub proof fn lemma_first_usable_found(
    cands: Seq<RouteCandidateView>,
    cap: Capability,
    unavailable: Set<Seq<char>>,
    like: Option<RouteDecisionView>,
    from: int,
)
    ensures
        first_usable(cands, cap, unavailable, like, from) matches Some(i) ==> (from <= i < cands.len()
            && 0 <= i && usable(cands[i], cap, unavailable) && same_model_as(cands[i], like)),
    decreases cands.len() - from,
{
    if 0 <= from < cands.len() && !(usable(cands[from], cap, unavailable) && same_model_as(cands[from], like)) {
        lemma_first_usable_found(cands, cap, unavailable, like, from + 1);
    }
}

/// If some candidate at or after `from` satisfies the search condition, the search finds one.
pub proof fn lemma_first_usable_exists(
    cands: Seq<RouteCandidateView>,
    cap: Capability,
    unavailable: Set<Seq<char>>,
    like: Option<RouteDecisionView>,
    from: int,
    j: int,
)
    requires
        0 <= from <= j < cands.len(),
        usable(cands[j], cap, unavailable),
        same_model_as(cands[j], like),
    ensures
        first_usable(cands, cap, unavailable, like, from) is Some,
    decreases j - from,
{
    if from < j && !(usable(cands[from], cap, unavailable) && same_model_as(cands[from], like)) {
        lemma_first_usable_exists(cands, cap, unavailable, like, from + 1, j);
    }
}

/// The count of usable candidates is positive exactly when one exists.
pub proof fn lemma_usable_count_positive(cands: Seq<RouteCandidateView>, cap: Capability, unavailable: Set<Seq<char>>)
    ensures
        usable_count(cands, cap, unavailable) > 0 <==> exists|i: int|
            0 <= i < cands.len() && #[trigger] usable(cands[i], cap, unavailable),
    decreases cands.len(),
{
    if cands.len() > 0 {
        let rest = cands.drop_last();
        lemma_usable_count_positive(rest, cap, unavailable);
        if exists|i: int| 0 <= i < cands.len() && #[trigger] usable(cands[i], cap, unavailable) {
            let i = choose|i: int| 0 <= i < cands.len() && #[trigger] usable(cands[i], cap, unavailable);
            if i < cands.len() - 1 {
                assert(rest[i] == cands[i]);
            }
        }
        if exists|i: int| 0 <= i < rest.len() && #[trigger] usable(rest[i], cap, unavailable) {
            let i = choose|i: int| 0 <= i < rest.len() && #[trigger] usable(rest[i], cap, unavailable);
            assert(rest[i] == cands[i]);
        }
    }
}

/// The route chosen for a scope stays chosen: selecting again in the state that a
/// successful selection left returns the same decision as `Selected`, and changes nothing.
pub proof fn law_selection_is_sticky(v: RouteSelectorView, cap: Capability, scope: Seq<char>)
    requires
        spec_select(v, cap, scope) is Ok,
    ensures
        ({
            let (d, _e, v2) = spec_select(v, cap, scope)->Ok_0;
            spec_select(v2, cap, scope) == Ok::<_, RouteErrorView>(
                (d, RouteEventView::Selected { scope, decision: d }, v2),
            )
        }),
{
    if !bound_route_usable(v, cap, scope) {
        let i = fallback_index(v, cap, scope)->Some_0;
        if v.bindings.contains_key(scope) {
            lemma_first_usable_found(v.candidates, cap, v.unavailable, Some(v.bindings[scope]), 0);
        }
        lemma_first_usable_found(v.candidates, cap, v.unavailable, None, 0);
        let (d, _e, v2) = spec_select(v, cap, scope)->Ok_0;
        assert(v2.bindings[scope] == d);
        assert(usable(v2.candidates[i], cap, v2.unavailable));
        assert(bound_route_usable(v2, cap, scope));
    }
}

/// After a disabling failure is reported for an account, no selection returns that account.
pub proof fn law_failed_account_is_avoided(
    v: RouteSelectorView,
    failed: RouteDecisionView,
    outcome: RouteOutcome,
    cap: Capability,
    scope: Seq<char>,
)
    requires
        outcome_disables(outcome),
    ensures
        ({
            let v2 = RouteSelectorView { unavailable: v.unavailable.insert(failed.account_id), ..v };
            spec_select(v2, cap, scope) matches Ok((d, _e, _s)) ==> d.account_id != failed.account_id
        }),
{
    let v2 = RouteSelectorView { unavailable: v.unavailable.insert(failed.account_id), ..v };
    if v2.bindings.contains_key(scope) {
        lemma_first_usable_found(v2.candidates, cap, v2.unavailable, Some(v2.bindings[scope]), 0);
    }
    lemma_first_usable_found(v2.candidates, cap, v2.unavailable, None, 0);
}

/// When the bound account can no longer serve, a candidate with the bound provider
/// and model is preferred over other models: accounts switch before models do.
pub proof fn law_failover_keeps_model(v: RouteSelectorView, cap: Capability, scope: Seq<char>, j: int)
    requires
        v.bindings.contains_key(scope),
        !bound_route_usable(v, cap, scope),
        0 <= j < v.candidates.len(),
        usable(v.candidates[j], cap, v.unavailable),
        v.candidates[j].provider == v.bindings[scope].provider,
        v.candidates[j].model == v.bindings[scope].model,
    ensures
        spec_select(v, cap, scope) matches Ok((d, e, _s)) && d.provider == v.bindings[scope].provider
            && d.model == v.bindings[scope].model && e is Switched,
{
    lemma_first_usable_exists(v.candidates, cap, v.unavailable, Some(v.bindings[scope]), 0, j);
    lemma_first_usable_found(v.candidates, cap, v.unavailable, Some(v.bindings[scope]), 0);
}

/// A scope with no binding can be routed exactly when the health report counts at
/// least one available candidate for the capability.
pub proof fn law_health_predicts_selection(v: RouteSelectorView, cap: Capability, scope: Seq<char>)
    requires
        !v.bindings.contains_key(scope),
    ensures
        spec_select(v, cap, scope) is Ok <==> usable_count(v.candidates, cap, v.unavailable) > 0,
{
    lemma_usable_count_positive(v.candidates, cap, v.unavailable);
    lemma_first_usable_found(v.candidates, cap, v.unavailable, None, 0);
    if usable_count(v.candidates, cap, v.unavailable) > 0 {
        let i = choose|i: int| 0 <= i < v.candidates.len() && #[trigger] usable(v.candidates[i], cap, v.unavailable);
        lemma_first_usable_exists(v.candidates, cap, v.unavailable, None, 0, i);
    }
}

/// Reserving again with the same account and idempotency key reserves nothing,
/// returns no events and leaves the state as it is.
pub proof fn law_reservation_is_idempotent(
    v: RouteSelectorView,
    account: Seq<char>,
    key: Seq<char>,
    reqs: Seq<QuotaRequirementView>,
    again: Seq<QuotaRequirementView>,
)
    requires
        spec_reserve(v, account, key, reqs) is Ok,
    ensures
        ({
            let v2 = spec_reserve(v, account, key, reqs)->Ok_0.1;
            spec_reserve(v2, account, key, again) == Ok::<_, RouteErrorView>((Seq::<RouteEventView>::empty(), v2))
        }),
{
}

/// A reservation only changes the quotas of the reserving account.
pub proof fn law_reservation_touches_only_its_account(
    quota: Map<(Seq<char>, Seq<char>), u64>,
    account: Seq<char>,
    reqs: Seq<QuotaRequirementView>,
    other: (Seq<char>, Seq<char>),
)
    requires
        other.0 != account,
    ensures
        apply_reservations(quota, account, reqs).contains_key(other) == quota.contains_key(other),
        quota.contains_key(other) ==> apply_reservations(quota, account, reqs)[other] == quota[other],
    decreases reqs.len(),
{
    if reqs.len() > 0 {
        law_reservation_touches_only_its_account(quota, account, reqs.drop_last(), other);
    }
}

/// A single fitting requirement on a metric with a quota lowers that quota by its amount.
pub proof fn law_reservation_subtracts_amount(
    v: RouteSelectorView,
    account: Seq<char>,
    key: Seq<char>,
    req: QuotaRequirementView,
)
    requires
        !v.usage.contains((account, key)),
        v.quota.contains_key((account, req.metric)),
        v.quota[(account, req.metric)] >= req.amount,
    ensures
        spec_reserve(v, account, key, seq![req]) matches Ok((evs, v2)) && evs == seq![usage_event(account, req)]
            && v2.quota[(account, req.metric)] == v.quota[(account, req.metric)] - req.amount
            && v2.usage.contains((account, key)),
{
    let reqs = seq![req];
    assert(reqs.drop_last() =~= Seq::<QuotaRequirementView>::empty());
    assert(reqs.take(1) =~= reqs);
    assert(reqs.last() == req);
    assert(metric_total(reqs.drop_last(), req.metric) == 0);
    assert(metric_total(reqs, req.metric) == req.amount);
    assert(exceeded_index(v.quota, account, reqs, 1) is None);
    assert(exceeded_index(v.quota, account, reqs, 0) is None);
    assert(reqs.last() == req);
    assert(apply_reservations(v.quota, account, reqs.drop_last()) == v.quota);
    assert(usage_events(account, reqs) =~= seq![usage_event(account, req)]);
}


/// Setting a quota overwrites it: afterwards the quota of `metric` on
/// `account` is exactly `n`, every other quota is as it was, and a first
/// reservation under a fresh key that asks `k` of that metric alone succeeds
/// exactly when `k <= n`, leaving `n - k`; otherwise it is refused as exceeding
/// that metric.
pub proof fn law_set_quota_judges_next_reservation(
    v: RouteSelectorView,
    account: Seq<char>,
    metric: Seq<char>,
    n: u64,
    key: Seq<char>,
    k: u64,
    other: (Seq<char>, Seq<char>),
)
    requires
        !v.usage.contains((account, key)),
    ensures
        ({
            let w = after_call(v, RouteCall::SetQuota { account, metric, amount: n });
            let req = QuotaRequirementView { metric, amount: k };
            &&& w.quota[(account, metric)] == n
            &&& other != (account, metric) ==> w.quota.contains_key(other) == v.quota.contains_key(other)
                && (v.quota.contains_key(other) ==> w.quota[other] == v.quota[other])
            &&& (spec_reserve(w, account, key, seq![req]) is Ok <==> k <= n)
            &&& k <= n ==> (spec_reserve(w, account, key, seq![req]) matches Ok((_, w2))
                && w2.quota[(account, metric)] == n - k)
            &&& k > n ==> spec_reserve(w, account, key, seq![req]) == Err::<(Seq<RouteEventView>, RouteSelectorView), _>(
                RouteErrorView::QuotaExceeded { account_id: account, metric },
            )
        }),
{
    let w = after_call(v, RouteCall::SetQuota { account, metric, amount: n });
    let req = QuotaRequirementView { metric, amount: k };
    let reqs = seq![req];
    assert(w.quota.contains_key((account, metric)));
    if k <= n {
        law_reservation_subtracts_amount(w, account, key, req);
    } else {
        assert(reqs.take(1) =~= reqs);
        assert(reqs.drop_last() =~= Seq::<QuotaRequirementView>::empty());
        assert(metric_total(reqs.drop_last(), metric) == 0);
        assert(metric_total(reqs.take(1), metric) == k);
        assert(short_at(w.quota, account, reqs, 0));
        assert(exceeded_index(w.quota, account, reqs, 0) == Some(0int));
    }
}

// --- over any later calls ----------------------------------------------------

/// A call on the selector, by the values it takes.
pub enum RouteCall {
    Select { cap: Capability, scope: Seq<char> },
    Report { account: Seq<char>, outcome: RouteOutcome },
    Reserve { account: Seq<char>, key: Seq<char>, reqs: Seq<QuotaRequirementView> },
    SetQuota { account: Seq<char>, metric: Seq<char>, amount: u64 },
    RestoreBinding { scope: Seq<char>, decision: RouteDecisionView },
}

/// The state a call leaves behind, as the call's contract states it; a
/// refused call leaves the state as it was.
pub open spec fn after_call(v: RouteSelectorView, c: RouteCall) -> RouteSelectorView {
    match c {
        RouteCall::Select { cap, scope } => match spec_select(v, cap, scope) {
            Ok((_, _, w)) => w,
            Err(_) => v,
        },
        RouteCall::Report { account, outcome } => RouteSelectorView {
            unavailable: if outcome_disables(outcome) {
                v.unavailable.insert(account)
            } else {
                v.unavailable
            },
            ..v
        },
        RouteCall::Reserve { account, key, reqs } => match spec_reserve(v, account, key, reqs) {
            Ok((_, w)) => w,
            Err(_) => v,
        },
        RouteCall::SetQuota { account, metric, amount } => RouteSelectorView {
            quota: v.quota.insert((account, metric), amount),
            ..v
        },
        RouteCall::RestoreBinding { scope, decision } => RouteSelectorView {
            bindings: if v.bindings.contains_key(scope) {
                v.bindings
            } else {
                v.bindings.insert(scope, decision)
            },
            ..v
        },
    }
}

/// The state after `calls`, in order.
pub open spec fn after_calls(v: RouteSelectorView, calls: Seq<RouteCall>) -> RouteSelectorView
    decreases calls.len(),
{
    if calls.len() == 0 {
        v
    } else {
        after_call(after_calls(v, calls.drop_last()), calls.last())
    }
}

/// A call that selects a route for `scope`.
pub open spec fn selects(c: RouteCall, scope: Seq<char>) -> bool {
    c matches RouteCall::Select { scope: s, .. } && s == scope
}

/// A call that takes `account` out of selection.
pub open spec fn disables(c: RouteCall, account: Seq<char>) -> bool {
    c matches RouteCall::Report { account: a, outcome } && a == account && outcome_disables(outcome)
}

/// What calls keep: the candidates; the failed accounts and the reservations
/// made, which only grow; and the binding of every scope that no call selects.
pub proof fn lemma_calls_keep(v: RouteSelectorView, calls: Seq<RouteCall>, scope: Seq<char>, account: Seq<char>)
    ensures
        after_calls(v, calls).candidates == v.candidates,
        v.unavailable.subset_of(after_calls(v, calls).unavailable),
        v.usage.subset_of(after_calls(v, calls).usage),
        after_calls(v, calls).unavailable.contains(account) ==> v.unavailable.contains(account) || exists|i: int|
            0 <= i < calls.len() && disables(#[trigger] calls[i], account),
        (forall|i: int| 0 <= i < calls.len() ==> !selects(#[trigger] calls[i], scope)) ==> (v.bindings.contains_key(scope)
            ==> after_calls(v, calls).bindings.contains_key(scope) && after_calls(v, calls).bindings[scope]
            == v.bindings[scope]),
    decreases calls.len(),
{
    if calls.len() > 0 {
        let d = calls.drop_last();
        lemma_calls_keep(v, d, scope, account);
        let u = after_calls(v, d);
        if after_calls(v, calls).unavailable.contains(account) && !u.unavailable.contains(account) {
            assert(disables(calls[calls.len() - 1], account));
        }
        if u.unavailable.contains(account) && !v.unavailable.contains(account) {
            let i = choose|i: int| 0 <= i < d.len() && disables(#[trigger] d[i], account);
            assert(calls[i] == d[i]);
        }
        if forall|i: int| 0 <= i < calls.len() ==> !selects(#[trigger] calls[i], scope) {
            assert forall|i: int| 0 <= i < d.len() implies !selects(#[trigger] d[i], scope) by {
                assert(calls[i] == d[i]);
            }
            assert(!selects(calls[calls.len() - 1], scope));
        }
        match calls.last() {
            RouteCall::Reserve { account: a, key, reqs } => {
                if spec_reserve(u, a, key, reqs) is Ok {
                    assert(u.usage.subset_of(after_calls(v, calls).usage));
                }
            },
            _ => {},
        }
    }
}

/// Every usable candidate count only falls as more accounts fail.
proof fn lemma_count_shrinks(cands: Seq<RouteCandidateView>, cap: Capability, a: Set<Seq<char>>, b: Set<Seq<char>>)
    requires
        a.subset_of(b),
    ensures
        usable_count(cands, cap, b) <= usable_count(cands, cap, a),
    decreases cands.len(),
{
    if cands.len() > 0 {
        lemma_count_shrinks(cands.drop_last(), cap, a, b);
    }
}

/// A selection returns the account of a usable candidate.
proof fn lemma_selected_is_usable(v: RouteSelectorView, cap: Capability, scope: Seq<char>)
    ensures
        spec_select(v, cap, scope) matches Ok((d, _e, _w)) ==> exists|i: int|
            0 <= i < v.candidates.len() && #[trigger] usable(v.candidates[i], cap, v.unavailable)
                && v.candidates[i].account_id == d.account_id,
{
    if !bound_route_usable(v, cap, scope) {
        if v.bindings.contains_key(scope) {
            lemma_first_usable_found(v.candidates, cap, v.unavailable, Some(v.bindings[scope]), 0);
        }
        lemma_first_usable_found(v.candidates, cap, v.unavailable, None, 0);
        if let Some(i) = fallback_index(v, cap, scope) {
            assert(usable(v.candidates[i], cap, v.unavailable));
        }
    }
}

/// A scope's route stays bound: after a selection, whatever other calls come,
/// as long as none selects that scope again and none reports its account as
/// failed, the scope is still bound to the same decision, and selecting it
/// returns that decision as `Selected` and changes nothing.
pub proof fn law_binding_persists(v: RouteSelectorView, cap: Capability, scope: Seq<char>, calls: Seq<RouteCall>)
    requires
        spec_select(v, cap, scope) is Ok,
        forall|i: int| 0 <= i < calls.len() ==> !selects(#[trigger] calls[i], scope),
        forall|i: int| 0 <= i < calls.len() ==> !disables(#[trigger] calls[i], (spec_select(v, cap, scope)->Ok_0).0.account_id),
    ensures
        ({
            let (d, _e, v1) = spec_select(v, cap, scope)->Ok_0;
            let w = after_calls(v1, calls);
            &&& w.bindings.contains_key(scope) && w.bindings[scope] == d
            &&& spec_select(w, cap, scope) == Ok::<_, RouteErrorView>((d, RouteEventView::Selected { scope, decision: d }, w))
        }),
{
    let (d, _e, v1) = spec_select(v, cap, scope)->Ok_0;
    law_selection_is_sticky(v, cap, scope);
    assert(bound_route_usable(v1, cap, scope));
    let w = after_calls(v1, calls);
    lemma_calls_keep(v1, calls, scope, d.account_id);
    let i = choose|i: int|
        0 <= i < v1.candidates.len() && #[trigger] usable(v1.candidates[i], cap, v1.unavailable)
            && v1.candidates[i].account_id == v1.bindings[scope].account_id;
    assert(!w.unavailable.contains(d.account_id));
    assert(usable(w.candidates[i], cap, w.unavailable));
    assert(bound_route_usable(w, cap, scope));
}

/// A reservation is made once: after it, whatever calls come, reserving again
/// with the same account and key reserves nothing, returns no events and
/// changes nothing.
pub proof fn law_reservation_stays_idempotent(
    v: RouteSelectorView,
    account: Seq<char>,
    key: Seq<char>,
    reqs: Seq<QuotaRequirementView>,
    calls: Seq<RouteCall>,
    again: Seq<QuotaRequirementView>,
)
    requires
        spec_reserve(v, account, key, reqs) is Ok,
    ensures
        ({
            let w = after_calls(spec_reserve(v, account, key, reqs)->Ok_0.1, calls);
            spec_reserve(w, account, key, again) == Ok::<_, RouteErrorView>((Seq::<RouteEventView>::empty(), w))
        }),
{
    let v1 = spec_reserve(v, account, key, reqs)->Ok_0.1;
    assert(v1.usage.contains((account, key)));
    lemma_calls_keep(v1, calls, Seq::empty(), account);
}

/// A failed account stays out: once a disabling failure is reported for it,
/// whatever calls come, no selection returns it and the health report counts
/// no candidate of it.
pub proof fn law_failed_account_stays_avoided(
    v: RouteSelectorView,
    account: Seq<char>,
    outcome: RouteOutcome,
    calls: Seq<RouteCall>,
    cap: Capability,
    scope: Seq<char>,
)
    requires
        outcome_disables(outcome),
    ensures
        ({
            let w = after_calls(after_call(v, RouteCall::Report { account, outcome }), calls);
            &&& w.unavailable.contains(account)
            &&& spec_select(w, cap, scope) matches Ok((d, _e, _x)) ==> d.account_id != account
            &&& forall|i: int| 0 <= i < w.candidates.len() && #[trigger] usable(w.candidates[i], cap, w.unavailable)
                ==> w.candidates[i].account_id != account
        }),
{
    let v1 = after_call(v, RouteCall::Report { account, outcome });
    let w = after_calls(v1, calls);
    lemma_calls_keep(v1, calls, scope, account);
    lemma_selected_is_usable(w, cap, scope);
}

/// The health report never improves: whatever calls come, the number of
/// candidates that can serve a capability does not rise.
pub proof fn law_health_never_rises(v: RouteSelectorView, calls: Seq<RouteCall>, cap: Capability)
    ensures
        usable_count(after_calls(v, calls).candidates, cap, after_calls(v, calls).unavailable) <= usable_count(
            v.candidates,
            cap,
            v.unavailable,
        ),
{
    lemma_calls_keep(v, calls, Seq::empty(), Seq::empty());
    lemma_count_shrinks(v.candidates, cap, v.unavailable, after_calls(v, calls).unavailable);
}

/// For every scope, bound or not, the health report counts no candidate for a
/// capability exactly when selecting a route for it is refused as unavailable.
pub proof fn law_health_predicts_every_selection(v: RouteSelectorView, cap: Capability, scope: Seq<char>)
    ensures
        (usable_count(v.candidates, cap, v.unavailable) == 0) <==> spec_select(v, cap, scope) == Err::<
            (RouteDecisionView, RouteEventView, RouteSelectorView),
            RouteErrorView,
        >(RouteErrorView::CapabilityUnavailable),
{
    lemma_usable_count_positive(v.candidates, cap, v.unavailable);
    lemma_selected_is_usable(v, cap, scope);
    lemma_first_usable_found(v.candidates, cap, v.unavailable, None, 0);
    if v.bindings.contains_key(scope) {
        lemma_first_usable_found(v.candidates, cap, v.unavailable, Some(v.bindings[scope]), 0);
    }
    if usable_count(v.candidates, cap, v.unavailable) > 0 {
        let i = choose|i: int| 0 <= i < v.candidates.len() && #[trigger] usable(v.candidates[i], cap, v.unavailable);
        lemma_first_usable_exists(v.candidates, cap, v.unavailable, None, 0, i);
    }
}


/// A call that restores a binding for `scope`.
pub open spec fn restores(c: RouteCall, scope: Seq<char>) -> bool {
    c matches RouteCall::RestoreBinding { scope: s, .. } && s == scope
}

/// A scope that no call selects or restores stays unbound.
pub proof fn law_untouched_scope_stays_unbound(v: RouteSelectorView, calls: Seq<RouteCall>, scope: Seq<char>)
    requires
        !v.bindings.contains_key(scope),
        forall|i: int| 0 <= i < calls.len() ==> !selects(#[trigger] calls[i], scope) && !restores(calls[i], scope),
    ensures
        !after_calls(v, calls).bindings.contains_key(scope),
    decreases calls.len(),
{
    if calls.len() > 0 {
        let d = calls.drop_last();
        assert forall|i: int| 0 <= i < d.len() implies !selects(#[trigger] d[i], scope) && !restores(d[i], scope) by {
            assert(calls[i] == d[i]);
        }
        law_untouched_scope_stays_unbound(v, d, scope);
        assert(!selects(calls[calls.len() - 1], scope) && !restores(calls[calls.len() - 1], scope));
    }
}

} // verus!
