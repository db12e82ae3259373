//! The checks on an AI provider configuration before it is stored: a
//! provider's models belong to it and are declared once, and agents are bound
//! only to models that exist.

use vstd::prelude::*;
use crate::action::{owned, str_eq};
use crate::gates::{first_true, lemma_first_true, lemma_first_true_unique};
use crate::text::string_views;

verus! {

/// A model as a provider configuration declares it: its own id, the provider
/// it belongs to, and the provider's name for it.
#[derive(Debug, Clone, PartialEq, Eq)]
pub struct DeclaredModel {
    pub id: String,
    pub provider_code: String,
    pub model_id: String,
}

/// Whether model `i` is acceptable for provider `code`: it belongs to the
/// provider, and neither its id nor its provider's name for it was declared
/// before.
pub open spec fn model_acceptable(models: Seq<DeclaredModel>, code: Seq<char>, i: int) -> bool {
    &&& models[i].provider_code@ == code
    &&& forall|j: int| 0 <= j < i ==> models[j].id@ != models[i].id@
    &&& forall|j: int| 0 <= j < i ==> models[j].model_id@ != models[i].model_id@
}

pub open spec fn unacceptable_models(models: Seq<DeclaredModel>, code: Seq<char>) -> Seq<bool> {
    Seq::new(models.len(), |i: int| !model_acceptable(models, code, i))
}

/// The message refusing model `m` of provider `code`.
pub open spec fn model_refusal(m: DeclaredModel, code: Seq<char>) -> Seq<char> {
    "invalid or duplicate model "@ + m.model_id@ + " for provider "@ + code
}

fn declared_before(models: &[DeclaredModel], i: usize) -> (r: bool)
    requires
        i < models.len(),
    ensures
        r == (!(forall|j: int| 0 <= j < i ==> models@[j].id@ != models@[i as int].id@)
            || !(forall|j: int| 0 <= j < i ==> models@[j].model_id@ != models@[i as int].model_id@)),
{
    let mut j: usize = 0;
    while j < i
        invariant
            j <= i < models.len(),
            forall|q: int| 0 <= q < j ==> models@[q].id@ != models@[i as int].id@,
            forall|q: int| 0 <= q < j ==> models@[q].model_id@ != models@[i as int].model_id@,
        decreases i - j,
    {
        if str_eq(models[j].id.as_str(), models[i].id.as_str()) {
            assert(models@[j as int].id@ == models@[i as int].id@);
            return true;
        }
        if str_eq(models[j].model_id.as_str(), models[i].model_id.as_str()) {
            assert(models@[j as int].model_id@ == models@[i as int].model_id@);
            return true;
        }
        j = j + 1;
    }
    false
}

/// Checks the models a new provider `code` declares; the error names the
/// first model that does not belong to it or repeats an earlier one.
pub fn check_provider_models(code: &str, models: &[DeclaredModel]) -> (r: Result<(), String>)
    ensures
        match first_true(unacceptable_models(models@, code@)) {
            None => r is Ok,
            Some(i) => r matches Err(m) && m@ == model_refusal(models@[i], code@),
        },
{
    let ghost bad = unacceptable_models(models@, code@);
    let mut i: usize = 0;
    while i < models.len()
        invariant
            i <= models.len(),
            bad == unacceptable_models(models@, code@),
            forall|j: int| 0 <= j < i ==> !bad[j],
        decreases models.len() - i,
    {
        if !str_eq(models[i].provider_code.as_str(), code) || declared_before(models, i) {
            proof {
                lemma_first_true_unique(bad, i as int);
            }
            let mut m = owned("invalid or duplicate model ");
            m.append(models[i].model_id.as_str());
            m.append(" for provider ");
            m.append(code);
            return Err(m);
        }
        i = i + 1;
    }
    proof {
        lemma_first_true(bad);
    }
    Ok(())
}

pub open spec fn unknown_bound(known: Seq<String>, bound: Seq<String>) -> Seq<bool> {
    Seq::new(bound.len(), |k: int| !string_views(known).contains(bound[k]@))
}

/// The first model an agent is bound to that is not among the `known` model
/// ids, if any; binding it is refused as "AI model <id>" not found.
pub fn first_unknown_model(known: &[String], bound: &[String]) -> (r: Option<usize>)
    ensures
        match first_true(unknown_bound(known@, bound@)) {
            Some(k) => 0 <= k < bound.len() && r == Some(k as usize),
            None => r is None,
        },
{
    let ghost bad = unknown_bound(known@, bound@);
    let mut k: usize = 0;
    while k < bound.len()
        invariant
            k <= bound.len(),
            bad == unknown_bound(known@, bound@),
            forall|j: int| 0 <= j < k ==> !bad[j],
        decreases bound.len() - k,
    {
        if !crate::action::contains_string(known, &bound[k]) {
            proof {
                lemma_first_true_unique(bad, k as int);
            }
            return Some(k);
        }
        k = k + 1;
    }
    proof {
        lemma_first_true(bad);
    }
    None
}

/// The message of a binding to a model that does not exist.
pub fn unknown_model_message(model_id: &str) -> (r: String)
    ensures
        r@ == "AI model "@ + model_id@,
{
    let mut m = owned("AI model ");
    m.append(model_id);
    m
}

} // verus!
