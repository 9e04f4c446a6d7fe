//! The parse-outcome algebra: the result of one parse attempt, either a
//! produced value or an ordered list of accumulated failures, with the
//! left-biased alternative combination that merges failure lists.

use vstd::prelude::*;

verus! {

/// One reported mismatch: what went wrong and the zero-based grapheme offset
/// of the cursor at the point of the mismatch.
pub struct Failure {
    pub message: String,
    pub position: usize,
}

/// The mathematical model of a `Failure`: the message's characters and the
/// offset as an unbounded integer.
#[verifier::ext_equal]
pub struct FailureModel {
    pub message: Seq<char>,
    pub position: int,
}

impl View for Failure {
    type V = FailureModel;

    open spec fn view(&self) -> FailureModel {
        FailureModel { message: self.message@, position: self.position as int }
    }
}

/// The outcome of one parse attempt. `value` is present only on success;
/// `failures` records every mismatch encountered, in the order encountered,
/// and is empty exactly when the outcome is a failure-free success.
pub struct ParseOutcome<T> {
    value: Option<T>,
    failures: Vec<Failure>,
}

/// The mathematical model of a `ParseOutcome`: an optional value and the
/// sequence of failure records, in the order encountered.
#[verifier::ext_equal]
pub struct OutcomeModel<T> {
    pub value: Option<T>,
    pub failures: Seq<FailureModel>,
}

impl<T> OutcomeModel<T> {
    /// A model outcome is a failure exactly when it carries a failure record.
    pub open spec fn is_failure(self) -> bool {
        self.failures.len() > 0
    }

    /// The model of an outcome built by `success`.
    pub open spec fn succeeding(value: T) -> Self {
        OutcomeModel { value: Some(value), failures: Seq::empty() }
    }

    /// The model of an outcome built by `failure`.
    pub open spec fn failing(message: Seq<char>, position: int) -> Self {
        OutcomeModel {
            value: None,
            failures: seq![(FailureModel { message, position })],
        }
    }

    /// The left-biased alternative combination: a non-failure left operand
    /// wins unchanged; a failing left operand falls back to the right; two
    /// failures merge into one valueless outcome whose failure list is the
    /// left list followed by the right list.
    pub open spec fn combine(self, other: Self) -> Self {
        if !self.is_failure() {
            self
        } else if !other.is_failure() {
            other
        } else {
            OutcomeModel { value: None, failures: self.failures + other.failures }
        }
    }
}

impl<T> View for ParseOutcome<T> {
    type V = OutcomeModel<T>;

    closed spec fn view(&self) -> OutcomeModel<T> {
        OutcomeModel {
            value: self.value,
            failures: self.failures@.map_values(|f: Failure| f@),
        }
    }
}

impl<T> ParseOutcome<T> {
    pub fn is_failure(&self) -> (r: bool)
        ensures
            r == self@.is_failure(),
    {
        self.failures.len() > 0
    }

    pub fn value(&self) -> (r: &Option<T>)
        ensures
            *r == self@.value,
    {
        &self.value
    }

    pub fn get_failures(&self) -> (r: &Vec<Failure>)
        ensures
            r@.map_values(|f: Failure| f@) == self@.failures,
            r@.len() == self@.failures.len(),
            forall|i: int| 0 <= i < r@.len() ==> r@[i]@ == self@.failures[i],
    {
        &self.failures
    }

    /// Combine the outcomes of two ordered alternatives: first success wins,
    /// failures accumulate.
    pub fn combine(self, other: Self) -> (r: Self)
        ensures
            r@ == self@.combine(other@),
    {
        if self.is_failure() {
            if other.is_failure() {
                let ParseOutcome { value: _, failures: mut merged } = self;
                let ParseOutcome { value: _, failures: mut right } = other;
                merged.append(&mut right);
                let r = ParseOutcome { value: None, failures: merged };
                proof {
                    assert(r@.failures =~= self@.failures + other@.failures);
                    assert(r@ =~= self@.combine(other@));
                }
                r
            } else {
                other
            }
        } else {
            self
        }
    }

    /// Apply `mapping` to the produced value, if one is present, keeping the
    /// failure list; an outcome without a value passes through unchanged.
    /// A mapping here is a total function, so the half-mapped state that a
    /// failing mapping would leave behind cannot arise.
    pub fn map_value<U, F: Fn(T) -> U>(self, mapping: F) -> (r: ParseOutcome<U>)
        requires
            forall|v: T| self@.value == Some(v) ==> call_requires(mapping, (v,)),
        ensures
            r@.failures == self@.failures,
            self@.value is None ==> r@.value is None,
            forall|v: T|
                self@.value == Some(v) ==> (r@.value matches Some(w) && call_ensures(
                    mapping,
                    (v,),
                    w,
                )),
    {
        let ParseOutcome { value, failures } = self;
        match value {
            Some(v) => ParseOutcome { value: Some(mapping(v)), failures },
            None => ParseOutcome { value: None, failures },
        }
    }
}

/// An outcome that succeeded with `value` and reports no failures.
pub fn success<T>(value: T) -> (r: ParseOutcome<T>)
    ensures
        r@ == OutcomeModel::succeeding(value),
        !r@.is_failure(),
        r@.value == Some(value),
{
    let r = ParseOutcome { value: Some(value), failures: Vec::new() };
    proof {
        assert(r@ =~= OutcomeModel::succeeding(value));
    }
    r
}

/// An outcome that failed with a single failure record built from `message`
/// and `position`, and carries no value.
pub fn failure<T>(message: String, position: usize) -> (r: ParseOutcome<T>)
    ensures
        r@ == OutcomeModel::<T>::failing(message@, position as int),
        r@.is_failure(),
        r@.value is None,
{
    let mut failures: Vec<Failure> = Vec::new();
    failures.push(Failure { message, position });
    let r = ParseOutcome { value: None, failures };
    proof {
        assert(r@.failures =~= OutcomeModel::<T>::failing(message@, position as int).failures);
        assert(r@ =~= OutcomeModel::failing(message@, position as int));
    }
    r
}

/// Combination identity: a successful left operand combines to itself; the
/// right operand is never consulted for its value.
pub proof fn lemma_combine_success_identity<T>(a: OutcomeModel<T>, b: OutcomeModel<T>)
    requires
        !a.is_failure(),
    ensures
        a.combine(b) == a,
{
}

/// Combination right-fallback: a failing left operand combines with a
/// non-failing right operand to that right operand.
pub proof fn lemma_combine_right_fallback<T>(a: OutcomeModel<T>, b: OutcomeModel<T>)
    requires
        a.is_failure(),
        !b.is_failure(),
    ensures
        a.combine(b) == b,
{
}

/// Combination merge: two failing outcomes combine to a valueless failure
/// outcome whose failure list is the left operand's failures followed by the
/// right operand's, in that order.
pub proof fn lemma_combine_merge<T>(a: OutcomeModel<T>, b: OutcomeModel<T>)
    requires
        a.is_failure(),
        b.is_failure(),
    ensures
        a.combine(b).value is None,
        a.combine(b).failures == a.failures + b.failures,
        a.combine(b).is_failure(),
{
}

} // verus!

