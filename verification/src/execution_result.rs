//! The outcome of a deploy, and how the outcomes of its phases become one.

use vstd::prelude::*;

use crate::assoc::{assoc_insert, AssocList, Duplicate};
use crate::error::Error;
use crate::execution_effect::{ExecutionEffect, ExecutionEffectView};
use crate::key::Key;
use crate::op::Op;
use crate::transform::{Transform, TransformView};
use crate::u512::U512;
use crate::value::{NumKind, Value, ValueView};

verus! {

/// The outcome of a deploy or of one of its phases.
#[derive(Debug, PartialEq, Eq)]
pub struct ExecutionResult {
    /// What was done to global state.
    pub effect: ExecutionEffect,
    /// The gas that was spent.
    pub cost: u64,
    /// Why it failed, if it did.
    pub error: Option<Error>,
}

/// The mathematical value of an outcome.
pub struct ExecutionResultView {
    pub effect: ExecutionEffectView,
    pub cost: u64,
    pub error: Option<Error>,
}

impl ExecutionResultView {
    /// The outcome of a deploy that was turned down before any code ran:
    /// nothing done, nothing spent.
    pub open spec fn precondition_failure(error: Error) -> ExecutionResultView {
        ExecutionResultView { effect: ExecutionEffectView::empty(), cost: 0, error: Some(error) }
    }
}

impl View for ExecutionResult {
    type V = ExecutionResultView;

    open spec fn view(&self) -> ExecutionResultView {
        ExecutionResultView { effect: self.effect@, cost: self.cost, error: self.error }
    }
}

impl ExecutionResult {
    /// The outcome of code that ran to its end.
    pub fn success(effect: ExecutionEffect, cost: u64) -> (r: Self)
        ensures
            r@ == (ExecutionResultView { effect: effect@, cost, error: None }),
    {
        ExecutionResult { effect, cost, error: None }
    }

    /// The outcome of code that failed.
    pub fn failure(error: Error, effect: ExecutionEffect, cost: u64) -> (r: Self)
        ensures
            r@ == (ExecutionResultView { effect: effect@, cost, error: Some(error) }),
    {
        ExecutionResult { effect, cost, error: Some(error) }
    }

    /// The outcome of a deploy that was turned down before any code ran.
    pub fn precondition_failure(error: Error) -> (r: Self)
        ensures
            r@ == ExecutionResultView::precondition_failure(error),
    {
        ExecutionResult { effect: ExecutionEffect::empty(), cost: 0, error: Some(error) }
    }

    /// Whether the code ran to its end.
    pub fn is_success(&self) -> (r: bool)
        ensures
            r == self@.error.is_none(),
    {
        self.error.is_none()
    }

    /// Whether the code failed.
    pub fn is_failure(&self) -> (r: bool)
        ensures
            r == self@.error.is_some(),
    {
        self.error.is_some()
    }

    /// The gas that was spent.
    pub fn cost(&self) -> (r: u64)
        ensures
            r == self@.cost,
    {
        self.cost
    }

    /// What was done to global state.
    pub fn effect(&self) -> (r: &ExecutionEffect)
        ensures
            r@ == self@.effect,
    {
        &self.effect
    }

    /// Why it failed, if it did.
    pub fn error(&self) -> (r: Option<Error>)
        ensures
            r == self@.error,
    {
        self.error
    }

    /// The same outcome with another cost.
    pub fn with_cost(self, cost: u64) -> (r: Self)
        ensures
            r@ == (ExecutionResultView { cost, ..self@ }),
    {
        ExecutionResult { effect: self.effect, cost, error: self.error }
    }

    /// The same outcome with another effect.
    pub fn with_effect(self, effect: ExecutionEffect) -> (r: Self)
        ensures
            r@ == (ExecutionResultView { effect: effect@, ..self@ }),
    {
        ExecutionResult { effect, cost: self.cost, error: self.error }
    }
}

impl Duplicate for ExecutionResult {
    fn duplicate(&self) -> (r: Self) {
        ExecutionResult { effect: self.effect.duplicate(), cost: self.cost, error: self.error }
    }
}

impl Clone for ExecutionResult {
    fn clone(&self) -> (r: Self)
        ensures
            r@ == self@,
    {
        self.duplicate()
    }
}

/// What a builder lacks when it is asked for the outcome too early.
#[derive(Clone, Copy, Debug, PartialEq, Eq, Structural)]
pub enum ExecutionResultBuilderError {
    MissingPaymentExecutionResult,
    MissingFinalizeExecutionResult,
}

/// Whether a deploy must be charged by force after its payment code ran: the
/// payment code failed, or it left less in the payment purse than the amount
/// that is asked for.
pub open spec fn forced_transfer_due(
    payment: ExecutionResultView,
    max_payment_cost: nat,
    payment_purse_balance: nat,
) -> bool {
    payment.error.is_some() || payment_purse_balance < max_payment_cost
}

/// The outcome of a deploy that is charged by force: the main purse is
/// written with its balance less the amount, the amount is added to the
/// rewards purse, and nothing else is done. Both keys stand in their stored
/// form. The cost is that of the payment
/// code, and so is the error, if it had one.
pub open spec fn forced_transfer_result(
    payment: ExecutionResultView,
    max_payment_cost: nat,
    account_main_purse_balance: nat,
    account_main_purse_balance_key: Key,
    rewards_purse_balance_key: Key,
) -> ExecutionResultView {
    ExecutionResultView {
        effect: ExecutionEffectView {
            ops: assoc_insert(
                assoc_insert(
                    Seq::empty(),
                    account_main_purse_balance_key.spec_normalize(),
                    Op::Write,
                ),
                rewards_purse_balance_key.spec_normalize(),
                Op::Add,
            ),
            transforms: assoc_insert(
                assoc_insert(
                    Seq::empty(),
                    account_main_purse_balance_key.spec_normalize(),
                    TransformView::Write(
                        ValueView::Num(
                            NumKind::U512,
                            account_main_purse_balance - max_payment_cost,
                        ),
                    ),
                ),
                rewards_purse_balance_key.spec_normalize(),
                TransformView::Add(NumKind::U512, max_payment_cost as int),
            ),
        },
        cost: payment.cost,
        error: Some(
            match payment.error {
                Some(error) => error,
                None => Error::InsufficientPaymentError,
            },
        ),
    }
}

/// The gas that payment and session code spent together; a sum beyond the
/// largest amount of gas counts as that amount.
pub open spec fn total_cost_of(
    payment: Option<ExecutionResultView>,
    session: Option<ExecutionResultView>,
) -> u64 {
    let sum = (match payment {
        Some(result) => result.cost as int,
        None => 0,
    }) + (match session {
        Some(result) => result.cost as int,
        None => 0,
    });
    if sum > u64::MAX {
        u64::MAX
    } else {
        sum as u64
    }
}

/// The effect of a phase as far as it counts: all of it where the phase went
/// well, nothing where it failed or did not run.
pub open spec fn counted_effect(phase: Option<ExecutionResultView>) -> ExecutionEffectView {
    match phase {
        Some(result) => if result.error.is_none() {
            result.effect
        } else {
            ExecutionEffectView::empty()
        },
        None => ExecutionEffectView::empty(),
    }
}

/// The error of a deploy whose three phases ran: that of the first phase
/// that failed. A failure to settle the payment is reported as such.
pub open spec fn first_error(
    payment: ExecutionResultView,
    session: Option<ExecutionResultView>,
    finalize: ExecutionResultView,
) -> Option<Error> {
    if payment.error.is_some() {
        payment.error
    } else if session.is_some() && session.unwrap().error.is_some() {
        session.unwrap().error
    } else if finalize.error.is_some() {
        Some(Error::FinalizationError)
    } else {
        None
    }
}

/// The outcome of a deploy whose phases ran: the effects of the phases that
/// went well, in order; the gas of payment and session; and the first error.
pub open spec fn assembled_result(
    payment: ExecutionResultView,
    session: Option<ExecutionResultView>,
    finalize: ExecutionResultView,
) -> ExecutionResultView {
    ExecutionResultView {
        effect: ExecutionEffectView::empty().merge(counted_effect(Some(payment))).merge(
            counted_effect(session),
        ).merge(counted_effect(Some(finalize))),
        cost: total_cost_of(Some(payment), session),
        error: first_error(payment, session, finalize),
    }
}

/// Gathers the outcomes of payment, session and finalization.
#[derive(Debug)]
pub struct ExecutionResultBuilder {
    payment_execution_result: Option<ExecutionResult>,
    session_execution_result: Option<ExecutionResult>,
    finalize_execution_result: Option<ExecutionResult>,
}

/// The mathematical value of a builder.
pub struct ExecutionResultBuilderView {
    pub payment: Option<ExecutionResultView>,
    pub session: Option<ExecutionResultView>,
    pub finalize: Option<ExecutionResultView>,
}

/// The mathematical value of an outcome that may be missing.
pub open spec fn option_view(result: Option<ExecutionResult>) -> Option<ExecutionResultView> {
    match result {
        Some(result) => Some(result@),
        None => None,
    }
}

impl View for ExecutionResultBuilder {
    type V = ExecutionResultBuilderView;

    closed spec fn view(&self) -> ExecutionResultBuilderView {
        ExecutionResultBuilderView {
            payment: option_view(self.payment_execution_result),
            session: option_view(self.session_execution_result),
            finalize: option_view(self.finalize_execution_result),
        }
    }
}

impl ExecutionResultBuilder {
    /// A builder that holds nothing yet.
    pub fn new() -> (r: Self)
        ensures
            r@ == (ExecutionResultBuilderView { payment: None, session: None, finalize: None }),
    {
        ExecutionResultBuilder {
            payment_execution_result: None,
            session_execution_result: None,
            finalize_execution_result: None,
        }
    }

    /// Takes the outcome of payment code, in place of an earlier one.
    pub fn set_payment_execution_result(&mut self, payment_result: ExecutionResult) -> (r: &mut Self)
        ensures
            r@ == (ExecutionResultBuilderView { payment: Some(payment_result@), ..old(self)@ }),
            *final(self) == *final(r),
    {
        self.payment_execution_result = Some(payment_result);
        self
    }

    /// Takes the outcome of session code, in place of an earlier one.
    pub fn set_session_execution_result(&mut self, session_result: ExecutionResult) -> (r: &mut Self)
        ensures
            r@ == (ExecutionResultBuilderView { session: Some(session_result@), ..old(self)@ }),
            *final(self) == *final(r),
    {
        self.session_execution_result = Some(session_result);
        self
    }

    /// Takes the outcome of finalization, in place of an earlier one.
    pub fn set_finalize_execution_result(
        &mut self,
        finalize_result: ExecutionResult,
    ) -> (r: &mut Self)
        ensures
            r@ == (ExecutionResultBuilderView { finalize: Some(finalize_result@), ..old(self)@ }),
            *final(self) == *final(r),
    {
        self.finalize_execution_result = Some(finalize_result);
        self
    }

    /// The gas that payment and session code spent together.
    pub fn total_cost(&self) -> (r: u64)
        ensures
            r == total_cost_of(self@.payment, self@.session),
    {
        let payment_cost = match &self.payment_execution_result {
            Some(result) => result.cost,
            None => 0,
        };
        let session_cost = match &self.session_execution_result {
            Some(result) => result.cost,
            None => 0,
        };
        payment_cost.saturating_add(session_cost)
    }

    /// Decides, once payment code has run, whether the deploy is charged by
    /// force, and gives the outcome of the deploy if it is.
    pub fn check_forced_transfer(
        &mut self,
        max_payment_cost: U512,
        account_main_purse_balance: U512,
        payment_purse_balance: U512,
        account_main_purse_balance_key: Key,
        rewards_purse_balance_key: Key,
    ) -> (r: Option<ExecutionResult>)
        requires
            account_main_purse_balance.value() >= max_payment_cost.value(),
        ensures
            *final(self) == *old(self),
            option_view(r) == match old(self)@.payment {
                Some(payment) => if forced_transfer_due(
                    payment,
                    max_payment_cost.value(),
                    payment_purse_balance.value(),
                ) {
                    Some(
                        forced_transfer_result(
                            payment,
                            max_payment_cost.value(),
                            account_main_purse_balance.value(),
                            account_main_purse_balance_key,
                            rewards_purse_balance_key,
                        ),
                    )
                } else {
                    None
                },
                None => None,
            },
    {
        let (payment_cost, payment_error) = match &self.payment_execution_result {
            Some(result) => (result.cost, result.error),
            None => {
                return None;
            },
        };
        if !(payment_error.is_some() || payment_purse_balance.lt(&max_payment_cost)) {
            return None;
        }
        let new_balance = match account_main_purse_balance.checked_sub(max_payment_cost) {
            Some(balance) => balance,
            None => account_main_purse_balance,
        };
        let mut ops: AssocList<Key, Op> = AssocList::new();
        let mut transforms: AssocList<Key, Transform> = AssocList::new();
        let main_key = account_main_purse_balance_key.normalize();
        let rewards_key = rewards_purse_balance_key.normalize();
        ops.insert(main_key, Op::Write);
        transforms.insert(main_key, Transform::Write(Value::UInt512(new_balance)));
        ops.insert(rewards_key, Op::Add);
        transforms.insert(rewards_key, Transform::AddInt512(max_payment_cost));
        let error = match payment_error {
            Some(error) => error,
            None => Error::InsufficientPaymentError,
        };
        Some(ExecutionResult::failure(error, ExecutionEffect::new(ops, transforms), payment_cost))
    }

    /// The outcome of the deploy, once payment and finalization have run.
    pub fn build(self) -> (r: Result<ExecutionResult, ExecutionResultBuilderError>)
        ensures
            match r {
                Ok(result) => self@.payment.is_some() && self@.finalize.is_some() && result@
                    == assembled_result(
                    self@.payment.unwrap(),
                    self@.session,
                    self@.finalize.unwrap(),
                ),
                Err(ExecutionResultBuilderError::MissingPaymentExecutionResult) => self@.payment.is_none(),
                Err(ExecutionResultBuilderError::MissingFinalizeExecutionResult) => self@.payment.is_some()
                    && self@.finalize.is_none(),
            },
    {
        let cost = self.total_cost();
        let payment = match self.payment_execution_result {
            Some(result) => result,
            None => {
                return Err(ExecutionResultBuilderError::MissingPaymentExecutionResult);
            },
        };
        let finalize = match self.finalize_execution_result {
            Some(result) => result,
            None => {
                return Err(ExecutionResultBuilderError::MissingFinalizeExecutionResult);
            },
        };
        let mut effect = ExecutionEffect::empty();
        let mut error: Option<Error> = None;
        if payment.error.is_some() {
            error = payment.error;
        } else {
            effect.absorb(&payment.effect);
        }
        proof {
            lemma_merge_empty(ExecutionEffectView::empty());
            lemma_merge_empty(effect@);
        }
        let ghost after_payment = effect@;
        match self.session_execution_result {
            Some(session) => {
                if session.error.is_some() {
                    if error.is_none() {
                        error = session.error;
                    }
                } else {
                    effect.absorb(&session.effect);
                }
            },
            None => {},
        }
        proof {
            lemma_merge_empty(effect@);
        }
        if finalize.error.is_some() {
            if error.is_none() {
                error = Some(Error::FinalizationError);
            }
        } else {
            effect.absorb(&finalize.effect);
        }
        Ok(ExecutionResult { effect, cost, error })
    }
}

/// An effect followed by nothing is the effect.
pub proof fn lemma_merge_empty(effect: ExecutionEffectView)
    ensures
        effect.merge(ExecutionEffectView::empty()) == effect,
{
}

/// Where payment code went well but left less in the payment purse than the
/// amount that is asked for, the deploy is charged by force: its outcome
/// holds the transfer of the amount from the main purse to the rewards purse
/// and nothing else, at the cost of the payment code, and says that the
/// payment was insufficient.
pub proof fn lemma_short_payment_forces_transfer(
    payment: ExecutionResultView,
    max_payment_cost: nat,
    account_main_purse_balance: nat,
    payment_purse_balance: nat,
    account_main_purse_balance_key: Key,
    rewards_purse_balance_key: Key,
)
    requires
        payment.error.is_none(),
        payment_purse_balance < max_payment_cost,
        account_main_purse_balance_key.spec_normalize()
            != rewards_purse_balance_key.spec_normalize(),
    ensures
        forced_transfer_due(payment, max_payment_cost, payment_purse_balance),
        ({
            let result = forced_transfer_result(
                payment,
                max_payment_cost,
                account_main_purse_balance,
                account_main_purse_balance_key,
                rewards_purse_balance_key,
            );
            &&& result.error == Some(Error::InsufficientPaymentError)
            &&& result.cost == payment.cost
            &&& result.effect.transforms == seq![
                (
                    account_main_purse_balance_key.spec_normalize(),
                    TransformView::Write(
                        ValueView::Num(
                            NumKind::U512,
                            account_main_purse_balance - max_payment_cost,
                        ),
                    ),
                ),
                (
                    rewards_purse_balance_key.spec_normalize(),
                    TransformView::Add(NumKind::U512, max_payment_cost as int),
                ),
            ]
        }),
{
    let main_key = account_main_purse_balance_key.spec_normalize();
    let rewards_key = rewards_purse_balance_key.spec_normalize();
    let write = TransformView::Write(
        ValueView::Num(NumKind::U512, account_main_purse_balance - max_payment_cost),
    );
    let first = assoc_insert(Seq::<(Key, TransformView)>::empty(), main_key, write);
    crate::assoc::lemma_assoc_absent(Seq::<(Key, TransformView)>::empty(), main_key);
    assert(first =~= seq![(main_key, write)]);
    crate::assoc::lemma_assoc_absent(first, rewards_key);
    let add = TransformView::Add(NumKind::U512, max_payment_cost as int);
    assert(assoc_insert(first, rewards_key, add) =~= seq![(main_key, write), (rewards_key, add)]);
}

} // verus!
