//! The fee reserve: the transaction's running account of execution cost,
//! royalties, the upfront system loan, and the vault deposits locked to pay
//! for it all.

use vstd::prelude::*;
use crate::addressing::ObjectId;
use crate::decimal::Decimal;
use crate::receipt::AbortReason;
use crate::resources::LockedFungibleResource;

verus! {

/// Every amount the fee logic works with stays below this bound, so that
/// sums of a few of them cannot overflow the amount type.
pub const AMOUNT_BOUND: i128 = 0x1000000000000000000000000;

/// An error raised by the fee reserve.
#[derive(Debug, Clone, Copy, PartialEq, Eq, Structural, Hash)]
pub enum FeeReserveError {
    InsufficientBalance,
    Overflow,
    LimitExceeded,
    LoanRepaymentFailed,
    Abort(AbortReason),
}

/// An error raised by the costing module.
#[derive(Debug, Clone, Copy, PartialEq, Eq, Structural, Hash)]
pub enum CostingError {
    FeeReserveError(FeeReserveError),
}

/// The fee totals of a finished transaction, handed to finalization.
pub struct FeeSummary {
    /// What the execution itself cost.
    pub total_execution_cost_xrd: Decimal,
    /// What the royalties cost.
    pub total_royalty_cost_xrd: Decimal,
    /// Cost that could not be covered and is written off.
    pub total_bad_debt_xrd: Decimal,
    /// The fee deposits locked from vaults, oldest lock first, with the flag
    /// saying whether the lock was contingent (only charged on success).
    pub locked_fees: Vec<(ObjectId, LockedFungibleResource, bool)>,
}

impl FeeSummary {
    /// All amounts are within bounds, and the write-off never exceeds the
    /// total cost.
    pub open spec fn wf(&self) -> bool {
        &&& 0 <= self.total_execution_cost_xrd.units < AMOUNT_BOUND
        &&& 0 <= self.total_royalty_cost_xrd.units < AMOUNT_BOUND
        &&& 0 <= self.total_bad_debt_xrd.units
        &&& self.total_bad_debt_xrd.units <= self.total_execution_cost_xrd.units
        &&& forall|i: int|
            0 <= i < self.locked_fees@.len() ==> 0 <= (
            #[trigger] self.locked_fees@[i]).1.amount_units.units < AMOUNT_BOUND
    }
}

/// The transaction-wide fee reserve: it hands out an upfront loan, meters
/// cost against it, collects locked vault deposits, and must be fully repaid
/// before a transaction may commit.
pub struct SystemLoanFeeReserve {
    /// The part of the upfront loan not yet repaid.
    pub loan_balance: Decimal,
    /// The locked fee value available for repayment.
    pub xrd_balance: Decimal,
    /// The execution cost metered so far.
    pub execution_cost: Decimal,
    /// The royalty cost metered so far.
    pub royalty_cost: Decimal,
    /// The royalty credits owed, per recipient vault.
    pub royalty_payments: Vec<(ObjectId, Decimal)>,
    /// Cost written off as uncoverable.
    pub bad_debt: Decimal,
    /// The fee deposits locked from vaults, oldest lock first.
    pub locked_fees: Vec<(ObjectId, LockedFungibleResource, bool)>,
    /// A configured test hook: abort the transaction when loan repayment is
    /// attempted.
    pub abort_when_loan_repaid: bool,
}

impl SystemLoanFeeReserve {
    /// All amounts are within bounds.
    pub open spec fn wf(&self) -> bool {
        &&& 0 <= self.loan_balance.units < AMOUNT_BOUND
        &&& 0 <= self.xrd_balance.units < AMOUNT_BOUND
        &&& 0 <= self.execution_cost.units < AMOUNT_BOUND
        &&& 0 <= self.royalty_cost.units < AMOUNT_BOUND
        &&& 0 <= self.bad_debt.units
        &&& self.bad_debt.units <= self.execution_cost.units
        &&& forall|i: int|
            0 <= i < self.locked_fees@.len() ==> 0 <= (
            #[trigger] self.locked_fees@[i]).1.amount_units.units < AMOUNT_BOUND
    }

    /// A reserve with no loan, no cost and no locked fees.
    pub fn new() -> (r: SystemLoanFeeReserve)
        ensures
            r.wf(),
            r.loan_balance.units == 0,
            r.xrd_balance.units == 0,
            r.execution_cost.units == 0,
            r.royalty_cost.units == 0,
            r.royalty_payments@ == Seq::<(ObjectId, Decimal)>::empty(),
            r.bad_debt.units == 0,
            r.locked_fees@ == Seq::<(ObjectId, LockedFungibleResource, bool)>::empty(),
            !r.abort_when_loan_repaid,
    {
        SystemLoanFeeReserve {
            loan_balance: Decimal::zero(),
            xrd_balance: Decimal::zero(),
            execution_cost: Decimal::zero(),
            royalty_cost: Decimal::zero(),
            royalty_payments: Vec::new(),
            bad_debt: Decimal::zero(),
            locked_fees: Vec::new(),
            abort_when_loan_repaid: false,
        }
    }

    /// Tries to repay the whole outstanding loan from the locked fee value.
    pub fn repay_all(&mut self) -> (r: Result<(), FeeReserveError>)
        requires
            old(self).wf(),
        ensures
            final(self).wf(),
            match r {
                Ok(()) => {
                    &&& !old(self).abort_when_loan_repaid
                    &&& old(self).xrd_balance.units >= old(self).loan_balance.units
                    &&& final(self).loan_balance.units == 0
                    &&& final(self).xrd_balance.units == old(self).xrd_balance.units - old(
                        self,
                    ).loan_balance.units
                    &&& *final(self) == (SystemLoanFeeReserve {
                        loan_balance: final(self).loan_balance,
                        xrd_balance: final(self).xrd_balance,
                        ..*old(self)
                    })
                },
                Err(FeeReserveError::Abort(_)) => {
                    &&& old(self).abort_when_loan_repaid
                    &&& *final(self) == *old(self)
                },
                Err(FeeReserveError::LoanRepaymentFailed) => {
                    &&& !old(self).abort_when_loan_repaid
                    &&& old(self).xrd_balance.units < old(self).loan_balance.units
                    &&& *final(self) == *old(self)
                },
                Err(_) => false,
            },
    {
        if self.abort_when_loan_repaid {
            return Err(
                FeeReserveError::Abort(AbortReason::ConfiguredAbortTriggeredOnFeeLoanRepayment),
            );
        }
        if self.xrd_balance.lt(&self.loan_balance) {
            return Err(FeeReserveError::LoanRepaymentFailed);
        }
        self.xrd_balance = self.xrd_balance.sub(self.loan_balance);
        self.loan_balance = Decimal::zero();
        Ok(())
    }

    /// Whether the upfront loan has been fully repaid.
    pub fn fully_repaid(&self) -> (r: bool)
        ensures
            r == (self.loan_balance.units == 0),
    {
        self.loan_balance.is_zero()
    }

    /// The royalty credits owed, per recipient vault.
    pub fn royalty_cost(&self) -> (r: Vec<(ObjectId, Decimal)>)
        ensures
            r@ == self.royalty_payments@,
    {
        let n = self.royalty_payments.len();
        let mut r: Vec<(ObjectId, Decimal)> = Vec::new();
        let mut i: usize = 0;
        while i < n
            invariant
                n == self.royalty_payments@.len(),
                i <= n,
                r@ == self.royalty_payments@.take(i as int),
            decreases n - i,
        {
            r.push(self.royalty_payments[i]);
            proof {
                assert(r@ =~= self.royalty_payments@.take(i + 1));
            }
            i = i + 1;
        }
        proof {
            assert(r@ =~= self.royalty_payments@);
        }
        r
    }

    /// Rolls the metered royalties back: a failed execution pays none.
    pub fn revert_royalty(&mut self)
        requires
            old(self).wf(),
        ensures
            final(self).wf(),
            final(self).royalty_payments@ == Seq::<(ObjectId, Decimal)>::empty(),
            final(self).royalty_cost.units == 0,
            *final(self) == (SystemLoanFeeReserve {
                royalty_payments: final(self).royalty_payments,
                royalty_cost: final(self).royalty_cost,
                ..*old(self)
            }),
    {
        self.royalty_payments = Vec::new();
        self.royalty_cost = Decimal::zero();
        proof {
            assert(self.royalty_payments@ =~= Seq::<(ObjectId, Decimal)>::empty());
        }
    }

    /// Closes the reserve into the fee totals.
    pub fn finalize(self) -> (r: FeeSummary)
        requires
            self.wf(),
        ensures
            r.wf(),
            r.total_execution_cost_xrd == self.execution_cost,
            r.total_royalty_cost_xrd == self.royalty_cost,
            r.total_bad_debt_xrd == self.bad_debt,
            r.locked_fees@ == self.locked_fees@,
    {
        FeeSummary {
            total_execution_cost_xrd: self.execution_cost,
            total_royalty_cost_xrd: self.royalty_cost,
            total_bad_debt_xrd: self.bad_debt,
            locked_fees: self.locked_fees,
        }
    }
}

} // verus!
