//! The per-client funds state machine: an available balance, a held balance
//! set aside by open disputes, and a `Valid` / `Disputed` / `Frozen` state,
//! with one transition per operation.

use vstd::prelude::*;

use crate::amount::{spec_add, spec_sub, Amount};
use crate::transactions::Client;

verus! {

/// The state of a client's account. `Frozen` is a terminal sink: once it is
/// reached, every later operation on the account is a no-op.
#[derive(Debug, PartialEq, Eq, Structural, Clone, Copy)]
pub enum FundingStates {
    Valid,
    Disputed,
    Frozen,
}

/// A client's balances together with the account state.
#[derive(Debug, PartialEq, Eq, Structural, Clone, Copy)]
pub struct Funds {
    pub held: Amount,
    pub available: Amount,
    pub client: Client,
    pub state: FundingStates,
}

/// A deposit adds to the available balance, unless the account is frozen.
pub open spec fn spec_deposit(f: Funds, amount: Amount) -> Funds {
    if f.state is Frozen {
        f
    } else {
        Funds { available: spec_add(f.available, amount), ..f }
    }
}

/// A withdrawal takes from the available balance under the clamped
/// subtraction policy, unless the account is frozen.
pub open spec fn spec_withdraw(f: Funds, amount: Amount) -> Funds {
    if f.state is Frozen {
        f
    } else {
        Funds { available: spec_sub(f.available, amount), ..f }
    }
}

/// A dispute moves the disputed amount from available to held (clamped on
/// the available side) and leaves the account `Disputed` while anything is
/// held, unless the account is frozen.
pub open spec fn spec_dispute(f: Funds, amount: Amount) -> Funds {
    if f.state is Frozen {
        f
    } else {
        let held = spec_add(f.held, amount);
        Funds {
            held,
            available: spec_sub(f.available, amount),
            state: if held.0 > 0 {
                FundingStates::Disputed
            } else {
                FundingStates::Valid
            },
            ..f
        }
    }
}

/// A resolve returns the amount from held (clamped) to available and leaves
/// the account `Valid` once nothing is held; it applies only while the
/// account is `Disputed`.
pub open spec fn spec_resolve(f: Funds, amount: Amount) -> Funds {
    if f.state is Disputed {
        let held = spec_sub(f.held, amount);
        Funds {
            held,
            available: spec_add(f.available, amount),
            state: if held.0 > 0 {
                FundingStates::Disputed
            } else {
                FundingStates::Valid
            },
            ..f
        }
    } else {
        f
    }
}

/// A chargeback takes the amount out of held (clamped) and freezes the
/// account unconditionally; it applies only while the account is `Disputed`.
pub open spec fn spec_chargeback(f: Funds, amount: Amount) -> Funds {
    if f.state is Disputed {
        Funds { held: spec_sub(f.held, amount), state: FundingStates::Frozen, ..f }
    } else {
        f
    }
}

impl Funds {
    /// The total balance: available plus held.
    pub fn total(&self) -> (r: Amount)
        requires
            self.available.0 + self.held.0 <= u64::MAX,
        ensures
            r.0 == self.available.0 + self.held.0,
    {
        self.available.add(self.held)
    }

    /// Apply a deposit of `amount`.
    pub fn deposit(&mut self, amount: Amount)
        requires
            old(self).state !is Frozen ==> old(self).available.0 + amount.0 <= u64::MAX,
        ensures
            *final(self) == spec_deposit(*old(self), amount),
    {
        if not_frozen(self) {
            self.available = self.available.add(amount)
        }
    }

    /// Apply a withdrawal of `amount`; an under-funded withdrawal leaves the
    /// balance unchanged under the clamped subtraction policy.
    pub fn withdraw(&mut self, amount: Amount)
        ensures
            *final(self) == spec_withdraw(*old(self), amount),
    {
        if not_frozen(self) {
            self.available = self.available.sub(amount)
        }
    }

    /// Apply a dispute of `amount`.
    pub fn dispute(&mut self, amount: Amount)
        requires
            old(self).state !is Frozen ==> old(self).held.0 + amount.0 <= u64::MAX,
        ensures
            *final(self) == spec_dispute(*old(self), amount),
    {
        if not_frozen(self) {
            self.held = self.held.add(amount);
            self.available = self.available.sub(amount);
            self.update_dispute();
        }
    }

    /// Apply a resolve of `amount`.
    pub fn resolve(&mut self, amount: Amount)
        requires
            old(self).state is Disputed ==> old(self).available.0 + amount.0 <= u64::MAX,
        ensures
            *final(self) == spec_resolve(*old(self), amount),
    {
        if not_frozen(self) && self.state == FundingStates::Disputed {
            self.held = self.held.sub(amount);
            self.available = self.available.add(amount);
            self.update_dispute();
        }
    }

    /// Settle the state flag after a dispute or resolve: `Disputed` exactly
    /// while something is held.
    fn update_dispute(&mut self) -> (r: bool)
        ensures
            r == (old(self).held.0 > 0),
            final(self).held == old(self).held,
            final(self).available == old(self).available,
            final(self).client == old(self).client,
            final(self).state == if old(self).held.0 > 0 {
                FundingStates::Disputed
            } else {
                FundingStates::Valid
            },
    {
        if self.held.0 > 0 {
            self.state = FundingStates::Disputed;
            true
        } else {
            self.state = FundingStates::Valid;
            false
        }
    }

    /// Apply a chargeback of `amount`.
    pub fn chargeback(&mut self, amount: Amount)
        ensures
            *final(self) == spec_chargeback(*old(self), amount),
    {
        if not_frozen(self) && self.state == FundingStates::Disputed {
            self.held = self.held.sub(amount);
            self.state = FundingStates::Frozen;
        }
    }
}

/// Whether the account can still be operated on.
pub fn not_frozen(fund: &Funds) -> (r: bool)
    ensures
        r == (fund.state !is Frozen),
{
    fund.state != FundingStates::Frozen
}

} // verus!
