//! Replays an ordered sequence of per-client transaction records (deposit,
//! withdrawal, dispute, resolve, chargeback) and produces final per-client
//! balances.
//!
//! The crate is organised along its dependency order: fixed-point amounts
//! ([`amount`]), the per-client funds state machine ([`funds`]), and the
//! record validation and replay engine ([`transactions`]).

use vstd::prelude::*;

pub mod amount;
pub mod funds;
pub mod transactions;

use crate::amount::Amount;
use crate::funds::{Funds, FundingStates};
use crate::transactions::Client;

verus! {

/// Final balances reported for one client: the funds immediately usable,
/// the funds set aside by open disputes, their sum, and whether the account
/// has been frozen by a chargeback.
#[derive(Debug, PartialEq, Eq, Structural, Clone, Copy)]
pub struct Output {
    pub client: Client,
    pub available: Amount,
    pub held: Amount,
    pub total: Amount,
    pub locked: bool,
}

/// The final per-client report: available and held balances, their total,
/// and the locked flag, which is set exactly when the account is frozen.
pub fn snapshot(funds: &Funds) -> (o: Output)
    requires
        funds.available.0 + funds.held.0 <= u64::MAX,
    ensures
        o.client == funds.client,
        o.available == funds.available,
        o.held == funds.held,
        o.total.0 == funds.available.0 + funds.held.0,
        o.locked == (funds.state is Frozen),
{
    Output {
        client: funds.client,
        available: funds.available,
        held: funds.held,
        total: funds.total(),
        locked: match funds.state {
            FundingStates::Frozen => true,
            _ => false,
        },
    }
}

} // verus!
