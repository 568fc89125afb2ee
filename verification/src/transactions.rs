//! Transaction records, the legality rules that consult the per-client funds
//! table and the transaction ledger, and the replay engine that folds an
//! ordered sequence of records into final balances.
//!
//! Two deliberate policies. An under-funded withdrawal is not rejected: it
//! is applied as a clamped no-op and still counts as processed, ledger entry
//! included. And the dispute model lets `held` accumulate across several
//! concurrently disputed transactions: a resolve or chargeback is legal
//! whenever the account is `Disputed` and the named transaction has a ledger
//! entry for that same client.

use std::collections::HashMap;

use vstd::prelude::*;

use crate::amount::Amount;
use crate::funds::{
    spec_chargeback, spec_deposit, spec_dispute, spec_resolve, spec_withdraw, FundingStates, Funds,
};

verus! {

broadcast use vstd::std_specs::hash::group_hash_axioms;

/// The kind of one input row.
#[derive(Debug, PartialEq, Eq, Structural, Clone, Copy, Hash)]
pub enum TxType {
    Deposit,
    Withdrawal,
    Dispute,
    Resolve,
    Chargeback,
}

/// A transaction id: unique among deposit and withdrawal rows, and
/// re-referenced (never re-issued) by dispute, resolve and chargeback rows.
#[derive(Debug, PartialEq, Eq, Structural, Clone, Copy, Hash)]
pub struct Tx(pub u32);

/// A client id.
#[derive(Debug, PartialEq, Eq, Structural, Clone, Copy, Hash)]
pub struct Client(pub u16);

/// One normalized input row. Dispute, resolve and chargeback rows carry no
/// amount of their own: they only reference a prior transaction.
#[derive(Debug, PartialEq, Eq, Clone, Copy)]
pub struct TransactionRecord {
    pub tx_type: TxType,
    pub amount: Option<Amount>,
    pub tx: Tx,
    pub client: Client,
}

/// The ledger entry for a deposit or withdrawal that was validated and
/// applied; later disputes take their amount from here, never from the
/// dispute row itself.
#[derive(Debug, PartialEq, Eq, Structural, Clone, Copy)]
pub struct ProcessedRecord {
    pub tx_type: TxType,
    pub amount: Amount,
    pub tx: Tx,
    pub client: Client,
}

/// The per-client funds table, keyed by the client id.
pub type ClientFunds = HashMap<u16, Funds>;

/// The transaction ledger: the last retained deposit or withdrawal for each
/// transaction id.
pub type TxRecords = HashMap<u32, ProcessedRecord>;

/// The value behind an optional reference.
pub open spec fn opt_deref<T>(o: Option<&T>) -> Option<T> {
    match o {
        Some(x) => Some(*x),
        None => None,
    }
}

/// A deposit is legal iff it carries an amount and the client's account, if
/// it already exists, is not frozen; a first deposit creates the account.
pub open spec fn spec_valid_deposit(client: Option<Funds>, record: TransactionRecord) -> bool {
    &&& record.tx_type is Deposit
    &&& record.amount is Some
    &&& (client matches Some(f) ==> f.state !is Frozen)
}

/// A withdrawal is legal iff it carries an amount and the client already has
/// an account that is not frozen.
pub open spec fn spec_valid_withdrawal(client: Option<Funds>, record: TransactionRecord) -> bool {
    &&& record.tx_type is Withdrawal
    &&& record.amount is Some
    &&& client matches Some(f) && f.state !is Frozen
}

/// A dispute is legal iff the client has an account that is not frozen and
/// the referenced transaction has a ledger entry for that same client.
pub open spec fn spec_valid_dispute(
    client: Option<Funds>,
    record: Option<TransactionRecord>,
    previous: Option<ProcessedRecord>,
) -> bool {
    &&& client matches Some(f) && f.state !is Frozen
    &&& record matches Some(r) && r.tx_type is Dispute
    &&& previous matches Some(p) && record matches Some(r) && p.tx == r.tx && p.client == r.client
}

/// A resolve is legal iff the client's account is exactly `Disputed` and the
/// referenced transaction has a ledger entry for that same client.
pub open spec fn spec_valid_resolve(
    client: Option<Funds>,
    record: Option<TransactionRecord>,
    previous: Option<ProcessedRecord>,
) -> bool {
    &&& client matches Some(f) && f.state is Disputed
    &&& record matches Some(r) && r.tx_type is Resolve
    &&& previous matches Some(p) && record matches Some(r) && p.tx == r.tx && p.client == r.client
}

/// A chargeback is legal iff the client's account is exactly `Disputed` and
/// the referenced transaction has a ledger entry for that same client.
pub open spec fn spec_valid_chargeback(
    client: Option<Funds>,
    record: Option<TransactionRecord>,
    previous: Option<ProcessedRecord>,
) -> bool {
    &&& client matches Some(f) && f.state is Disputed
    &&& record matches Some(r) && r.tx_type is Chargeback
    &&& previous matches Some(p) && record matches Some(r) && p.tx == r.tx && p.client == r.client
}

/// Decide whether a deposit row may be applied.
pub fn valid_deposit(client: Option<&Funds>, record: &TransactionRecord) -> (r: bool)
    ensures
        r == spec_valid_deposit(opt_deref(client), *record),
{
    match (record.tx_type, client, record.amount) {
        (TxType::Deposit, Some(n), Some(_)) => n.state != crate::funds::FundingStates::Frozen,
        (TxType::Deposit, None, Some(_)) => true,
        _ => false,
    }
}

/// Decide whether a withdrawal row may be applied.
pub fn valid_withdrawal(client: Option<&Funds>, record: &TransactionRecord) -> (r: bool)
    ensures
        r == spec_valid_withdrawal(opt_deref(client), *record),
{
    match (record.tx_type, client, record.amount) {
        (TxType::Withdrawal, Some(n), Some(_)) => n.state != crate::funds::FundingStates::Frozen,
        _ => false,
    }
}

/// Decide whether a dispute row may be applied.
pub fn valid_dispute(
    client: Option<&Funds>,
    record: Option<&TransactionRecord>,
    previous_record: Option<&ProcessedRecord>,
) -> (r: bool)
    ensures
        r == spec_valid_dispute(opt_deref(client), opt_deref(record), opt_deref(previous_record)),
{
    if let (Some(fund), Some(tx_record), Some(previous)) = (client, record, previous_record) {
        match tx_record.tx_type {
            TxType::Dispute => crate::funds::not_frozen(fund) && tx_record.tx == previous.tx
                && tx_record.client == previous.client,
            _ => false,
        }
    } else {
        false
    }
}

/// Decide whether a resolve row may be applied.
pub fn valid_resolve(
    client: Option<&Funds>,
    record: Option<&TransactionRecord>,
    previous_record: Option<&ProcessedRecord>,
) -> (r: bool)
    ensures
        r == spec_valid_resolve(opt_deref(client), opt_deref(record), opt_deref(previous_record)),
{
    if let (Some(fund), Some(tx_record), Some(previous)) = (client, record, previous_record) {
        match (fund.state, tx_record.tx_type) {
            (crate::funds::FundingStates::Disputed, TxType::Resolve) => tx_record.tx == previous.tx
                && tx_record.client == previous.client,
            _ => false,
        }
    } else {
        false
    }
}

/// Decide whether a chargeback row may be applied.
pub fn valid_chargeback(
    client: Option<&Funds>,
    record: Option<&TransactionRecord>,
    previous_record: Option<&ProcessedRecord>,
) -> (r: bool)
    ensures
        r == spec_valid_chargeback(
            opt_deref(client),
            opt_deref(record),
            opt_deref(previous_record),
        ),
{
    if let (Some(fund), Some(tx_record), Some(previous)) = (client, record, previous_record) {
        match (fund.state, tx_record.tx_type) {
            (crate::funds::FundingStates::Disputed, TxType::Chargeback) => tx_record.tx
                == previous.tx && tx_record.client == previous.client,
            _ => false,
        }
    } else {
        false
    }
}

/// The client's funds as the engine sees them: `None` until a first valid
/// deposit creates the account.
pub open spec fn map_funds_opt(funds: Map<u16, Funds>, client: Client) -> Option<Funds> {
    if funds.contains_key(client.0) {
        Some(funds[client.0])
    } else {
        None
    }
}

/// The ledger entry referenced by a transaction id, if there is one.
pub open spec fn map_prev_opt(ledger: Map<u32, ProcessedRecord>, tx: Tx) -> Option<ProcessedRecord> {
    if ledger.contains_key(tx.0) {
        Some(ledger[tx.0])
    } else {
        None
    }
}

/// A freshly created account: empty balances, `Valid` state.
pub open spec fn new_funds(client: Client) -> Funds {
    Funds { held: Amount(0), available: Amount(0), client, state: FundingStates::Valid }
}

/// The account a deposit applies to: the existing one, or a fresh one when
/// the deposit is the client's first.
pub open spec fn base_funds(client: Option<Funds>, id: Client) -> Funds {
    match client {
        Some(f) => f,
        None => new_funds(id),
    }
}

/// The ledger entry written for a validated deposit or withdrawal.
pub open spec fn processed_of(record: TransactionRecord) -> ProcessedRecord {
    ProcessedRecord {
        tx_type: record.tx_type,
        amount: record.amount->0,
        tx: record.tx,
        client: record.client,
    }
}

/// The engine's step: what one record does to the funds table and the
/// ledger. An illegal record leaves both untouched; a legal deposit or
/// withdrawal is applied and recorded in the ledger; a legal dispute,
/// resolve or chargeback is applied with the amount stored on the original
/// ledger entry and writes nothing to the ledger.
pub open spec fn spec_transact(
    funds: Map<u16, Funds>,
    ledger: Map<u32, ProcessedRecord>,
    r: TransactionRecord,
) -> (Map<u16, Funds>, Map<u32, ProcessedRecord>) {
    let client = map_funds_opt(funds, r.client);
    let previous = map_prev_opt(ledger, r.tx);
    match r.tx_type {
        TxType::Deposit => if spec_valid_deposit(client, r) {
            (
                funds.insert(r.client.0, spec_deposit(base_funds(client, r.client), r.amount->0)),
                ledger.insert(r.tx.0, processed_of(r)),
            )
        } else {
            (funds, ledger)
        },
        TxType::Withdrawal => if spec_valid_withdrawal(client, r) {
            (
                funds.insert(r.client.0, spec_withdraw(client->0, r.amount->0)),
                ledger.insert(r.tx.0, processed_of(r)),
            )
        } else {
            (funds, ledger)
        },
        TxType::Dispute => if spec_valid_dispute(client, Some(r), previous) {
            (funds.insert(r.client.0, spec_dispute(client->0, previous->0.amount)), ledger)
        } else {
            (funds, ledger)
        },
        TxType::Resolve => if spec_valid_resolve(client, Some(r), previous) {
            (funds.insert(r.client.0, spec_resolve(client->0, previous->0.amount)), ledger)
        } else {
            (funds, ledger)
        },
        TxType::Chargeback => if spec_valid_chargeback(client, Some(r), previous) {
            (funds.insert(r.client.0, spec_chargeback(client->0, previous->0.amount)), ledger)
        } else {
            (funds, ledger)
        },
    }
}

/// The machine-limit side condition for one step: the additions the step
/// performs on 64-bit counts stay in range. Amounts are domain-bounded, so
/// this is a bound the caller carries, not a rule of the design.
pub open spec fn spec_transact_fits(
    funds: Map<u16, Funds>,
    ledger: Map<u32, ProcessedRecord>,
    r: TransactionRecord,
) -> bool {
    let client = map_funds_opt(funds, r.client);
    let previous = map_prev_opt(ledger, r.tx);
    match r.tx_type {
        TxType::Deposit => spec_valid_deposit(client, r) ==> base_funds(
            client,
            r.client,
        ).available.0 + (r.amount->0).0 <= u64::MAX,
        TxType::Withdrawal => true,
        TxType::Dispute => spec_valid_dispute(client, Some(r), previous) ==> (client->0).held.0
            + (previous->0).amount.0 <= u64::MAX,
        TxType::Resolve => spec_valid_resolve(client, Some(r), previous) ==> (client->0).available.0
            + (previous->0).amount.0 <= u64::MAX,
        TxType::Chargeback => true,
    }
}

/// Validate one record against the funds table and the ledger and, when it
/// is legal, apply it. An illegal record is dropped: no mutation, no ledger
/// insertion, and the run continues.
pub fn transact(
    client_funds: &mut ClientFunds,
    records: &mut TxRecords,
    initial_record: &TransactionRecord,
)
    requires
        spec_transact_fits(old(client_funds)@, old(records)@, *initial_record),
    ensures
        final(client_funds)@ == spec_transact(
            old(client_funds)@,
            old(records)@,
            *initial_record,
        ).0,
        final(records)@ == spec_transact(old(client_funds)@, old(records)@, *initial_record).1,
{
    let previous: Option<ProcessedRecord> = match records.get(&initial_record.tx.0) {
        Some(p) => Some(*p),
        None => None,
    };
    let current: Option<Funds> = match client_funds.get(&initial_record.client.0) {
        Some(f) => Some(*f),
        None => None,
    };
    assert(current == map_funds_opt(client_funds@, initial_record.client));
    assert(previous == map_prev_opt(records@, initial_record.tx));
    match initial_record.tx_type {
        TxType::Deposit => {
            if valid_deposit(current.as_ref(), initial_record) {
                if let Some(amount) = initial_record.amount {
                    let mut f = match current {
                        Some(f) => f,
                        None => Funds {
                            held: Amount::zero(),
                            available: Amount::zero(),
                            client: initial_record.client,
                            state: FundingStates::Valid,
                        },
                    };
                    f.deposit(amount);
                    client_funds.insert(initial_record.client.0, f);
                    records.insert(
                        initial_record.tx.0,
                        ProcessedRecord {
                            tx_type: initial_record.tx_type,
                            amount,
                            tx: initial_record.tx,
                            client: initial_record.client,
                        },
                    );
                } else {
                    proof {
                        assert(false);
                    }
                }
            }
        },
        TxType::Withdrawal => {
            if valid_withdrawal(current.as_ref(), initial_record) {
                if let (Some(amount), Some(f0)) = (initial_record.amount, current) {
                    let mut f = f0;
                    f.withdraw(amount);
                    client_funds.insert(initial_record.client.0, f);
                    records.insert(
                        initial_record.tx.0,
                        ProcessedRecord {
                            tx_type: initial_record.tx_type,
                            amount,
                            tx: initial_record.tx,
                            client: initial_record.client,
                        },
                    );
                } else {
                    proof {
                        assert(false);
                    }
                }
            }
        },
        TxType::Dispute => {
            if valid_dispute(current.as_ref(), Some(initial_record), previous.as_ref()) {
                if let (Some(f0), Some(p)) = (current, previous) {
                    let mut f = f0;
                    f.dispute(p.amount);
                    client_funds.insert(initial_record.client.0, f);
                } else {
                    proof {
                        assert(false);
                    }
                }
            }
        },
        TxType::Resolve => {
            if valid_resolve(current.as_ref(), Some(initial_record), previous.as_ref()) {
                if let (Some(f0), Some(p)) = (current, previous) {
                    let mut f = f0;
                    f.resolve(p.amount);
                    client_funds.insert(initial_record.client.0, f);
                } else {
                    proof {
                        assert(false);
                    }
                }
            }
        },
        TxType::Chargeback => {
            if valid_chargeback(current.as_ref(), Some(initial_record), previous.as_ref()) {
                if let (Some(f0), Some(p)) = (current, previous) {
                    let mut f = f0;
                    f.chargeback(p.amount);
                    client_funds.insert(initial_record.client.0, f);
                } else {
                    proof {
                        assert(false);
                    }
                }
            }
        },
    }
}

/// The engine's fold: what an ordered sequence of records does to the funds
/// table and the ledger, applied strictly left to right.
pub open spec fn spec_process(
    funds: Map<u16, Funds>,
    ledger: Map<u32, ProcessedRecord>,
    rows: Seq<TransactionRecord>,
) -> (Map<u16, Funds>, Map<u32, ProcessedRecord>)
    decreases rows.len(),
{
    if rows.len() == 0 {
        (funds, ledger)
    } else {
        let step = spec_transact(funds, ledger, rows[0]);
        spec_process(step.0, step.1, rows.subrange(1, rows.len() as int))
    }
}

/// The machine-limit side condition for a whole run: every step's additions
/// stay in range, in the states the fold actually reaches.
pub open spec fn spec_process_fits(
    funds: Map<u16, Funds>,
    ledger: Map<u32, ProcessedRecord>,
    rows: Seq<TransactionRecord>,
) -> bool
    decreases rows.len(),
{
    if rows.len() == 0 {
        true
    } else {
        let step = spec_transact(funds, ledger, rows[0]);
        spec_transact_fits(funds, ledger, rows[0]) && spec_process_fits(
            step.0,
            step.1,
            rows.subrange(1, rows.len() as int),
        )
    }
}

/// Replay an ordered sequence of records from empty tables: a strict
/// left-to-right fold with no rollback and no re-ordering. The result holds
/// a funds entry for every client that ever made a valid deposit, and the
/// ledger entry for every applied deposit and withdrawal.
pub fn process(rows: &Vec<TransactionRecord>) -> (out: (ClientFunds, TxRecords))
    requires
        spec_process_fits(
            Map::<u16, Funds>::empty(),
            Map::<u32, ProcessedRecord>::empty(),
            rows@,
        ),
    ensures
        out.0@ == spec_process(
            Map::<u16, Funds>::empty(),
            Map::<u32, ProcessedRecord>::empty(),
            rows@,
        ).0,
        out.1@ == spec_process(
            Map::<u16, Funds>::empty(),
            Map::<u32, ProcessedRecord>::empty(),
            rows@,
        ).1,
{
    let mut funds: ClientFunds = HashMap::new();
    let mut ledger: TxRecords = HashMap::new();
    let ghost whole = spec_process(
        Map::<u16, Funds>::empty(),
        Map::<u32, ProcessedRecord>::empty(),
        rows@,
    );
    let mut i: usize = 0;
    proof {
        assert(rows@.subrange(0, rows@.len() as int) =~= rows@);
    }
    while i < rows.len()
        invariant
            i <= rows.len(),
            spec_process_fits(funds@, ledger@, rows@.subrange(i as int, rows@.len() as int)),
            spec_process(funds@, ledger@, rows@.subrange(i as int, rows@.len() as int)) == whole,
        decreases rows.len() - i,
    {
        let ghost rest = rows@.subrange(i as int, rows@.len() as int);
        proof {
            assert(rest[0] == rows@[i as int]);
            assert(rest.subrange(1, rest.len() as int) =~= rows@.subrange(
                i + 1,
                rows@.len() as int,
            ));
        }
        transact(&mut funds, &mut ledger, &rows[i]);
        i += 1;
    }
    proof {
        assert(rows@.subrange(rows@.len() as int, rows@.len() as int) =~= Seq::<
            TransactionRecord,
        >::empty());
    }
    (funds, ledger)
}

/// The shape the engine keeps its two tables in: every funds entry belongs
/// to the client it is keyed by, and every ledger entry is a deposit or a
/// withdrawal stored under its own transaction id — dispute, resolve and
/// chargeback records never become ledger entries.
pub open spec fn tables_well_formed(
    funds: Map<u16, Funds>,
    ledger: Map<u32, ProcessedRecord>,
) -> bool {
    &&& forall|c: u16| funds.contains_key(c) ==> (#[trigger] funds[c]).client.0 == c
    &&& forall|t: u32| ledger.contains_key(t) ==> (#[trigger] ledger[t]).tx.0 == t
    &&& forall|t: u32|
        ledger.contains_key(t) ==> ((#[trigger] ledger[t]).tx_type is Deposit
            || ledger[t].tx_type is Withdrawal)
}

/// One step keeps the tables well formed.
pub proof fn lemma_transact_preserves_well_formed(
    funds: Map<u16, Funds>,
    ledger: Map<u32, ProcessedRecord>,
    r: TransactionRecord,
)
    requires
        tables_well_formed(funds, ledger),
    ensures
        tables_well_formed(spec_transact(funds, ledger, r).0, spec_transact(funds, ledger, r).1),
{
}

/// A whole replay keeps the tables well formed; from empty tables they are
/// well formed throughout.
pub proof fn lemma_process_preserves_well_formed(
    funds: Map<u16, Funds>,
    ledger: Map<u32, ProcessedRecord>,
    rows: Seq<TransactionRecord>,
)
    requires
        tables_well_formed(funds, ledger),
    ensures
        tables_well_formed(
            spec_process(funds, ledger, rows).0,
            spec_process(funds, ledger, rows).1,
        ),
    decreases rows.len(),
{
    if rows.len() > 0 {
        let step = spec_transact(funds, ledger, rows[0]);
        lemma_transact_preserves_well_formed(funds, ledger, rows[0]);
        lemma_process_preserves_well_formed(step.0, step.1, rows.subrange(1, rows.len() as int));
    }
}

/// A funds entry, once created, is never deleted by any record.
pub proof fn lemma_funds_entry_persists(
    funds: Map<u16, Funds>,
    ledger: Map<u32, ProcessedRecord>,
    r: TransactionRecord,
    c: u16,
)
    requires
        funds.contains_key(c),
    ensures
        spec_transact(funds, ledger, r).0.contains_key(c),
{
}

/// Only a valid deposit creates a funds entry, and only for its own client.
pub proof fn lemma_only_deposit_creates_entry(
    funds: Map<u16, Funds>,
    ledger: Map<u32, ProcessedRecord>,
    r: TransactionRecord,
    c: u16,
)
    requires
        !funds.contains_key(c),
        spec_transact(funds, ledger, r).0.contains_key(c),
    ensures
        r.tx_type is Deposit,
        r.amount is Some,
        r.client.0 == c,
{
}

/// A dispute, resolve or chargeback that references a transaction with no
/// prior ledger entry for that same client is rejected: it mutates nothing
/// and creates no funds entry.
pub proof fn lemma_unreferenced_tx_is_rejected(
    funds: Map<u16, Funds>,
    ledger: Map<u32, ProcessedRecord>,
    r: TransactionRecord,
)
    requires
        r.tx_type is Dispute || r.tx_type is Resolve || r.tx_type is Chargeback,
        !(ledger.contains_key(r.tx.0) && ledger[r.tx.0].client == r.client),
    ensures
        spec_transact(funds, ledger, r) == (funds, ledger),
{
}

/// Once an account is frozen, every later record for that client is a no-op
/// that leaves the funds table and the ledger unchanged.
pub proof fn lemma_frozen_client_is_inert(
    funds: Map<u16, Funds>,
    ledger: Map<u32, ProcessedRecord>,
    r: TransactionRecord,
)
    requires
        funds.contains_key(r.client.0),
        funds[r.client.0].state is Frozen,
    ensures
        spec_transact(funds, ledger, r) == (funds, ledger),
{
}

/// A frozen account survives any one record untouched, whatever client the
/// record names.
pub proof fn lemma_frozen_entry_is_preserved(
    funds: Map<u16, Funds>,
    ledger: Map<u32, ProcessedRecord>,
    r: TransactionRecord,
    c: u16,
)
    requires
        funds.contains_key(c),
        funds[c].state is Frozen,
    ensures
        spec_transact(funds, ledger, r).0.contains_key(c),
        spec_transact(funds, ledger, r).0[c] == funds[c],
{
    if r.client.0 == c {
        lemma_frozen_client_is_inert(funds, ledger, r);
    }
}

/// Once an account is frozen, no later sequence of records moves it: its
/// balances and state are the same after any further replay.
pub proof fn lemma_frozen_entry_survives_replay(
    funds: Map<u16, Funds>,
    ledger: Map<u32, ProcessedRecord>,
    rows: Seq<TransactionRecord>,
    c: u16,
)
    requires
        funds.contains_key(c),
        funds[c].state is Frozen,
    ensures
        spec_process(funds, ledger, rows).0.contains_key(c),
        spec_process(funds, ledger, rows).0[c] == funds[c],
    decreases rows.len(),
{
    if rows.len() > 0 {
        let step = spec_transact(funds, ledger, rows[0]);
        lemma_frozen_entry_is_preserved(funds, ledger, rows[0], c);
        lemma_frozen_entry_survives_replay(step.0, step.1, rows.subrange(1, rows.len() as int), c);
    }
}

/// A legal chargeback freezes the account: it takes the original amount out
/// of held (clamped) and the resulting state is `Frozen`, whatever remains
/// held; the ledger is untouched.
pub proof fn lemma_chargeback_freezes(
    funds: Map<u16, Funds>,
    ledger: Map<u32, ProcessedRecord>,
    r: TransactionRecord,
)
    requires
        r.tx_type is Chargeback,
        spec_valid_chargeback(map_funds_opt(funds, r.client), Some(r), map_prev_opt(ledger, r.tx)),
    ensures
        spec_transact(funds, ledger, r).1 == ledger,
        spec_transact(funds, ledger, r).0 == funds.insert(
            r.client.0,
            spec_chargeback(funds[r.client.0], ledger[r.tx.0].amount),
        ),
        spec_transact(funds, ledger, r).0[r.client.0].state is Frozen,
        spec_transact(funds, ledger, r).0[r.client.0].held == crate::amount::spec_sub(
            funds[r.client.0].held,
            ledger[r.tx.0].amount,
        ),
{
}

/// A legal dispute moves the original amount from available to held: held
/// grows by that amount, available shrinks by it under the clamped policy,
/// and the state is `Disputed` exactly while something is held.
pub proof fn lemma_dispute_moves_amount(
    funds: Map<u16, Funds>,
    ledger: Map<u32, ProcessedRecord>,
    r: TransactionRecord,
)
    requires
        r.tx_type is Dispute,
        spec_valid_dispute(map_funds_opt(funds, r.client), Some(r), map_prev_opt(ledger, r.tx)),
        funds[r.client.0].held.0 + ledger[r.tx.0].amount.0 <= u64::MAX,
    ensures
        spec_transact(funds, ledger, r).1 == ledger,
        spec_transact(funds, ledger, r).0[r.client.0].held.0 == funds[r.client.0].held.0
            + ledger[r.tx.0].amount.0,
        spec_transact(funds, ledger, r).0[r.client.0].available == crate::amount::spec_sub(
            funds[r.client.0].available,
            ledger[r.tx.0].amount,
        ),
        spec_transact(funds, ledger, r).0[r.client.0].state is Disputed <==> funds[r.client.0].held.0
            + ledger[r.tx.0].amount.0 > 0,
{
}

/// A legal resolve restores the original amount to available, reduces held
/// toward zero under the clamped policy, and returns the state to `Valid`
/// exactly once nothing is held any more.
pub proof fn lemma_resolve_restores_amount(
    funds: Map<u16, Funds>,
    ledger: Map<u32, ProcessedRecord>,
    r: TransactionRecord,
)
    requires
        r.tx_type is Resolve,
        spec_valid_resolve(map_funds_opt(funds, r.client), Some(r), map_prev_opt(ledger, r.tx)),
        funds[r.client.0].available.0 + ledger[r.tx.0].amount.0 <= u64::MAX,
    ensures
        spec_transact(funds, ledger, r).1 == ledger,
        spec_transact(funds, ledger, r).0[r.client.0].available.0 == funds[r.client.0].available.0
            + ledger[r.tx.0].amount.0,
        spec_transact(funds, ledger, r).0[r.client.0].held == crate::amount::spec_sub(
            funds[r.client.0].held,
            ledger[r.tx.0].amount,
        ),
        spec_transact(funds, ledger, r).0[r.client.0].state is Valid <==> crate::amount::spec_sub(
            funds[r.client.0].held,
            ledger[r.tx.0].amount,
        ).0 == 0,
{
}

/// A first deposit followed by a within-limit withdrawal for the same client
/// leaves exactly the difference available, nothing held, and the account
/// `Valid`.
pub proof fn lemma_deposit_then_withdraw(
    funds: Map<u16, Funds>,
    ledger: Map<u32, ProcessedRecord>,
    d: TransactionRecord,
    w: TransactionRecord,
)
    requires
        !funds.contains_key(d.client.0),
        d.tx_type is Deposit,
        d.amount is Some,
        w.tx_type is Withdrawal,
        w.amount is Some,
        w.client == d.client,
        (w.amount->0).0 <= (d.amount->0).0,
    ensures
        spec_process(funds, ledger, seq![d, w]).0.contains_key(d.client.0),
        spec_process(funds, ledger, seq![d, w]).0[d.client.0].available.0 == (d.amount->0).0
            - (w.amount->0).0,
        spec_process(funds, ledger, seq![d, w]).0[d.client.0].held.0 == 0,
        spec_process(funds, ledger, seq![d, w]).0[d.client.0].state is Valid,
{
    let rows = seq![d, w];
    let step1 = spec_transact(funds, ledger, d);
    assert(rows.len() == 2 && rows[0] == d && rows[1] == w);
    assert(rows.subrange(1, 2) =~= seq![w]);
    let step2 = spec_transact(step1.0, step1.1, w);
    assert(seq![w].subrange(1, 1) =~= Seq::<TransactionRecord>::empty());
    assert(spec_process(funds, ledger, rows) == spec_process(step1.0, step1.1, seq![w]));
    assert(spec_process(step1.0, step1.1, seq![w]) == spec_process(
        step2.0,
        step2.1,
        Seq::<TransactionRecord>::empty(),
    ));
    assert(spec_process(funds, ledger, rows) == step2);
}

} // verus!
