use payments::amount::Amount;
use payments::funds::{FundingStates, Funds};
use payments::transactions::Client;

#[test]
fn test_fund_total() {
    let mut fund = Funds {
        state: FundingStates::Disputed,
        available: Amount::new(1000),
        held: Amount::new(1000),
        client: Client(1),
    };
    assert_eq!(fund.total(), Amount::new(2000));
    fund.available = Amount::new(555);
    fund.held = Amount::new(0);
    assert_eq!(fund.total(), Amount::new(555));
}

#[test]
fn test_deposit() {
    let mut fund = Funds {
        state: FundingStates::Disputed,
        available: Amount::new(0),
        held: Amount::new(0),
        client: Client(1),
    };
    assert_eq!(fund.total(), Amount::new(0));
    fund.deposit(Amount::new(100));
    assert_eq!(fund.total(), Amount::new(100));
}

#[test]
fn test_withdrawal() {
    let mut fund = Funds {
        state: FundingStates::Disputed,
        available: Amount::new(0),
        held: Amount::new(0),
        client: Client(1),
    };
    assert_eq!(fund.total(), Amount::new(0));
    // withdraw some money thats beyond our 0 balance
    fund.withdraw(Amount::new(100));
    assert_eq!(fund.total(), Amount::new(0));

    fund.deposit(Amount::new(250));
    fund.withdraw(Amount::new(25));
    assert_eq!(fund.total(), Amount::new(225));
    assert_eq!(fund.available, Amount::new(225));
    assert_eq!(fund.held, Amount::new(0));
    // withdraw again beyond our limit
    fund.withdraw(Amount::new(300));
    assert_eq!(fund.total(), Amount::new(225));
}

#[test]
fn test_dispute() {
    let mut fund = Funds {
        state: FundingStates::Disputed,
        available: Amount::new(0),
        held: Amount::new(0),
        client: Client(1),
    };
    assert_eq!(fund.total(), Amount::new(0));
    // withdraw some money thats beyond our 0 balance
    fund.withdraw(Amount::new(100));
    assert_eq!(fund.total(), Amount::new(0));

    fund.deposit(Amount::new(250));
    fund.withdraw(Amount::new(25));
    assert_eq!(fund.total(), Amount::new(225));
    assert_eq!(fund.available, Amount::new(225));
    assert_eq!(fund.held, Amount::new(0));
    // withdraw again beyond our limit
    fund.withdraw(Amount::new(300));
    assert_eq!(fund.total(), Amount::new(225));
}

#[test]
fn test_resolve() {
    let mut fund = Funds {
        state: FundingStates::Disputed,
        available: Amount::new(100),
        held: Amount::new(20),
        client: Client(1),
    };
    fund.resolve(Amount::new(19));
    assert_eq!(fund.available, Amount::new(119));
    assert_eq!(fund.total(), Amount::new(120));
    assert_eq!(fund.state, FundingStates::Disputed);
    fund.resolve(Amount::new(1));
    assert_eq!(fund.available, Amount::new(120));
    assert_eq!(fund.state, FundingStates::Valid);
}

#[test]
fn test_resolve_on_valid() {
    let mut fund = Funds {
        state: FundingStates::Valid,
        available: Amount::new(100),
        held: Amount::new(0),
        client: Client(1),
    };
    fund.resolve(Amount::new(20));
    assert_eq!(fund.available, Amount::new(100));
    assert_eq!(fund.held, Amount::new(0));
    assert_eq!(fund.state, FundingStates::Valid);
    fund.state = FundingStates::Disputed;
    fund.resolve(Amount::new(20));
    assert_eq!(fund.held, Amount::new(0));
    assert_eq!(fund.state, FundingStates::Valid);
}

#[test]
fn test_chargeback() {
    let mut fund = Funds {
        state: FundingStates::Disputed,
        available: Amount::new(100),
        held: Amount::new(20),
        client: Client(1),
    };
    fund.chargeback(Amount::new(5));
    assert_eq!(fund.state, FundingStates::Frozen);
    assert_eq!(fund.held, Amount::new(15));
    assert_eq!(fund.total(), Amount::new(115));
    // run it again
    fund.chargeback(Amount::new(1));
    assert_eq!(fund.total(), Amount::new(115));
    assert_eq!(fund.held, Amount::new(15));
}

#[test]
fn dispute_moves_amount_and_marks_disputed() {
    let mut fund = Funds {
        state: FundingStates::Valid,
        available: Amount::new(250),
        held: Amount::new(0),
        client: Client(1),
    };
    fund.dispute(Amount::new(100));
    assert_eq!(fund.available, Amount::new(150));
    assert_eq!(fund.held, Amount::new(100));
    assert_eq!(fund.state, FundingStates::Disputed);
    assert_eq!(fund.total(), Amount::new(250));
}

#[test]
fn frozen_fund_ignores_every_operation() {
    let frozen = Funds {
        state: FundingStates::Frozen,
        available: Amount::new(100),
        held: Amount::new(20),
        client: Client(1),
    };
    let mut fund = frozen;
    fund.deposit(Amount::new(50));
    assert_eq!(fund, frozen);
    fund.withdraw(Amount::new(50));
    assert_eq!(fund, frozen);
    fund.dispute(Amount::new(50));
    assert_eq!(fund, frozen);
    fund.resolve(Amount::new(50));
    assert_eq!(fund, frozen);
    fund.chargeback(Amount::new(50));
    assert_eq!(fund, frozen);
}
