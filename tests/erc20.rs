use erc20::{AccountId, Approval, Erc20, Error, Event, Transfer};

fn alice() -> AccountId {
    AccountId::from_bytes([0x01; 32])
}

fn bob() -> AccountId {
    AccountId::from_bytes([0x02; 32])
}

fn charlie() -> AccountId {
    AccountId::from_bytes([0x03; 32])
}

fn sum_of_balances(l: &Erc20, accounts: &[AccountId]) -> u128 {
    accounts.iter().map(|a| l.balance_of(*a)).sum()
}

#[test]
fn constructor_works() {
    let erc20 = Erc20::new(10000, alice());
    assert_eq!(erc20.total_supply(), 10000);
    assert_eq!(erc20.balance_of(alice()), 10000);

    let events = erc20.recorded_events();
    match events[0] {
        Event::Transfer(Transfer { from, to, value }) => {
            assert!(from.is_none(), "mint from error");
            assert_eq!(to, Some(alice()), "mint to error");
            assert_eq!(value, 10000, "mint value error");
        }
        _ => panic!("match invalid event"),
    }
}

#[test]
fn transfer_should_work() {
    let mut erc20 = Erc20::new(10000, alice());
    let res = erc20.transfer(alice(), bob(), 12);

    assert!(res.is_ok());
    assert_eq!(erc20.balance_of(alice()), 10000 - 12);
    assert_eq!(erc20.balance_of(bob()), 12);
}

#[test]
fn invalid_transfer_should_work() {
    let mut erc20 = Erc20::new(10000, alice());
    let res = erc20.transfer(bob(), bob(), 12);

    assert!(res.is_err());
    assert_eq!(res, Err(Error::InsufficientBalance));
}

#[test]
fn zero_supply_is_accepted() {
    let erc20 = Erc20::new(0, alice());
    assert_eq!(erc20.total_supply(), 0);
    assert_eq!(erc20.balance_of(alice()), 0);
    assert_eq!(
        erc20.recorded_events(),
        &[Event::Transfer(Transfer { from: None, to: Some(alice()), value: 0 })]
    );
}

#[test]
fn unknown_accounts_read_zero() {
    let erc20 = Erc20::new(500, alice());
    assert_eq!(erc20.balance_of(bob()), 0);
    assert_eq!(erc20.allowance(alice(), bob()), 0);
    assert_eq!(erc20.allowance(bob(), alice()), 0);
}

#[test]
fn transfer_then_rejected_transfer_back() {
    let mut erc20 = Erc20::new(10000, alice());
    assert_eq!(erc20.transfer(alice(), bob(), 12), Ok(()));
    assert_eq!(erc20.balance_of(alice()), 9988);
    assert_eq!(erc20.balance_of(bob()), 12);

    assert_eq!(erc20.transfer(bob(), alice(), 13), Err(Error::InsufficientBalance));
    assert_eq!(erc20.balance_of(alice()), 9988);
    assert_eq!(erc20.balance_of(bob()), 12);
    assert_eq!(erc20.recorded_events().len(), 2);
}

#[test]
fn transfer_records_event() {
    let mut erc20 = Erc20::new(100, alice());
    erc20.transfer(alice(), bob(), 30).unwrap();
    assert_eq!(
        erc20.recorded_events()[1],
        Event::Transfer(Transfer { from: Some(alice()), to: Some(bob()), value: 30 })
    );
}

#[test]
fn transfer_of_whole_balance_leaves_zero() {
    let mut erc20 = Erc20::new(100, alice());
    assert_eq!(erc20.transfer(alice(), bob(), 100), Ok(()));
    assert_eq!(erc20.balance_of(alice()), 0);
    assert_eq!(erc20.balance_of(bob()), 100);
}

#[test]
fn self_transfer_keeps_balance_and_records_event() {
    let mut erc20 = Erc20::new(100, alice());
    assert_eq!(erc20.transfer(alice(), alice(), 60), Ok(()));
    assert_eq!(erc20.balance_of(alice()), 100);
    assert_eq!(erc20.recorded_events().len(), 2);
    assert_eq!(erc20.transfer(alice(), alice(), 101), Err(Error::InsufficientBalance));
    assert_eq!(erc20.recorded_events().len(), 2);
}

#[test]
fn largest_supply_moves_without_overflow() {
    let mut erc20 = Erc20::new(u128::MAX, alice());
    assert_eq!(erc20.transfer(alice(), bob(), u128::MAX - 1), Ok(()));
    assert_eq!(erc20.transfer(alice(), bob(), 1), Ok(()));
    assert_eq!(erc20.balance_of(alice()), 0);
    assert_eq!(erc20.balance_of(bob()), u128::MAX);
}

#[test]
fn balances_sum_to_supply_after_operations() {
    let accounts = [alice(), bob(), charlie()];
    let mut erc20 = Erc20::new(1000, alice());
    erc20.transfer(alice(), bob(), 300).unwrap();
    erc20.approve(bob(), charlie(), 200).unwrap();
    erc20.transfer_from(charlie(), bob(), charlie(), 150).unwrap();
    let _ = erc20.transfer(charlie(), alice(), 151);
    let _ = erc20.transfer_from(charlie(), bob(), alice(), 60);
    erc20.transfer(charlie(), alice(), 50).unwrap();
    assert_eq!(sum_of_balances(&erc20, &accounts), erc20.total_supply());
    assert_eq!(erc20.balance_of(alice()), 750);
    assert_eq!(erc20.balance_of(bob()), 150);
    assert_eq!(erc20.balance_of(charlie()), 100);
}

#[test]
fn approve_overwrites_allowance() {
    let mut erc20 = Erc20::new(1000, alice());
    assert_eq!(erc20.approve(alice(), bob(), 70), Ok(()));
    assert_eq!(erc20.approve(alice(), bob(), 30), Ok(()));
    assert_eq!(erc20.allowance(alice(), bob()), 30);
    assert_eq!(erc20.allowance(bob(), alice()), 0);
}

#[test]
fn approve_records_event() {
    let mut erc20 = Erc20::new(1000, alice());
    erc20.approve(alice(), bob(), 70).unwrap();
    assert_eq!(
        erc20.recorded_events()[1],
        Event::Approval(Approval { owner: alice(), spender: bob(), value: 70 })
    );
    assert_eq!(erc20.balance_of(alice()), 1000);
}

#[test]
fn transfer_from_consumes_allowance() {
    let mut erc20 = Erc20::new(10000, alice());
    erc20.approve(alice(), bob(), 100).unwrap();
    assert_eq!(erc20.transfer_from(bob(), alice(), charlie(), 40), Ok(()));
    assert_eq!(erc20.allowance(alice(), bob()), 60);
    assert_eq!(erc20.balance_of(alice()), 9960);
    assert_eq!(erc20.balance_of(charlie()), 40);
    assert_eq!(erc20.balance_of(bob()), 0);
    assert_eq!(
        erc20.recorded_events()[2],
        Event::Transfer(Transfer { from: Some(alice()), to: Some(charlie()), value: 40 })
    );
}

#[test]
fn transfer_from_over_allowance_is_rejected() {
    let mut erc20 = Erc20::new(10000, alice());
    erc20.approve(alice(), bob(), 100).unwrap();
    assert_eq!(
        erc20.transfer_from(bob(), alice(), charlie(), 150),
        Err(Error::InsufficientAllowance)
    );
    assert_eq!(erc20.allowance(alice(), bob()), 100);
    assert_eq!(erc20.balance_of(alice()), 10000);
    assert_eq!(erc20.balance_of(charlie()), 0);
    assert_eq!(erc20.recorded_events().len(), 2);
}

#[test]
fn transfer_from_without_allowance_is_rejected() {
    let mut erc20 = Erc20::new(10000, alice());
    assert_eq!(
        erc20.transfer_from(bob(), alice(), bob(), 1),
        Err(Error::InsufficientAllowance)
    );
    assert_eq!(erc20.balance_of(alice()), 10000);
}

#[test]
fn transfer_from_over_balance_is_rejected() {
    let mut erc20 = Erc20::new(50, alice());
    erc20.approve(alice(), bob(), 100).unwrap();
    assert_eq!(
        erc20.transfer_from(bob(), alice(), charlie(), 80),
        Err(Error::InsufficientBalance)
    );
    assert_eq!(erc20.allowance(alice(), bob()), 100);
    assert_eq!(erc20.balance_of(alice()), 50);
    assert_eq!(erc20.balance_of(charlie()), 0);
}

#[test]
fn allowance_check_comes_before_balance_check() {
    let mut erc20 = Erc20::new(50, alice());
    erc20.approve(alice(), bob(), 60).unwrap();
    assert_eq!(
        erc20.transfer_from(bob(), alice(), charlie(), 70),
        Err(Error::InsufficientAllowance)
    );
}

#[test]
fn account_id_round_trips_bytes() {
    let mut bytes = [0u8; 32];
    bytes[31] = 7;
    let a = AccountId::from_bytes(bytes);
    assert_eq!(a.to_bytes(), bytes);
    assert_ne!(a, AccountId::from_bytes([0u8; 32]));
}
