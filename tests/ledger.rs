use erc20::{AccountId, Approval, Error, Event, Transfer, ERC20};

fn acct(n: u8) -> AccountId {
    AccountId::new([n; 32])
}

fn a() -> AccountId {
    acct(1)
}

fn b() -> AccountId {
    acct(2)
}

fn c() -> AccountId {
    acct(3)
}

fn z() -> AccountId {
    AccountId::zero()
}

fn transfer_event(from: AccountId, to: AccountId, value: u128) -> Event {
    Event::Transfer(Transfer { from, to, value })
}

/// Construction with 1000 as A, events drained.
fn s1() -> ERC20 {
    let mut l = ERC20::new(a(), 1000);
    l.take_events();
    l
}

fn s2() -> ERC20 {
    let mut l = s1();
    assert_eq!(l.transfer(a(), b(), 300), Ok(()));
    l.take_events();
    l
}

fn s4() -> ERC20 {
    let mut l = s2();
    assert_eq!(l.approve(a(), c(), 200), Ok(()));
    assert_eq!(l.transfer_from(c(), a(), b(), 150), Ok(()));
    l.take_events();
    l
}

fn snapshot(l: &ERC20) -> Vec<u128> {
    let mut v = Vec::new();
    for x in [a(), b(), c(), z()] {
        v.push(l.balance_of(x));
        for y in [a(), b(), c(), z()] {
            v.push(l.allowance(x, y));
        }
    }
    v.push(l.total_supply());
    v
}

#[test]
fn construction_mints_supply_to_deployer() {
    let mut l = ERC20::new(a(), 1000);
    assert_eq!(l.balance_of(a()), 1000);
    assert_eq!(l.balance_of(b()), 0);
    assert_eq!(l.total_supply(), 1000);
    assert_eq!(l.take_events(), vec![transfer_event(z(), a(), 1000)]);
    assert!(l.take_events().is_empty());
}

#[test]
fn transfer_moves_tokens() {
    let mut l = s1();
    assert_eq!(l.transfer(a(), b(), 300), Ok(()));
    assert_eq!(l.balance_of(a()), 700);
    assert_eq!(l.balance_of(b()), 300);
    assert_eq!(l.take_events(), vec![transfer_event(a(), b(), 300)]);
}

#[test]
fn transfer_beyond_balance_is_refused() {
    let mut l = s1();
    let before = snapshot(&l);
    assert_eq!(l.transfer(a(), b(), 1001), Err(Error::InsufficientBalance));
    assert_eq!(snapshot(&l), before);
    assert!(l.take_events().is_empty());
}

#[test]
fn approve_then_transfer_from() {
    let mut l = s2();
    assert_eq!(l.approve(a(), c(), 200), Ok(()));
    assert_eq!(l.allowance(a(), c()), 200);
    assert_eq!(l.transfer_from(c(), a(), b(), 150), Ok(()));
    assert_eq!(l.balance_of(a()), 550);
    assert_eq!(l.balance_of(b()), 450);
    assert_eq!(l.allowance(a(), c()), 50);
    assert_eq!(
        l.take_events(),
        vec![
            Event::Approval(Approval { owner: a(), spender: c(), value: 200 }),
            transfer_event(a(), b(), 150),
        ]
    );
}

#[test]
fn transfer_from_beyond_allowance_is_refused() {
    let mut l = s4();
    let before = snapshot(&l);
    assert_eq!(l.transfer_from(c(), a(), b(), 100), Err(Error::InsufficientAllowance));
    assert_eq!(snapshot(&l), before);
    assert!(l.take_events().is_empty());
}

#[test]
fn transfer_to_zero_is_refused() {
    let mut l = s1();
    let before = snapshot(&l);
    assert_eq!(l.transfer(a(), z(), 1), Err(Error::ZeroRecipient));
    assert_eq!(snapshot(&l), before);
    assert!(l.take_events().is_empty());
}

#[test]
fn balances_sum_to_supply_after_operations() {
    let mut l = s1();
    l.transfer(a(), b(), 400).unwrap();
    l.approve(b(), c(), 1000).unwrap();
    l.transfer_from(c(), b(), c(), 250).unwrap();
    l.transfer(c(), a(), 50).unwrap();
    let _ = l.transfer(b(), c(), 10_000);
    let _ = l.transfer_from(c(), b(), a(), 900);
    let sum = l.balance_of(a()) + l.balance_of(b()) + l.balance_of(c());
    assert_eq!(sum, l.total_supply());
    assert_eq!((l.balance_of(a()), l.balance_of(b()), l.balance_of(c())), (650, 150, 200));
}

#[test]
fn reads_are_repeatable() {
    let l = s4();
    assert_eq!(snapshot(&l), snapshot(&l));
    assert_eq!(l.balance_of(b()), l.balance_of(b()));
}

#[test]
fn transfer_of_zero_changes_nothing_but_emits() {
    let mut l = s2();
    let before = snapshot(&l);
    assert_eq!(l.transfer(a(), c(), 0), Ok(()));
    assert_eq!(snapshot(&l), before);
    assert_eq!(l.take_events(), vec![transfer_event(a(), c(), 0)]);
}

#[test]
fn transfer_of_zero_from_empty_account_succeeds() {
    let mut l = s1();
    assert_eq!(l.transfer(c(), b(), 0), Ok(()));
    assert_eq!(l.balance_of(c()), 0);
    assert_eq!(l.balance_of(b()), 0);
}

#[test]
fn second_approval_replaces_first() {
    let mut l = s1();
    l.approve(a(), b(), 500).unwrap();
    l.approve(a(), b(), 7).unwrap();
    assert_eq!(l.allowance(a(), b()), 7);
    l.approve(a(), b(), 0).unwrap();
    l.approve(a(), b(), 900).unwrap();
    assert_eq!(l.allowance(a(), b()), 900);
}

#[test]
fn transfer_from_lowers_allowance_by_amount() {
    let mut l = s1();
    l.approve(a(), c(), 300).unwrap();
    l.transfer_from(c(), a(), b(), 120).unwrap();
    assert_eq!(l.allowance(a(), c()), 180);
    l.transfer_from(c(), a(), c(), 180).unwrap();
    assert_eq!(l.allowance(a(), c()), 0);
    assert_eq!(l.balance_of(c()), 180);
}

#[test]
fn zero_approval_blocks_spending() {
    let mut l = s1();
    l.approve(a(), c(), 100).unwrap();
    l.approve(a(), c(), 0).unwrap();
    assert_eq!(l.transfer_from(c(), a(), b(), 1), Err(Error::InsufficientAllowance));
}

#[test]
fn zero_recipient_reported_before_allowance_and_balance() {
    let mut l = s1();
    assert_eq!(l.transfer_from(c(), b(), z(), 5), Err(Error::ZeroRecipient));
}

#[test]
fn zero_sender_reported_before_allowance() {
    let mut l = s1();
    assert_eq!(l.transfer_from(c(), z(), b(), 5), Err(Error::ZeroSender));
}

#[test]
fn allowance_reported_before_balance() {
    let mut l = s1();
    l.approve(b(), c(), 10).unwrap();
    assert_eq!(l.transfer_from(c(), b(), a(), 11), Err(Error::InsufficientAllowance));
    assert_eq!(l.transfer_from(c(), b(), a(), 10), Err(Error::InsufficientBalance));
    assert_eq!(l.allowance(b(), c()), 10);
}

#[test]
fn approve_zero_spender_is_refused() {
    let mut l = s1();
    assert_eq!(l.approve(a(), z(), 5), Err(Error::ZeroSpender));
    assert_eq!(l.allowance(a(), z()), 0);
    assert!(l.take_events().is_empty());
}

#[test]
fn allowance_may_exceed_balance() {
    let mut l = s1();
    assert_eq!(l.approve(b(), c(), u128::MAX), Ok(()));
    assert_eq!(l.allowance(b(), c()), u128::MAX);
    assert_eq!(l.balance_of(b()), 0);
}

#[test]
fn self_transfer_keeps_balance_and_emits() {
    let mut l = s1();
    assert_eq!(l.transfer(a(), a(), 600), Ok(()));
    assert_eq!(l.balance_of(a()), 1000);
    assert_eq!(l.take_events(), vec![transfer_event(a(), a(), 600)]);
    assert_eq!(l.transfer(a(), a(), 1001), Err(Error::InsufficientBalance));
}

#[test]
fn whole_supply_at_max_moves_without_overflow() {
    let mut l = ERC20::new(a(), u128::MAX);
    l.transfer(a(), b(), u128::MAX - 1).unwrap();
    l.transfer(a(), b(), 1).unwrap();
    assert_eq!(l.balance_of(a()), 0);
    assert_eq!(l.balance_of(b()), u128::MAX);
    l.approve(b(), c(), u128::MAX).unwrap();
    l.transfer_from(c(), b(), a(), u128::MAX).unwrap();
    assert_eq!(l.balance_of(a()), u128::MAX);
    assert_eq!(l.allowance(b(), c()), 0);
}

#[test]
fn zero_supply_ledger_is_inert() {
    let mut l = ERC20::new(a(), 0);
    assert_eq!(l.total_supply(), 0);
    assert_eq!(l.balance_of(a()), 0);
    assert_eq!(l.take_events(), vec![transfer_event(z(), a(), 0)]);
    assert_eq!(l.transfer(a(), b(), 1), Err(Error::InsufficientBalance));
}

#[test]
fn emptied_account_reads_zero_and_can_be_refilled() {
    let mut l = s1();
    l.transfer(a(), b(), 1000).unwrap();
    assert_eq!(l.balance_of(a()), 0);
    l.transfer(b(), a(), 5).unwrap();
    assert_eq!(l.balance_of(a()), 5);
    assert_eq!(l.balance_of(b()), 995);
}
