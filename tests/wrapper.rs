use xnt_wrapper::balances::{Balances, Holding};
use xnt_wrapper::error::ErrorCode;
use xnt_wrapper::program::{initialize, unwrap, wrap, Initialize, Unwrap, Wrap};
use xnt_wrapper::reserve::CustodyReserve;
use xnt_wrapper::supply::SupplyLedger;
use xnt_wrapper::vault::Vault;

fn funded(holder: u64, amount: u64) -> Vault {
    let mut v = Vault::new();
    assert_eq!(v.receive_native(holder, amount), Ok(()));
    v
}

#[test]
fn genesis_is_empty() {
    let v = Vault::new();
    assert_eq!(v.reserve(), 0);
    assert_eq!(v.supply(), 0);
    assert_eq!(v.token_balance_of(3), 0);
    assert_eq!(v.native_balance_of(3), 0);
}

#[test]
fn initialize_once() {
    let mut ctx = Initialize { vault: None };
    assert_eq!(initialize(&mut ctx), Ok(()));
    let v = ctx.vault.as_ref().unwrap();
    assert_eq!(v.reserve(), 0);
    assert_eq!(v.supply(), 0);
    assert_eq!(initialize(&mut ctx), Err(ErrorCode::AlreadyInitialized));
    assert!(ctx.vault.is_some());
}

#[test]
fn concrete_scenario() {
    let caller = 1;
    let mut v = funded(caller, 5000);
    assert_eq!(v.wrap(caller, 1000), Ok(()));
    assert_eq!(v.reserve(), 1000);
    assert_eq!(v.supply(), 1000);
    assert_eq!(v.token_balance_of(caller), 1000);
    assert_eq!(v.native_balance_of(caller), 4000);
    assert_eq!(v.unwrap(caller, 400), Ok(()));
    assert_eq!(v.reserve(), 600);
    assert_eq!(v.supply(), 600);
    assert_eq!(v.token_balance_of(caller), 600);
    assert_eq!(v.native_balance_of(caller), 4400);
    assert_eq!(v.unwrap(caller, 700), Err(ErrorCode::InsufficientBalance));
    assert_eq!(v.reserve(), 600);
    assert_eq!(v.supply(), 600);
    assert_eq!(v.token_balance_of(caller), 600);
    assert_eq!(v.native_balance_of(caller), 4400);
}

#[test]
fn entry_points_scenario() {
    let mut init = Initialize { vault: None };
    assert_eq!(initialize(&mut init), Ok(()));
    let mut vault = init.vault.unwrap();
    assert_eq!(vault.receive_native(9, 1000), Ok(()));
    let mut w = Wrap { vault, user: 9 };
    assert_eq!(wrap(&mut w, 1000), Ok(()));
    assert_eq!(w.vault.reserve(), 1000);
    let mut u = Unwrap { vault: w.vault, user: 9 };
    assert_eq!(unwrap(&mut u, 400), Ok(()));
    assert_eq!(u.vault.supply(), 600);
    assert_eq!(unwrap(&mut u, 700), Err(ErrorCode::InsufficientBalance));
    assert_eq!(u.vault.reserve(), 600);
    assert_eq!(wrap(&mut Wrap { vault: u.vault, user: 9 }, 0), Err(ErrorCode::InvalidAmount));
}

#[test]
fn zero_amount_rejected() {
    let mut v = funded(1, 100);
    assert_eq!(v.wrap(1, 50), Ok(()));
    assert_eq!(v.wrap(1, 0), Err(ErrorCode::InvalidAmount));
    assert_eq!(v.unwrap(1, 0), Err(ErrorCode::InvalidAmount));
    assert_eq!(v.reserve(), 50);
    assert_eq!(v.supply(), 50);
    assert_eq!(v.token_balance_of(1), 50);
    assert_eq!(v.native_balance_of(1), 50);
}

#[test]
fn overdraft_rejected() {
    let mut v = funded(1, 100);
    assert_eq!(v.wrap(1, 30), Ok(()));
    assert_eq!(v.unwrap(1, 31), Err(ErrorCode::InsufficientBalance));
    assert_eq!(v.unwrap(2, 1), Err(ErrorCode::InsufficientBalance));
    assert_eq!(v.reserve(), 30);
    assert_eq!(v.supply(), 30);
    assert_eq!(v.token_balance_of(1), 30);
}

#[test]
fn insufficient_funds_rejected() {
    let mut v = funded(1, 100);
    assert_eq!(v.wrap(1, 101), Err(ErrorCode::InsufficientFunds));
    assert_eq!(v.wrap(2, 1), Err(ErrorCode::InsufficientFunds));
    assert_eq!(v.reserve(), 0);
    assert_eq!(v.native_balance_of(1), 100);
}

#[test]
fn round_trip_restores_balances() {
    let mut v = funded(4, 777);
    assert_eq!(v.receive_native(5, 10), Ok(()));
    assert_eq!(v.wrap(4, 500), Ok(()));
    assert_eq!(v.unwrap(4, 500), Ok(()));
    assert_eq!(v.native_balance_of(4), 777);
    assert_eq!(v.token_balance_of(4), 0);
    assert_eq!(v.native_balance_of(5), 10);
    assert_eq!(v.reserve(), 0);
    assert_eq!(v.supply(), 0);
}

#[test]
fn interleaved_wraps_in_either_order() {
    let mut a = funded(1, 500);
    assert_eq!(a.receive_native(2, 500), Ok(()));
    let mut b = funded(1, 500);
    assert_eq!(b.receive_native(2, 500), Ok(()));
    assert_eq!(a.wrap(1, 500), Ok(()));
    assert_eq!(a.wrap(2, 500), Ok(()));
    assert_eq!(b.wrap(2, 500), Ok(()));
    assert_eq!(b.wrap(1, 500), Ok(()));
    for v in [&a, &b] {
        assert_eq!(v.reserve(), 1000);
        assert_eq!(v.supply(), 1000);
        assert_eq!(v.token_balance_of(1), 500);
        assert_eq!(v.token_balance_of(2), 500);
        assert_eq!(v.native_balance_of(1), 0);
        assert_eq!(v.native_balance_of(2), 0);
    }
}

#[test]
fn conservation_over_a_run() {
    let mut v = funded(1, 1000);
    assert_eq!(v.receive_native(2, 1000), Ok(()));
    let calls: [(bool, u64, u64); 6] =
        [(true, 1, 300), (true, 2, 200), (false, 1, 100), (false, 2, 300), (true, 2, 50), (false, 1, 200)];
    for (is_wrap, who, amt) in calls {
        let _ = if is_wrap { v.wrap(who, amt) } else { v.unwrap(who, amt) };
        assert_eq!(v.reserve(), v.supply());
        assert_eq!(v.supply(), v.token_balance_of(1) + v.token_balance_of(2));
    }
    assert_eq!(v.supply(), 250);
}

#[test]
fn wrap_overflow_rejected() {
    let mut v = funded(1, u64::MAX);
    assert_eq!(v.receive_native(2, 1), Ok(()));
    assert_eq!(v.wrap(1, u64::MAX), Ok(()));
    assert_eq!(v.wrap(2, 1), Err(ErrorCode::Overflow));
    assert_eq!(v.reserve(), u64::MAX);
    assert_eq!(v.native_balance_of(2), 1);
}

#[test]
fn unwrap_overflow_rejected() {
    let mut v = funded(1, u64::MAX);
    assert_eq!(v.wrap(1, 1), Ok(()));
    assert_eq!(v.receive_native(1, 1), Ok(()));
    assert_eq!(v.unwrap(1, 1), Err(ErrorCode::Overflow));
    assert_eq!(v.token_balance_of(1), 1);
    assert_eq!(v.receive_native(1, 1), Err(ErrorCode::Overflow));
}

#[test]
fn reserve_rules() {
    let mut r = CustodyReserve::new();
    assert_eq!(r.deposit(0), Err(ErrorCode::InvalidAmount));
    assert_eq!(r.release(1), Err(ErrorCode::InsufficientReserve));
    assert_eq!(r.deposit(40), Ok(()));
    assert_eq!(r.release(0), Err(ErrorCode::InvalidAmount));
    assert_eq!(r.release(41), Err(ErrorCode::InsufficientReserve));
    assert_eq!(r.release(15), Ok(()));
    assert_eq!(r.balance(), 25);
    assert_eq!(r.deposit(u64::MAX), Err(ErrorCode::Overflow));
    assert_eq!(r.balance(), 25);
}

#[test]
fn supply_rules() {
    let mut s = SupplyLedger::new();
    assert_eq!(s.mint(1, 0), Err(ErrorCode::InvalidAmount));
    assert_eq!(s.mint(1, 70), Ok(()));
    assert_eq!(s.mint(2, 30), Ok(()));
    assert_eq!(s.burn(2, 1, 10), Err(ErrorCode::Unauthorized));
    assert_eq!(s.burn(1, 1, 0), Err(ErrorCode::InvalidAmount));
    assert_eq!(s.burn(2, 2, 31), Err(ErrorCode::InsufficientBalance));
    assert_eq!(s.burn(1, 1, 20), Ok(()));
    assert_eq!(s.total_supply(), 80);
    assert_eq!(s.balance_of(1), 50);
    assert_eq!(s.balance_of(2), 30);
    assert_eq!(s.mint(2, u64::MAX), Err(ErrorCode::Overflow));
    assert_eq!(s.total_supply(), 80);
}

#[test]
fn balances_table() {
    let mut b = Balances::new();
    assert_eq!(b.credit(3, 10), Ok(()));
    assert_eq!(b.credit(3, 5), Ok(()));
    assert_eq!(b.credit(4, 1), Ok(()));
    assert_eq!(b.balance_of(3), 15);
    assert_eq!(b.debit(3, 16), Err(ErrorCode::InsufficientBalance));
    assert_eq!(b.debit(3, 15), Ok(()));
    assert_eq!(b.balance_of(3), 0);
    assert_eq!(b.balance_of(4), 1);
    assert_eq!(b.credit(4, u64::MAX), Err(ErrorCode::Overflow));
    let h = Holding { holder: 1, amount: 2 };
    assert_eq!(h, Holding { holder: 1, amount: 2 });
}
