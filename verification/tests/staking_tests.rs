use staking::Address;
use staking::AppWithStaking;
use staking::BalanceMap;
use staking::BeginBlockCtx;
use staking::Coin;
use staking::Error;
use staking::Signer;
use staking::Unbond;
use staking::UnbondingQueue;
use staking::ValidatorPool;
use staking::BLOCK_REWARD;

fn addr(id: u64) -> Address {
    Address { id }
}

fn signed_by(id: u64) -> Option<Signer> {
    Some(Signer { signer: Some(addr(id)) })
}

fn unbond(amount: u64, delegator: u64, validator: u64, maturity_height: u64) -> Unbond {
    Unbond {
        coin: Coin { amount },
        delegator_address: addr(delegator),
        validator_address: addr(validator),
        maturity_height,
    }
}

/// The observable total supply: Ledger total, staked total, undistributed
/// rewards, and coins pending in the queue.
fn supply(app: &AppWithStaking) -> u64 {
    app.simp.total
        + app.staking.validators.total_staked
        + app.staking.validators.undistributed
        + app.staking.unbonding_queue.total_coins
}

#[test]
fn genesis_is_empty() {
    let app = AppWithStaking::new();
    assert_eq!(app.height, 0);
    assert_eq!(app.simp.total, 0);
    assert_eq!(app.staking.validators.total_staked, 0);
    assert_eq!(app.staking.validators.undistributed, 0);
    assert_eq!(app.staking.unbonding_queue.total_coins, 0);
    assert_eq!(supply(&app), 0);
}

#[test]
fn end_block_on_empty_queue_is_noop() {
    let mut app = AppWithStaking::new();
    let ups = app.end_block().unwrap();
    assert!(ups.is_empty());
    assert_eq!(supply(&app), 0);
}

#[test]
fn delegate_moves_coins_from_ledger_to_validator() {
    let mut app = AppWithStaking::new();
    app.simp.add(addr(1), 100).unwrap();
    assert_eq!(app.delegate(signed_by(1), addr(9), 30), Ok(()));
    assert_eq!(app.simp.balance(addr(1)), 70);
    assert_eq!(app.staking.validators.balance_of(addr(9)), 30);
    assert_eq!(supply(&app), 100);
}

#[test]
fn delegate_without_context_is_unauthenticated() {
    let mut app = AppWithStaking::new();
    app.simp.add(addr(1), 100).unwrap();
    assert_eq!(app.delegate(None, addr(9), 30), Err(Error::Unauthenticated));
    assert_eq!(app.simp.balance(addr(1)), 100);
    assert_eq!(app.staking.validators.balance_of(addr(9)), 0);
}

#[test]
fn delegate_with_empty_signer_is_unsigned() {
    let mut app = AppWithStaking::new();
    app.simp.add(addr(1), 100).unwrap();
    let ctx = Some(Signer { signer: None });
    assert_eq!(app.delegate(ctx, addr(9), 30), Err(Error::Unsigned));
    assert_eq!(app.simp.balance(addr(1)), 100);
    assert_eq!(app.staking.validators.balance_of(addr(9)), 0);
}

#[test]
fn delegate_more_than_balance_is_insufficient() {
    let mut app = AppWithStaking::new();
    app.simp.add(addr(1), 100).unwrap();
    let r = app.delegate(signed_by(1), addr(9), 101);
    assert_eq!(r, Err(Error::InsufficientBalance));
    assert_eq!(app.simp.balance(addr(1)), 100);
    assert_eq!(app.staking.validators.balance_of(addr(9)), 0);
    assert_eq!(supply(&app), 100);
}

#[test]
fn delegate_entire_balance_succeeds() {
    let mut app = AppWithStaking::new();
    app.simp.add(addr(1), 100).unwrap();
    assert_eq!(app.delegate(signed_by(1), addr(9), 100), Ok(()));
    assert_eq!(app.simp.balance(addr(1)), 0);
    assert_eq!(app.staking.validators.balance_of(addr(9)), 100);
}

#[test]
fn delegates_from_two_delegators_accumulate() {
    let mut app = AppWithStaking::new();
    app.simp.add(addr(1), 100).unwrap();
    app.simp.add(addr(2), 80).unwrap();
    assert_eq!(app.delegate(signed_by(1), addr(9), 60), Ok(()));
    assert_eq!(app.delegate(signed_by(2), addr(9), 40), Ok(()));
    assert_eq!(app.delegate(signed_by(1), addr(8), 10), Ok(()));
    assert_eq!(app.staking.validators.balance_of(addr(9)), 100);
    assert_eq!(app.staking.validators.balance_of(addr(8)), 10);
    assert_eq!(app.simp.balance(addr(1)), 30);
    assert_eq!(app.simp.balance(addr(2)), 40);
    assert_eq!(supply(&app), 180);
}

#[test]
fn repeat_delegation_to_same_validator_accumulates() {
    let mut app = AppWithStaking::new();
    app.simp.add(addr(1), 100).unwrap();
    assert_eq!(app.delegate(signed_by(1), addr(9), 30), Ok(()));
    assert_eq!(app.delegate(signed_by(1), addr(9), 20), Ok(()));
    assert_eq!(app.staking.validators.balance_of(addr(9)), 50);
    assert_eq!(app.simp.balance(addr(1)), 50);
}

#[test]
fn begin_block_sets_height_and_mints_reward() {
    let mut app = AppWithStaking::new();
    assert_eq!(app.begin_block(&BeginBlockCtx { height: 7 }), Ok(()));
    assert_eq!(app.height, 7);
    assert_eq!(app.staking.validators.undistributed, BLOCK_REWARD);
    assert_eq!(supply(&app), BLOCK_REWARD);
    assert_eq!(app.begin_block(&BeginBlockCtx { height: 8 }), Ok(()));
    assert_eq!(app.height, 8);
    assert_eq!(supply(&app), 2 * BLOCK_REWARD);
}

#[test]
fn begin_block_overflow_is_fatal_and_changes_nothing() {
    let mut app = AppWithStaking::new();
    app.simp.add(addr(1), u64::MAX).unwrap();
    let r = app.begin_block(&BeginBlockCtx { height: 7 });
    assert_eq!(r, Err(Error::Overflow));
    assert_eq!(app.height, 0);
    assert_eq!(app.staking.validators.undistributed, 0);
    assert_eq!(app.simp.balance(addr(1)), u64::MAX);
}

#[test]
fn supply_changes_only_by_minted_rewards() {
    let mut app = AppWithStaking::new();
    app.simp.add(addr(1), 500).unwrap();
    assert_eq!(supply(&app), 500);
    app.begin_block(&BeginBlockCtx { height: 1 }).unwrap();
    assert_eq!(supply(&app), 500 + BLOCK_REWARD);
    app.delegate(signed_by(1), addr(9), 200).unwrap();
    assert_eq!(supply(&app), 500 + BLOCK_REWARD);
    app.push_unbond(unbond(50, 1, 9, 1));
    assert_eq!(supply(&app), 550 + BLOCK_REWARD);
    app.end_block().unwrap();
    assert_eq!(supply(&app), 550 + BLOCK_REWARD);
}

#[test]
fn end_block_pays_out_matured_prefix_only() {
    let mut app = AppWithStaking::new();
    app.push_unbond(unbond(5, 1, 9, 3));
    app.push_unbond(unbond(6, 2, 9, 5));
    app.push_unbond(unbond(7, 1, 8, 9));
    app.begin_block(&BeginBlockCtx { height: 5 }).unwrap();
    let ups = app.end_block().unwrap();
    assert_eq!(ups.len(), 2);
    assert_eq!(ups[0].validator_address, addr(9));
    assert_eq!(ups[1].validator_address, addr(9));
    assert_eq!(app.simp.balance(addr(1)), 5);
    assert_eq!(app.simp.balance(addr(2)), 6);
    assert_eq!(app.staking.unbonding_queue.items.len(), 1);
    assert_eq!(app.staking.unbonding_queue.items[0].maturity_height, 9);
    assert_eq!(app.staking.unbonding_queue.total_coins, 7);
}

#[test]
fn end_block_before_maturity_is_noop() {
    let mut app = AppWithStaking::new();
    app.push_unbond(unbond(30, 1, 9, 10));
    app.begin_block(&BeginBlockCtx { height: 9 }).unwrap();
    let ups = app.end_block().unwrap();
    assert!(ups.is_empty());
    assert_eq!(app.simp.balance(addr(1)), 0);
    assert_eq!(app.staking.unbonding_queue.items.len(), 1);
}

#[test]
fn second_drain_at_same_height_pays_nothing() {
    let mut app = AppWithStaking::new();
    app.push_unbond(unbond(5, 1, 9, 2));
    app.push_unbond(unbond(6, 1, 9, 4));
    app.begin_block(&BeginBlockCtx { height: 3 }).unwrap();
    let first = app.end_block().unwrap();
    assert_eq!(first.len(), 1);
    assert_eq!(app.simp.balance(addr(1)), 5);
    let second = app.end_block().unwrap();
    assert!(second.is_empty());
    assert_eq!(app.simp.balance(addr(1)), 5);
    assert_eq!(app.staking.unbonding_queue.items.len(), 1);
}

#[test]
fn unbonding_scenario_reports_remaining_power() {
    // Validator V: delegator A at 100, delegator B at 50; an unbond for A of
    // 30 maturing at height 10 sits at the front of the queue.
    let mut app = AppWithStaking::new();
    app.simp.add(addr(1), 130).unwrap();
    app.simp.add(addr(2), 70).unwrap();
    app.delegate(signed_by(1), addr(9), 100).unwrap();
    app.delegate(signed_by(2), addr(9), 50).unwrap();
    app.push_unbond(unbond(30, 1, 9, 10));
    assert_eq!(app.staking.validators.balance_of(addr(9)), 150);

    // At height 9 the front is not yet mature: no payout.
    app.begin_block(&BeginBlockCtx { height: 9 }).unwrap();
    assert!(app.end_block().unwrap().is_empty());
    assert_eq!(app.simp.balance(addr(1)), 30);

    // At height 10 the unbond pays 30 back to A and reports V's power.
    app.begin_block(&BeginBlockCtx { height: 10 }).unwrap();
    let ups = app.end_block().unwrap();
    assert_eq!(ups.len(), 1);
    assert_eq!(ups[0].validator_address, addr(9));
    assert_eq!(ups[0].power, 150);
    assert_eq!(app.simp.balance(addr(1)), 60);
    assert!(app.staking.unbonding_queue.items.is_empty());

    // A further delegation raises V's aggregate; with no matured entries the
    // next drain reports nothing.
    app.delegate(signed_by(2), addr(9), 20).unwrap();
    assert_eq!(app.staking.validators.balance_of(addr(9)), 170);
    assert!(app.end_block().unwrap().is_empty());
}

#[test]
fn queue_keeps_maturity_order() {
    let mut q = UnbondingQueue::new();
    assert!(q.front().is_none());
    q.push_back(unbond(1, 1, 9, 2));
    q.push_back(unbond(2, 1, 9, 2));
    q.push_back(unbond(3, 1, 9, 7));
    assert_eq!(q.total_coins, 6);
    assert_eq!(q.front().unwrap().coin.amount, 1);
    assert_eq!(q.pop_front().unwrap().coin.amount, 1);
    assert_eq!(q.pop_front().unwrap().coin.amount, 2);
    assert_eq!(q.pop_front().unwrap().coin.amount, 3);
    assert!(q.pop_front().is_none());
    assert_eq!(q.total_coins, 0);
}

#[test]
fn balance_map_add_take_and_lazy_default() {
    let mut m = BalanceMap::new();
    assert_eq!(m.balance(addr(1)), 0);
    m.add(addr(1), 40).unwrap();
    m.add(addr(1), 2).unwrap();
    m.add(addr(2), 8).unwrap();
    assert_eq!(m.balance(addr(1)), 42);
    assert_eq!(m.balance(addr(2)), 8);
    assert_eq!(m.total, 50);
    let c = m.take(addr(1), 40).unwrap();
    assert_eq!(c.amount, 40);
    assert_eq!(m.balance(addr(1)), 2);
    assert_eq!(m.take(addr(1), 3), Err(Error::InsufficientBalance));
    assert_eq!(m.balance(addr(1)), 2);
    assert_eq!(m.take(addr(7), 0).unwrap().amount, 0);
    assert_eq!(m.take(addr(7), 1), Err(Error::InsufficientBalance));
    assert_eq!(m.total, 10);
}

#[test]
fn balance_map_add_overflow_changes_nothing() {
    let mut m = BalanceMap::new();
    m.add(addr(1), u64::MAX - 1).unwrap();
    assert_eq!(m.add(addr(2), 2), Err(Error::Overflow));
    assert_eq!(m.balance(addr(1)), u64::MAX - 1);
    assert_eq!(m.balance(addr(2)), 0);
    assert_eq!(m.total, u64::MAX - 1);
}

#[test]
fn validator_pool_give_holds_rewards_undistributed() {
    let mut p = ValidatorPool::new();
    p.give_to(addr(9), addr(1), Coin { amount: 25 });
    p.give(Coin { amount: 10 });
    assert_eq!(p.balance_of(addr(9)), 25);
    assert_eq!(p.undistributed, 10);
    assert_eq!(p.total_staked, 25);
    p.give_to(addr(9), addr(2), Coin { amount: 5 });
    assert_eq!(p.balance_of(addr(9)), 30);
    assert_eq!(p.balance_of(addr(5)), 0);
}
