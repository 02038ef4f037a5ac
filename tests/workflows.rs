use copytrade::engine::{BuildError, Node, Process};
use copytrade::flows::{
    copy_trader_process, create_trade_process, execute_copy_trader, execute_create_trade,
    CopyTraderInput, CreateTradeInput, WorkflowError,
};
use copytrade::model::{
    compute_copied_quantity, compute_pnl, CopiedTrade, TradeDirection, TradeStatus,
};
use copytrade::ids::unused_id;
use copytrade::store::Database;
use copytrade::tasks::{Action, Condition, CopyWorkflowCtx, RunError, ValidationError, WorkflowCtx};

fn trade_input(trader_id: u128, direction: TradeDirection, entry_price: i64, quantity: i64) -> CreateTradeInput {
    CreateTradeInput {
        trader_id,
        symbol: "BTC/USD".to_string(),
        direction,
        entry_price,
        quantity,
    }
}

#[test]
fn copy_then_trade_then_close_scenario() {
    let mut db = Database::new();
    let trader = db.register_user("AlphaTrader".to_string(), true);
    let follower = db.register_user("NewInvestor".to_string(), false);
    assert_eq!(trader.followers_count, 0);

    let rel = execute_copy_trader(
        &mut db,
        &CopyTraderInput { follower_id: follower.id, trader_id: trader.id, copy_ratio: 5000 },
    )
    .unwrap();
    assert!(rel.active);
    assert_eq!(db.user(trader.id).unwrap().followers_count, 1);

    let trade = execute_create_trade(&mut db, &trade_input(trader.id, TradeDirection::Long, 100, 2)).unwrap();
    assert_eq!(trade.status, TradeStatus::Open);
    assert_eq!(trade.pnl, None);
    assert_eq!(trade.exit_price, None);
    let copies = db.my_copied_trades(follower.id);
    assert_eq!(copies.len(), 1);
    assert_eq!(copies[0].quantity, 1);
    assert_eq!(copies[0].original_trade_id, trade.id);
    assert_eq!(copies[0].status, TradeStatus::Open);

    let closed = db.close_trade(trade.id, 110).unwrap();
    assert_eq!(closed.pnl, Some(20));
    assert_eq!(closed.exit_price, Some(110));
    assert_eq!(closed.status, TradeStatus::Closed);
    assert!(closed.closed_at.is_some());
    let copies = db.my_copied_trades(follower.id);
    assert_eq!(copies[0].pnl, Some(10));
    assert_eq!(copies[0].status, TradeStatus::Closed);
}

#[test]
fn invalid_quantity_creates_nothing() {
    let mut db = Database::new();
    let trader = db.register_user("T".to_string(), true);
    let r = execute_create_trade(&mut db, &trade_input(trader.id, TradeDirection::Long, 100, 0));
    assert_eq!(r.unwrap_err(), WorkflowError::Invalid(ValidationError::InvalidQuantity));
    let r = execute_create_trade(&mut db, &trade_input(trader.id, TradeDirection::Long, -5, -1));
    assert_eq!(r.unwrap_err(), WorkflowError::Invalid(ValidationError::InvalidQuantity));
    assert_eq!(db.trades.len(), 0);
}

#[test]
fn invalid_price_creates_nothing() {
    let mut db = Database::new();
    let trader = db.register_user("T".to_string(), true);
    let r = execute_create_trade(&mut db, &trade_input(trader.id, TradeDirection::Short, 0, 3));
    assert_eq!(r.unwrap_err(), WorkflowError::Invalid(ValidationError::InvalidPrice));
    assert_eq!(db.trades.len(), 0);
    assert_eq!(db.copied_trades.len(), 0);
}

#[test]
fn invalid_ratio_creates_no_relation() {
    let mut db = Database::new();
    let trader = db.register_user("T".to_string(), true);
    let follower = db.register_user("F".to_string(), false);
    for ratio in [100i64, 0, -5, 10001] {
        let r = execute_copy_trader(
            &mut db,
            &CopyTraderInput { follower_id: follower.id, trader_id: trader.id, copy_ratio: ratio },
        );
        assert_eq!(r.unwrap_err(), WorkflowError::Invalid(ValidationError::InvalidCopyRatio));
    }
    assert_eq!(db.copy_relations.len(), 0);
    assert_eq!(db.user(trader.id).unwrap().followers_count, 0);
}

#[test]
fn ratio_bounds_accepted() {
    let mut db = Database::new();
    let trader = db.register_user("T".to_string(), true);
    let follower = db.register_user("F".to_string(), false);
    for ratio in [101i64, 10000] {
        let r = execute_copy_trader(
            &mut db,
            &CopyTraderInput { follower_id: follower.id, trader_id: trader.id, copy_ratio: ratio },
        )
        .unwrap();
        assert_eq!(r.copy_ratio, ratio);
    }
    assert_eq!(db.user(trader.id).unwrap().followers_count, 2);
    assert_eq!(db.my_copy_relations(follower.id).len(), 2);
}

#[test]
fn one_copy_per_active_follower() {
    let mut db = Database::new();
    let trader = db.register_user("T".to_string(), true);
    let other = db.register_user("O".to_string(), true);
    let f1 = db.register_user("F1".to_string(), false);
    let f2 = db.register_user("F2".to_string(), false);
    let r1 = execute_copy_trader(&mut db, &CopyTraderInput { follower_id: f1.id, trader_id: trader.id, copy_ratio: 2500 }).unwrap();
    execute_copy_trader(&mut db, &CopyTraderInput { follower_id: f2.id, trader_id: trader.id, copy_ratio: 10000 }).unwrap();
    execute_copy_trader(&mut db, &CopyTraderInput { follower_id: f2.id, trader_id: other.id, copy_ratio: 5000 }).unwrap();
    db.stop_copying(r1.id).unwrap();

    let trade = execute_create_trade(&mut db, &trade_input(trader.id, TradeDirection::Short, 50, 8)).unwrap();
    assert_eq!(db.copied_trades.len(), 1);
    assert_eq!(db.copied_trades[0].follower_id, f2.id);
    assert_eq!(db.copied_trades[0].quantity, 8);
    assert_eq!(db.copied_trades[0].original_trade_id, trade.id);
    assert_eq!(db.trades(Some(trader.id)).len(), 1);
    assert_eq!(db.trades(Some(other.id)).len(), 0);
    assert_eq!(db.trades(None).len(), 1);
}

#[test]
fn close_short_and_close_again() {
    let mut db = Database::new();
    let trader = db.register_user("T".to_string(), true);
    let follower = db.register_user("F".to_string(), false);
    execute_copy_trader(&mut db, &CopyTraderInput { follower_id: follower.id, trader_id: trader.id, copy_ratio: 3333 }).unwrap();
    let trade = execute_create_trade(&mut db, &trade_input(trader.id, TradeDirection::Short, 200, 10)).unwrap();
    assert_eq!(db.copied_trades[0].quantity, 3);
    let closed = db.close_trade(trade.id, 150).unwrap();
    assert_eq!(closed.pnl, Some(500));
    assert_eq!(db.copied_trades[0].pnl, Some(150));
    assert_eq!(db.open_trades().len(), 0);

    let again = db.close_trade(trade.id, 10).unwrap();
    assert_eq!(again.pnl, Some(500));
    assert_eq!(again.exit_price, Some(150));
    assert_eq!(db.copied_trades[0].pnl, Some(150));
}

#[test]
fn close_unknown_trade_is_none() {
    let mut db = Database::new();
    assert!(db.close_trade(42, 10).is_none());
    assert!(db.stop_copying(42).is_none());
    assert!(db.user(42).is_none());
}

#[test]
fn stop_copying_twice_floors_at_zero() {
    let mut db = Database::new();
    let trader = db.register_user("T".to_string(), true);
    let follower = db.register_user("F".to_string(), false);
    let rel = execute_copy_trader(&mut db, &CopyTraderInput { follower_id: follower.id, trader_id: trader.id, copy_ratio: 5000 }).unwrap();
    let stopped = db.stop_copying(rel.id).unwrap();
    assert!(!stopped.active);
    assert_eq!(db.user(trader.id).unwrap().followers_count, 0);
    db.stop_copying(rel.id).unwrap();
    assert_eq!(db.user(trader.id).unwrap().followers_count, 0);
    assert_eq!(db.my_copy_relations(follower.id).len(), 0);
}

#[test]
fn register_user_defaults() {
    let mut db = Database::new();
    let u = db.register_user("NewInvestor".to_string(), false);
    assert_eq!(u.username, "NewInvestor");
    assert_eq!(u.balance, 1000000);
    assert_eq!(u.total_pnl, 0);
    assert_eq!(u.followers_count, 0);
    assert!(!u.is_trader);
    let t = db.register_user("AlphaTrader".to_string(), true);
    assert_ne!(u.id, t.id);
    assert_eq!((t.id >> 76) & 0xf, 4);
    assert_eq!(db.users().len(), 2);
    assert_eq!(db.traders().len(), 1);
    assert_eq!(db.traders()[0].id, t.id);
}

#[test]
fn pnl_and_copy_formulas() {
    assert_eq!(compute_pnl(TradeDirection::Long, 100, 110, 2), 20);
    assert_eq!(compute_pnl(TradeDirection::Short, 100, 110, 2), -20);
    assert_eq!(compute_pnl(TradeDirection::Long, i64::MIN, i64::MAX, i64::MAX), (u64::MAX as i128) * (i64::MAX as i128));
    assert_eq!(compute_copied_quantity(2, 5000), 1);
    assert_eq!(compute_copied_quantity(7, 10000), 7);
    assert_eq!(compute_copied_quantity(99, 101), 0);
}

#[test]
fn build_rejects_bad_tables() {
    assert_eq!(Process::build(Vec::new()).err(), Some(BuildError::Empty));
    let unwired = vec![
        Node::Task { action: Action::ValidateCopyRequest, next: Some(1) },
        Node::Exclusive { condition: Condition::IsValid, yes: Some(2), no: None },
        Node::End,
    ];
    assert_eq!(Process::build(unwired).err(), Some(BuildError::Unwired { node: 1 }));
    let backward = vec![
        Node::Task { action: Action::ValidateCopyRequest, next: Some(1) },
        Node::Task { action: Action::CreateCopyRelation, next: Some(0) },
        Node::End,
    ];
    assert_eq!(Process::build(backward).err(), Some(BuildError::BadTarget { node: 1 }));
    let missing = vec![Node::Task { action: Action::ValidateCopyRequest, next: Some(5) }];
    assert_eq!(Process::build(missing).err(), Some(BuildError::BadTarget { node: 0 }));
    assert!(create_trade_process().is_ok());
    assert!(copy_trader_process().is_ok());
}

#[test]
fn run_reports_wrong_context() {
    let process = create_trade_process().ok().unwrap();
    let mut db = Database::new();
    let ctx = WorkflowCtx::Copy(CopyWorkflowCtx {
        follower_id: 1,
        trader_id: 2,
        copy_ratio: 5000,
        new_id: 3,
        now: 0,
        relation_id: None,
        is_valid: false,
        error: None,
    });
    assert_eq!(process.run(ctx, &mut db).err(), Some(RunError::WrongContext));
}

#[test]
fn copied_trade_fields() {
    let c = CopiedTrade {
        id: 1,
        original_trade_id: 2,
        follower_id: 3,
        quantity: 4,
        pnl: None,
        status: TradeStatus::Open,
    };
    let mut db = Database::new();
    db.insert_copied_trade(c);
    assert_eq!(db.my_copied_trades(3), vec![c]);
    assert_eq!(db.my_copied_trades(4).len(), 0);
}

#[test]
fn stopping_inactive_relation_changes_nothing() {
    let mut db = Database::new();
    let trader = db.register_user("T".to_string(), true);
    let f1 = db.register_user("F1".to_string(), false);
    let f2 = db.register_user("F2".to_string(), false);
    let r1 = execute_copy_trader(&mut db, &CopyTraderInput { follower_id: f1.id, trader_id: trader.id, copy_ratio: 5000 }).unwrap();
    execute_copy_trader(&mut db, &CopyTraderInput { follower_id: f2.id, trader_id: trader.id, copy_ratio: 5000 }).unwrap();
    assert_eq!(db.user(trader.id).unwrap().followers_count, 2);
    db.stop_copying(r1.id).unwrap();
    assert_eq!(db.user(trader.id).unwrap().followers_count, 1);
    let again = db.stop_copying(r1.id).unwrap();
    assert!(!again.active);
    assert_eq!(again.id, r1.id);
    assert_eq!(db.user(trader.id).unwrap().followers_count, 1);
}

#[test]
fn fresh_ids_are_distinct_and_unused() {
    let used: Vec<u128> = (0u128..6).collect();
    let id = unused_id(&used);
    assert!(!used.contains(&id));

    let mut db = Database::new();
    let trader = db.register_user("T".to_string(), true);
    for i in 0..4 {
        let f = db.register_user(format!("F{}", i), false);
        execute_copy_trader(&mut db, &CopyTraderInput { follower_id: f.id, trader_id: trader.id, copy_ratio: 5000 }).unwrap();
    }
    execute_create_trade(&mut db, &trade_input(trader.id, TradeDirection::Long, 10, 4)).unwrap();
    execute_create_trade(&mut db, &trade_input(trader.id, TradeDirection::Long, 10, 4)).unwrap();
    assert_eq!(db.copied_trades.len(), 8);
    for a in 0..8 {
        for b in 0..8 {
            if a != b {
                assert_ne!(db.copied_trades[a].id, db.copied_trades[b].id);
            }
        }
    }
    let ids = db.new_copy_ids(3);
    assert_eq!(ids.len(), 3);
    assert!(ids[0] != ids[1] && ids[1] != ids[2] && ids[0] != ids[2]);
    assert!(db.copied_trades.iter().all(|c| !ids.contains(&c.id)));
    let users = db.users();
    assert_eq!(users.len(), 5);
    assert_ne!(db.new_user_id(), trader.id);
}
