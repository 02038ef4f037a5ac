use vstd::prelude::*;

use crate::model::{
    valid_ratio, CopyRelation, Trade, TradeDirection, TradeStatus, MIN_RATIO_EXCLUSIVE, RATIO_SCALE,
};
use crate::ids::{relation_key, trade_key, unused};
use crate::store::{
    active_of_trader, copies_for, fresh_ids, users_with_follower, Database, DatabaseView,
};

verus! {

/// Why a workflow turned its input down.
#[derive(Debug, Clone, Copy, PartialEq, Eq, Structural)]
pub enum ValidationError {
    InvalidQuantity,
    InvalidPrice,
    InvalidCopyRatio,
}

/// A structural failure met while running a workflow graph.
#[derive(Debug, Clone, Copy, PartialEq, Eq, Structural)]
pub enum RunError {
    /// A task was handed the context of another workflow.
    WrongContext,
    /// A task found its context without the validated fields it needs.
    Unvalidated,
    /// The ids the context holds for new records are too few, repeated, or
    /// already in use.
    IdInUse,
    /// An edge leads to no node after its source.
    DanglingEdge,
    /// A gateway chose a branch that is not wired.
    UnwiredBranch,
}

/// The work a task node does.
#[derive(Debug, Clone, Copy, PartialEq, Eq, Structural)]
pub enum Action {
    ValidateTradeInput,
    CreateTradeRecord,
    CopyTradeToFollowers,
    ValidateCopyRequest,
    CreateCopyRelation,
    UpdateFollowerCount,
}

/// The question an exclusive gateway asks of the context.
#[derive(Debug, Clone, Copy, PartialEq, Eq, Structural)]
pub enum Condition {
    IsValid,
}

/// Execution context of the create-trade workflow. `new_id`, `copy_ids` and
/// `now` are drawn before the run: the id of the trade, the ids of its copies
/// (one per follower, in order) and the creation time.
pub struct TradeWorkflowCtx {
    pub trader_id: u128,
    pub symbol: String,
    pub direction: TradeDirection,
    pub entry_price: i64,
    pub quantity: i64,
    pub new_id: u128,
    pub copy_ids: Vec<u128>,
    pub now: i64,
    pub trade_id: Option<u128>,
    pub is_valid: bool,
    pub error: Option<ValidationError>,
}

/// Execution context of the copy-trader workflow; `new_id` and `now` are the
/// id and creation time of the relation, drawn before the run.
pub struct CopyWorkflowCtx {
    pub follower_id: u128,
    pub trader_id: u128,
    pub copy_ratio: i64,
    pub new_id: u128,
    pub now: i64,
    pub relation_id: Option<u128>,
    pub is_valid: bool,
    pub error: Option<ValidationError>,
}

pub enum WorkflowCtx {
    Trade(TradeWorkflowCtx),
    Copy(CopyWorkflowCtx),
}

/// The open trade that a create-trade context describes.
pub open spec fn trade_of(c: TradeWorkflowCtx) -> Trade {
    Trade {
        id: c.new_id,
        trader_id: c.trader_id,
        symbol: c.symbol,
        direction: c.direction,
        entry_price: c.entry_price,
        exit_price: None,
        quantity: c.quantity,
        pnl: None,
        status: TradeStatus::Open,
        created_at: c.now,
        closed_at: None,
    }
}

/// The active relation that a copy-trader context describes.
pub open spec fn relation_of(c: CopyWorkflowCtx) -> CopyRelation {
    CopyRelation {
        id: c.new_id,
        follower_id: c.follower_id,
        trader_id: c.trader_id,
        copy_ratio: c.copy_ratio,
        active: true,
        created_at: c.now,
    }
}

/// A create-trade context after validation: the quantity is checked first,
/// then the entry price.
pub open spec fn validated_trade(c: TradeWorkflowCtx) -> TradeWorkflowCtx {
    if c.quantity <= 0 {
        TradeWorkflowCtx { is_valid: false, error: Some(ValidationError::InvalidQuantity), ..c }
    } else if c.entry_price <= 0 {
        TradeWorkflowCtx { is_valid: false, error: Some(ValidationError::InvalidPrice), ..c }
    } else {
        TradeWorkflowCtx { is_valid: true, ..c }
    }
}

/// A copy-trader context after validation of its ratio.
pub open spec fn validated_copy(c: CopyWorkflowCtx) -> CopyWorkflowCtx {
    if valid_ratio(c.copy_ratio as int) {
        CopyWorkflowCtx { is_valid: true, ..c }
    } else {
        CopyWorkflowCtx { is_valid: false, error: Some(ValidationError::InvalidCopyRatio), ..c }
    }
}

/// What task `action` does to the context and the store.
pub open spec fn task_spec(action: Action, ctx: WorkflowCtx, db: DatabaseView) -> (
    Result<WorkflowCtx, RunError>,
    DatabaseView,
) {
    match (action, ctx) {
        (Action::ValidateTradeInput, WorkflowCtx::Trade(c)) => (
            Ok(WorkflowCtx::Trade(validated_trade(c))),
            db,
        ),
        (Action::CreateTradeRecord, WorkflowCtx::Trade(c)) => if !(c.quantity > 0 && c.entry_price > 0) {
            (Err(RunError::Unvalidated), db)
        } else if !unused(db.trades, trade_key(), c.new_id) {
            (Err(RunError::IdInUse), db)
        } else {
            (
                Ok(WorkflowCtx::Trade(TradeWorkflowCtx { trade_id: Some(c.new_id), ..c })),
                DatabaseView { trades: db.trades.push(trade_of(c)), ..db },
            )
        },
        (Action::CopyTradeToFollowers, WorkflowCtx::Trade(c)) => {
            let fs = db.relations.filter(active_of_trader(c.trader_id));
            if c.trade_id.is_none() || c.quantity <= 0 {
                (Err(RunError::Unvalidated), db)
            } else if !fresh_ids(c.copy_ids@, fs.len() as int, db.copied) {
                (Err(RunError::IdInUse), db)
            } else {
                (
                    Ok(WorkflowCtx::Trade(c)),
                    DatabaseView {
                        copied: db.copied + copies_for(fs, c.copy_ids@, c.trade_id.unwrap(), c.quantity),
                        ..db
                    },
                )
            }
        },
        (Action::ValidateCopyRequest, WorkflowCtx::Copy(c)) => (
            Ok(WorkflowCtx::Copy(validated_copy(c))),
            db,
        ),
        (Action::CreateCopyRelation, WorkflowCtx::Copy(c)) => if !valid_ratio(c.copy_ratio as int) {
            (Err(RunError::Unvalidated), db)
        } else if !unused(db.relations, relation_key(), c.new_id) {
            (Err(RunError::IdInUse), db)
        } else {
            (
                Ok(WorkflowCtx::Copy(CopyWorkflowCtx { relation_id: Some(c.new_id), ..c })),
                DatabaseView { relations: db.relations.push(relation_of(c)), ..db },
            )
        },
        (Action::UpdateFollowerCount, WorkflowCtx::Copy(c)) => (
            Ok(WorkflowCtx::Copy(c)),
            DatabaseView { users: users_with_follower(db.users, c.trader_id), ..db },
        ),
        _ => (Err(RunError::WrongContext), db),
    }
}

/// The branch a gateway takes: `true` for "yes".
pub open spec fn decide_spec(condition: Condition, ctx: WorkflowCtx) -> bool {
    match condition {
        Condition::IsValid => match ctx {
            WorkflowCtx::Trade(c) => c.is_valid,
            WorkflowCtx::Copy(c) => c.is_valid,
        },
    }
}

pub fn decide(condition: Condition, ctx: &WorkflowCtx) -> (r: bool)
    ensures
        r == decide_spec(condition, *ctx),
{
    match condition {
        Condition::IsValid => match ctx {
            WorkflowCtx::Trade(c) => c.is_valid,
            WorkflowCtx::Copy(c) => c.is_valid,
        },
    }
}

/// Runs task `action` on `ctx` against the store.
pub fn perform(action: Action, ctx: WorkflowCtx, store: &mut Database) -> (r: Result<
    WorkflowCtx,
    RunError,
>)
    requires
        old(store)@.wf(),
    ensures
        final(store)@.wf(),
        (r, final(store)@) == task_spec(action, ctx, old(store)@),
{
    match (action, ctx) {
        (Action::ValidateTradeInput, WorkflowCtx::Trade(mut c)) => {
            if c.quantity <= 0 {
                c.is_valid = false;
                c.error = Some(ValidationError::InvalidQuantity);
            } else if c.entry_price <= 0 {
                c.is_valid = false;
                c.error = Some(ValidationError::InvalidPrice);
            } else {
                c.is_valid = true;
            }
            Ok(WorkflowCtx::Trade(c))
        },
        (Action::CreateTradeRecord, WorkflowCtx::Trade(mut c)) => {
            if c.quantity <= 0 || c.entry_price <= 0 {
                return Err(RunError::Unvalidated);
            }
            if store.find_trade(c.new_id).is_some() {
                return Err(RunError::IdInUse);
            }
            let trade = Trade {
                id: c.new_id,
                trader_id: c.trader_id,
                symbol: c.symbol.clone(),
                direction: c.direction,
                entry_price: c.entry_price,
                exit_price: None,
                quantity: c.quantity,
                pnl: None,
                status: TradeStatus::Open,
                created_at: c.now,
                closed_at: None,
            };
            store.insert_trade(trade);
            c.trade_id = Some(c.new_id);
            Ok(WorkflowCtx::Trade(c))
        },
        (Action::CopyTradeToFollowers, WorkflowCtx::Trade(c)) => {
            let trade_id = match c.trade_id {
                Some(id) => id,
                None => {
                    return Err(RunError::Unvalidated);
                },
            };
            if c.quantity <= 0 {
                return Err(RunError::Unvalidated);
            }
            let n = store.followers_of(c.trader_id).len();
            if !store.copy_ids_fresh(&c.copy_ids, n) {
                return Err(RunError::IdInUse);
            }
            store.copy_to_followers(trade_id, c.trader_id, c.quantity, &c.copy_ids);
            Ok(WorkflowCtx::Trade(c))
        },
        (Action::ValidateCopyRequest, WorkflowCtx::Copy(mut c)) => {
            if c.copy_ratio > MIN_RATIO_EXCLUSIVE && c.copy_ratio <= RATIO_SCALE {
                c.is_valid = true;
            } else {
                c.is_valid = false;
                c.error = Some(ValidationError::InvalidCopyRatio);
            }
            Ok(WorkflowCtx::Copy(c))
        },
        (Action::CreateCopyRelation, WorkflowCtx::Copy(mut c)) => {
            if !(c.copy_ratio > MIN_RATIO_EXCLUSIVE && c.copy_ratio <= RATIO_SCALE) {
                return Err(RunError::Unvalidated);
            }
            if store.find_relation(c.new_id).is_some() {
                return Err(RunError::IdInUse);
            }
            let relation = CopyRelation {
                id: c.new_id,
                follower_id: c.follower_id,
                trader_id: c.trader_id,
                copy_ratio: c.copy_ratio,
                active: true,
                created_at: c.now,
            };
            store.insert_relation(relation);
            c.relation_id = Some(c.new_id);
            Ok(WorkflowCtx::Copy(c))
        },
        (Action::UpdateFollowerCount, WorkflowCtx::Copy(c)) => {
            store.add_follower(c.trader_id);
            Ok(WorkflowCtx::Copy(c))
        },
        (_, _) => Err(RunError::WrongContext),
    }
}

} // verus!
