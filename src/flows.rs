use vstd::prelude::*;

use crate::engine::{node_error, run_spec, BuildError, Node, Process};
use crate::model::{
    copied_quantity, valid_ratio, CopiedTrade, CopyRelation, Trade, TradeDirection, TradeStatus,
};
use crate::ids::{copy_key, relation_key, trade_key, unused};
use crate::outside::now_timestamp;
use crate::store::{
    active_of_trader, copies_for, users_with_follower,
    Database, DatabaseView,
};
use crate::tasks::{
    Action, Condition, CopyWorkflowCtx, RunError, TradeWorkflowCtx, ValidationError, WorkflowCtx,
};

verus! {

/// Request to open a trade; prices in minor units, quantity in lots.
pub struct CreateTradeInput {
    pub trader_id: u128,
    pub symbol: String,
    pub direction: TradeDirection,
    pub entry_price: i64,
    pub quantity: i64,
}

/// Request that `follower_id` copy `trader_id` at `copy_ratio` basis points.
#[derive(Debug, Clone, Copy, PartialEq, Eq, Structural)]
pub struct CopyTraderInput {
    pub follower_id: u128,
    pub trader_id: u128,
    pub copy_ratio: i64,
}

/// Failure of a workflow call: a rejected input, or a fault of the workflow
/// graph itself.
#[derive(Debug, Clone, Copy, PartialEq, Eq, Structural)]
pub enum WorkflowError {
    Invalid(ValidationError),
    Build(BuildError),
    Run(RunError),
}

/// Validate, branch on validity, record the trade, copy it to followers.
pub open spec fn create_trade_graph() -> Seq<Node> {
    seq![
        Node::Task { action: Action::ValidateTradeInput, next: Some(1) },
        Node::Exclusive { condition: Condition::IsValid, yes: Some(2), no: Some(4) },
        Node::Task { action: Action::CreateTradeRecord, next: Some(3) },
        Node::Task { action: Action::CopyTradeToFollowers, next: Some(4) },
        Node::End,
    ]
}

/// Validate, branch on validity, record the relation, count the follower.
pub open spec fn copy_trader_graph() -> Seq<Node> {
    seq![
        Node::Task { action: Action::ValidateCopyRequest, next: Some(1) },
        Node::Exclusive { condition: Condition::IsValid, yes: Some(2), no: Some(4) },
        Node::Task { action: Action::CreateCopyRelation, next: Some(3) },
        Node::Task { action: Action::UpdateFollowerCount, next: Some(4) },
        Node::End,
    ]
}

fn build_four_step(validate: Action, create: Action, follow_up: Action) -> (r: Result<Process, BuildError>)
    ensures
        match r {
            Ok(p) => p.nodes() == seq![
                Node::Task { action: validate, next: Some(1) },
                Node::Exclusive { condition: Condition::IsValid, yes: Some(2), no: Some(4) },
                Node::Task { action: create, next: Some(3) },
                Node::Task { action: follow_up, next: Some(4) },
                Node::End,
            ],
            Err(_) => false,
        },
{
    let mut nodes: Vec<Node> = Vec::new();
    nodes.push(Node::Task { action: validate, next: Some(1) });
    nodes.push(Node::Exclusive { condition: Condition::IsValid, yes: Some(2), no: Some(4) });
    nodes.push(Node::Task { action: create, next: Some(3) });
    nodes.push(Node::Task { action: follow_up, next: Some(4) });
    nodes.push(Node::End);
    let ghost table = nodes@;
    assert(forall|i: int| 0 <= i < table.len() ==> node_error(table, i).is_none());
    let r = Process::build(nodes);
    assert(table =~= seq![
        Node::Task { action: validate, next: Some(1) },
        Node::Exclusive { condition: Condition::IsValid, yes: Some(2), no: Some(4) },
        Node::Task { action: create, next: Some(3) },
        Node::Task { action: follow_up, next: Some(4) },
        Node::End,
    ]);
    r
}

/// The graph of the create-trade workflow.
pub fn create_trade_process() -> (r: Result<Process, BuildError>)
    ensures
        match r {
            Ok(p) => p.nodes() == create_trade_graph(),
            Err(_) => false,
        },
{
    build_four_step(Action::ValidateTradeInput, Action::CreateTradeRecord, Action::CopyTradeToFollowers)
}

/// The graph of the copy-trader workflow.
pub fn copy_trader_process() -> (r: Result<Process, BuildError>)
    ensures
        match r {
            Ok(p) => p.nodes() == copy_trader_graph(),
            Err(_) => false,
        },
{
    build_four_step(Action::ValidateCopyRequest, Action::CreateCopyRelation, Action::UpdateFollowerCount)
}


/// `t` is the open trade that `input` asks for.
pub open spec fn opened_from(t: Trade, input: CreateTradeInput) -> bool {
    &&& t.trader_id == input.trader_id
    &&& t.symbol == input.symbol
    &&& t.direction == input.direction
    &&& t.entry_price == input.entry_price
    &&& t.quantity == input.quantity
    &&& t.exit_price.is_none()
    &&& t.pnl.is_none()
    &&& t.status == TradeStatus::Open
    &&& t.closed_at.is_none()
}

/// `c` is the open copy of trade `t` that relation `f` calls for.
pub open spec fn copy_matches(c: CopiedTrade, f: CopyRelation, t: Trade) -> bool {
    &&& c.original_trade_id == t.id
    &&& c.follower_id == f.follower_id
    &&& c.quantity == copied_quantity(t.quantity as int, f.copy_ratio as int)
    &&& c.pnl.is_none()
    &&& c.status == TradeStatus::Open
}

/// From `before` to `after`, exactly one copy of `t` was appended for each
/// active follower of its trader, in the order of the relations, each under
/// its own id that no earlier copied trade used.
pub open spec fn copied_to_followers(before: DatabaseView, after: DatabaseView, t: Trade) -> bool {
    let fs = before.relations.filter(active_of_trader(t.trader_id));
    &&& after.copied.len() == before.copied.len() + fs.len()
    &&& after.copied.subrange(0, before.copied.len() as int) == before.copied
    &&& forall|k: int|
        0 <= k < fs.len() ==> copy_matches(#[trigger] after.copied[before.copied.len() + k], fs[k], t)
    &&& forall|k: int|
        0 <= k < fs.len() ==> unused(before.copied, copy_key(), #[trigger] after.copied[before.copied.len() + k].id)
    &&& forall|k: int, l: int|
        0 <= k < fs.len() && 0 <= l < fs.len() && k != l ==> #[trigger] after.copied[before.copied.len() + k].id
            != #[trigger] after.copied[before.copied.len() + l].id
}

/// Runs the create-trade workflow: an input with a positive quantity and entry
/// price opens a trade and copies it to every active follower of its trader;
/// any other input is turned down with the first fault found and changes
/// nothing.
pub fn execute_create_trade(store: &mut Database, input: &CreateTradeInput) -> (r: Result<
    Trade,
    WorkflowError,
>)
    requires
        old(store)@.wf(),
    ensures
        final(store)@.wf(),
        input.quantity <= 0 ==> {
            &&& r == Err::<Trade, WorkflowError>(
                WorkflowError::Invalid(ValidationError::InvalidQuantity),
            )
            &&& final(store)@ == old(store)@
        },
        input.quantity > 0 && input.entry_price <= 0 ==> {
            &&& r == Err::<Trade, WorkflowError>(WorkflowError::Invalid(ValidationError::InvalidPrice))
            &&& final(store)@ == old(store)@
        },
        input.quantity > 0 && input.entry_price > 0 ==> match r {
            Ok(t) => {
                &&& opened_from(t, *input)
                &&& unused(old(store)@.trades, trade_key(), t.id)
                &&& final(store)@.trades == old(store)@.trades.push(t)
                &&& final(store)@.users == old(store)@.users
                &&& final(store)@.relations == old(store)@.relations
                &&& copied_to_followers(old(store)@, final(store)@, t)
            },
            Err(_) => false,
        },
{
    let process = match create_trade_process() {
        Ok(p) => p,
        Err(e) => {
            return Err(WorkflowError::Build(e));
        },
    };
    let new_id = store.new_trade_id();
    let wanted = store.followers_of(input.trader_id).len();
    let copy_ids = store.new_copy_ids(wanted);
    let ghost ids = copy_ids@;
    let ctx = TradeWorkflowCtx {
        trader_id: input.trader_id,
        symbol: input.symbol.clone(),
        direction: input.direction,
        entry_price: input.entry_price,
        quantity: input.quantity,
        new_id,
        copy_ids,
        now: now_timestamp(),
        trade_id: None,
        is_valid: false,
        error: None,
    };
    let ghost c0 = ctx;
    let n = store.trades.len();
    let result = process.run(WorkflowCtx::Trade(ctx), store);
    proof {
        reveal_with_fuel(run_spec, 6);
        let fs = old(store)@.relations.filter(active_of_trader(input.trader_id));
        if input.quantity > 0 && input.entry_price > 0 {
            let t = crate::tasks::trade_of(c0);
            assert(store@.copied == old(store)@.copied + copies_for(fs, ids, new_id, input.quantity));
            assert(store@.copied.subrange(0, old(store)@.copied.len() as int) =~= old(store)@.copied);
            assert forall|k: int| 0 <= k < fs.len() implies copy_matches(
                #[trigger] store@.copied[old(store)@.copied.len() + k],
                fs[k],
                t,
            ) by {
                assert(store@.copied[old(store)@.copied.len() + k] == copies_for(fs, ids, new_id, input.quantity)[k]);
                crate::store::lemma_filter_keeps_ratios(old(store)@.relations, active_of_trader(input.trader_id));
                crate::model::lemma_copied_quantity_bounds(input.quantity as int, fs[k].copy_ratio as int);
            }
        }
    }
    match result {
        Err(e) => Err(WorkflowError::Run(e)),
        Ok(WorkflowCtx::Trade(c)) => match c.trade_id {
            Some(_) => {
                if n < store.trades.len() {
                    Ok(store.trades[n].clone())
                } else {
                    Err(WorkflowError::Run(RunError::Unvalidated))
                }
            },
            None => match c.error {
                Some(e) => Err(WorkflowError::Invalid(e)),
                None => Err(WorkflowError::Run(RunError::Unvalidated)),
            },
        },
        Ok(_) => Err(WorkflowError::Run(RunError::WrongContext)),
    }
}

/// Runs the copy-trader workflow: a ratio in (0.01, 1.0] records an active
/// relation and adds one to the trader's follower count; any other ratio is
/// turned down and changes nothing.
pub fn execute_copy_trader(store: &mut Database, input: &CopyTraderInput) -> (r: Result<
    CopyRelation,
    WorkflowError,
>)
    requires
        old(store)@.wf(),
    ensures
        final(store)@.wf(),
        !valid_ratio(input.copy_ratio as int) ==> {
            &&& r == Err::<CopyRelation, WorkflowError>(
                WorkflowError::Invalid(ValidationError::InvalidCopyRatio),
            )
            &&& final(store)@ == old(store)@
        },
        valid_ratio(input.copy_ratio as int) ==> match r {
            Ok(rel) => {
                &&& rel.follower_id == input.follower_id
                &&& rel.trader_id == input.trader_id
                &&& rel.copy_ratio == input.copy_ratio
                &&& rel.active
                &&& unused(old(store)@.relations, relation_key(), rel.id)
                &&& final(store)@.relations == old(store)@.relations.push(rel)
                &&& final(store)@.users == users_with_follower(old(store)@.users, input.trader_id)
                &&& final(store)@.trades == old(store)@.trades
                &&& final(store)@.copied == old(store)@.copied
            },
            Err(_) => false,
        },
{
    let process = match copy_trader_process() {
        Ok(p) => p,
        Err(e) => {
            return Err(WorkflowError::Build(e));
        },
    };
    let ctx = CopyWorkflowCtx {
        follower_id: input.follower_id,
        trader_id: input.trader_id,
        copy_ratio: input.copy_ratio,
        new_id: store.new_relation_id(),
        now: now_timestamp(),
        relation_id: None,
        is_valid: false,
        error: None,
    };
    let n = store.copy_relations.len();
    let result = process.run(WorkflowCtx::Copy(ctx), store);
    proof {
        reveal_with_fuel(run_spec, 6);
    }
    match result {
        Err(e) => Err(WorkflowError::Run(e)),
        Ok(WorkflowCtx::Copy(c)) => match c.relation_id {
            Some(_) => {
                if n < store.copy_relations.len() {
                    Ok(store.copy_relations[n])
                } else {
                    Err(WorkflowError::Run(RunError::Unvalidated))
                }
            },
            None => match c.error {
                Some(e) => Err(WorkflowError::Invalid(e)),
                None => Err(WorkflowError::Run(RunError::Unvalidated)),
            },
        },
        Ok(_) => Err(WorkflowError::Run(RunError::WrongContext)),
    }
}

} // verus!
