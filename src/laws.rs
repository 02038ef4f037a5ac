use vstd::prelude::*;

use crate::model::{lemma_pnl_fits, CopiedTrade, Trade, TradeDirection, TradeStatus, User};
use crate::model::CopyRelation;
use crate::store::{
    active_of_trader, bounded_increment, closed_trade, first_user, floored_decrement, settle_copy,
    users_with_follower,
};

verus! {

/// Closing a trade sets its exit price, profit/loss and closing time together
/// with its closed status; the profit/loss is (exit - entry) x quantity for a
/// long and (entry - exit) x quantity for a short.
pub proof fn lemma_closed_trade_rule(t: Trade, exit: i64, at: i64)
    ensures
        closed_trade(t, exit, at).wf(),
        closed_trade(t, exit, at).status == TradeStatus::Closed,
        t.direction == TradeDirection::Long ==> closed_trade(t, exit, at).pnl.unwrap() as int == (
        exit - t.entry_price) * t.quantity,
        t.direction == TradeDirection::Short ==> closed_trade(t, exit, at).pnl.unwrap() as int == (
        t.entry_price - exit) * t.quantity,
{
    lemma_pnl_fits(t.direction, t.entry_price, exit, t.quantity);
}

/// Settling the copies of a closed trade closes each copy with the profit/loss
/// of its own quantity under the trade's direction rule, keeps its closing
/// fields consistent, and settling again changes nothing.
pub proof fn lemma_settle_copy_rule(
    c: CopiedTrade,
    trade_id: u128,
    direction: TradeDirection,
    entry: i64,
    exit: i64,
)
    requires
        c.original_trade_id == trade_id,
    ensures
        settle_copy(c, trade_id, direction, entry, exit).wf(),
        settle_copy(c, trade_id, direction, entry, exit).status == TradeStatus::Closed,
        settle_copy(c, trade_id, direction, entry, exit).quantity == c.quantity,
        direction == TradeDirection::Long ==> settle_copy(c, trade_id, direction, entry, exit).pnl.unwrap() as int
            == (exit - entry) * c.quantity,
        direction == TradeDirection::Short ==> settle_copy(c, trade_id, direction, entry, exit).pnl.unwrap() as int
            == (entry - exit) * c.quantity,
        settle_copy(settle_copy(c, trade_id, direction, entry, exit), trade_id, direction, entry, exit)
            == settle_copy(c, trade_id, direction, entry, exit),
{
    lemma_pnl_fits(direction, entry, exit, c.quantity);
}

/// A successful copy request raises the trader's follower count by exactly
/// one (below the largest `i32`) and leaves every other account as it was.
pub proof fn lemma_copy_adds_one_follower(users: Seq<User>, trader_id: u128, k: int)
    requires
        first_user(users, k, trader_id),
        users[k].followers_count < i32::MAX,
    ensures
        users_with_follower(users, trader_id).len() == users.len(),
        users_with_follower(users, trader_id)[k].followers_count == users[k].followers_count + 1,
        forall|j: int|
            0 <= j < users.len() && j != k ==> #[trigger] users_with_follower(users, trader_id)[j]
                == users[j],
{
    assert forall|j: int| 0 <= j < users.len() && j != k implies #[trigger] users_with_follower(
        users,
        trader_id,
    )[j] == users[j] by {
        assert(!first_user(users, j, trader_id));
    }
}

/// Stopping a copy never takes a follower count below zero, however many
/// times it is applied, and lowers a positive count by exactly one.
pub proof fn lemma_stop_copying_floor(count: i32)
    ensures
        floored_decrement(count) >= 0,
        floored_decrement(floored_decrement(count)) >= 0,
        count > 0 ==> floored_decrement(count) == count - 1,
        bounded_increment(count) >= count,
{
}


/// Where a trader's follower count equals the number of active relations that
/// follow it, recording one more active relation to that trader and counting
/// the follower (as a successful copy request does) keeps the two equal.
pub proof fn lemma_copy_keeps_follower_tally(
    users: Seq<User>,
    relations: Seq<CopyRelation>,
    rel: CopyRelation,
    k: int,
)
    requires
        first_user(users, k, rel.trader_id),
        rel.active,
        users[k].followers_count < i32::MAX,
        users[k].followers_count == relations.filter(active_of_trader(rel.trader_id)).len(),
    ensures
        users_with_follower(users, rel.trader_id)[k].followers_count == relations.push(rel).filter(
            active_of_trader(rel.trader_id),
        ).len(),
{
    reveal(Seq::filter);
    assert(relations.push(rel).drop_last() =~= relations);
}


proof fn lemma_filter_len_drop_one(s: Seq<CopyRelation>, i: int, x: CopyRelation, pred: spec_fn(CopyRelation) -> bool)
    requires
        0 <= i < s.len(),
        pred(s[i]),
        !pred(x),
    ensures
        s.update(i, x).filter(pred).len() + 1 == s.filter(pred).len(),
    decreases s.len(),
{
    reveal(Seq::filter);
    let u = s.update(i, x);
    if i == s.len() - 1 {
        assert(u.drop_last() =~= s.drop_last());
    } else {
        assert(u.drop_last() =~= s.drop_last().update(i, x));
        lemma_filter_len_drop_one(s.drop_last(), i, x, pred);
    }
}

/// Where a trader's follower count equals the number of active relations that
/// follow it, stopping one of those active relations (deactivating it and
/// lowering the count, never below zero) keeps the two equal.
pub proof fn lemma_stop_keeps_follower_tally(
    users: Seq<User>,
    relations: Seq<CopyRelation>,
    i: int,
    k: int,
)
    requires
        0 <= i < relations.len(),
        relations[i].active,
        first_user(users, k, relations[i].trader_id),
        users[k].followers_count == relations.filter(active_of_trader(relations[i].trader_id)).len(),
    ensures
        floored_decrement(users[k].followers_count) == relations.update(
            i,
            CopyRelation { active: false, ..relations[i] },
        ).filter(active_of_trader(relations[i].trader_id)).len(),
{
    lemma_filter_len_drop_one(
        relations,
        i,
        CopyRelation { active: false, ..relations[i] },
        active_of_trader(relations[i].trader_id),
    );
}

} // verus!
