use vstd::prelude::*;

use crate::model::{
    compute_copied_quantity, compute_pnl, copied_quantity, pnl_of, valid_ratio, CopiedTrade, CopyRelation, Trade, TradeDirection,
    TradeStatus, User,
};
use crate::ids::{
    copy_key, lemma_filter_unique, lemma_same_keys, lemma_unique_push, relation_key, trade_key,
    unique_ids, unused, unused_id, user_key,
};
use crate::outside::now_timestamp;

verus! {

/// Starting balance of a newly registered account, in minor units.
pub const STARTING_BALANCE: i64 = 1000000;

/// The shared domain store: the four entity collections, each kept in order of
/// insertion, with no two entries of one collection under the same id.
pub struct Database {
    pub users: Vec<User>,
    pub trades: Vec<Trade>,
    pub copy_relations: Vec<CopyRelation>,
    pub copied_trades: Vec<CopiedTrade>,
}

pub struct DatabaseView {
    pub users: Seq<User>,
    pub trades: Seq<Trade>,
    pub relations: Seq<CopyRelation>,
    pub copied: Seq<CopiedTrade>,
}

impl View for Database {
    type V = DatabaseView;

    open spec fn view(&self) -> DatabaseView {
        DatabaseView {
            users: self.users@,
            trades: self.trades@,
            relations: self.copy_relations@,
            copied: self.copied_trades@,
        }
    }
}

impl DatabaseView {
    /// Ids are unique within each collection, every trade and copied trade
    /// keeps its closing fields consistent with its status, and every copy
    /// relation holds an accepted ratio.
    pub open spec fn wf(&self) -> bool {
        &&& unique_ids(self.users, user_key())
        &&& unique_ids(self.trades, trade_key())
        &&& unique_ids(self.relations, relation_key())
        &&& unique_ids(self.copied, copy_key())
        &&& forall|i: int| 0 <= i < self.trades.len() ==> (#[trigger] self.trades[i]).wf()
        &&& forall|i: int| 0 <= i < self.copied.len() ==> (#[trigger] self.copied[i]).wf()
        &&& forall|i: int|
            0 <= i < self.relations.len() ==> valid_ratio((#[trigger] self.relations[i]).copy_ratio as int)
    }
}

/// `i` is the earliest position of `s` whose element has id `id`.
pub open spec fn first_user(s: Seq<User>, i: int, id: u128) -> bool {
    0 <= i < s.len() && s[i].id == id && forall|j: int| 0 <= j < i ==> s[j].id != id
}

pub open spec fn first_trade(s: Seq<Trade>, i: int, id: u128) -> bool {
    0 <= i < s.len() && s[i].id == id && forall|j: int| 0 <= j < i ==> s[j].id != id
}

pub open spec fn first_relation(s: Seq<CopyRelation>, i: int, id: u128) -> bool {
    0 <= i < s.len() && s[i].id == id && forall|j: int| 0 <= j < i ==> s[j].id != id
}

pub open spec fn is_trader() -> spec_fn(User) -> bool {
    |u: User| u.is_trader
}

pub open spec fn traded_by(trader_id: u128) -> spec_fn(Trade) -> bool {
    |t: Trade| t.trader_id == trader_id
}

pub open spec fn is_open() -> spec_fn(Trade) -> bool {
    |t: Trade| t.status == TradeStatus::Open
}

/// Active relations in which `follower_id` follows someone.
pub open spec fn active_of_follower(follower_id: u128) -> spec_fn(CopyRelation) -> bool {
    |r: CopyRelation| r.follower_id == follower_id && r.active
}

/// Active relations in which someone follows `trader_id`.
pub open spec fn active_of_trader(trader_id: u128) -> spec_fn(CopyRelation) -> bool {
    |r: CopyRelation| r.trader_id == trader_id && r.active
}

pub open spec fn copied_by(follower_id: u128) -> spec_fn(CopiedTrade) -> bool {
    |c: CopiedTrade| c.follower_id == follower_id
}

/// A follower count decremented by one, but never below zero.
pub open spec fn floored_decrement(count: i32) -> i32 {
    if count > 0 {
        (count - 1) as i32
    } else {
        0
    }
}

/// A follower count incremented by one, held at the largest `i32`.
pub open spec fn bounded_increment(count: i32) -> i32 {
    if count < i32::MAX {
        (count + 1) as i32
    } else {
        count
    }
}

/// The copied trade after the trade `trade_id` closed at `exit`: one that copies
/// it is closed, with the profit/loss of its own quantity.
pub open spec fn settle_copy(
    c: CopiedTrade,
    trade_id: u128,
    direction: TradeDirection,
    entry: i64,
    exit: i64,
) -> CopiedTrade {
    if c.original_trade_id == trade_id {
        CopiedTrade {
            pnl: Some(pnl_of(direction, entry as int, exit as int, c.quantity as int) as i128),
            status: TradeStatus::Closed,
            ..c
        }
    } else {
        c
    }
}

/// The trade `t` closed at `exit` at time `at`.
pub open spec fn closed_trade(t: Trade, exit: i64, at: i64) -> Trade {
    Trade {
        exit_price: Some(exit),
        pnl: Some(pnl_of(t.direction, t.entry_price as int, exit as int, t.quantity as int) as i128),
        status: TradeStatus::Closed,
        closed_at: Some(at),
        ..t
    }
}

/// The copy, with id `id`, that relation `f` takes of trade `trade_id` of
/// `quantity` lots.
pub open spec fn copy_for(f: CopyRelation, id: u128, trade_id: u128, quantity: i64) -> CopiedTrade {
    CopiedTrade {
        id,
        original_trade_id: trade_id,
        follower_id: f.follower_id,
        quantity: copied_quantity(quantity as int, f.copy_ratio as int) as i64,
        pnl: None,
        status: TradeStatus::Open,
    }
}

/// One copy per relation of `fs`, in order, the `k`-th with id `ids[k]`.
pub open spec fn copies_for(
    fs: Seq<CopyRelation>,
    ids: Seq<u128>,
    trade_id: u128,
    quantity: i64,
) -> Seq<CopiedTrade> {
    Seq::new(fs.len(), |k: int| copy_for(fs[k], ids[k], trade_id, quantity))
}

/// The accounts after the earliest one with id `trader_id` gained a follower.
pub open spec fn users_with_follower(users: Seq<User>, trader_id: u128) -> Seq<User> {
    Seq::new(
        users.len(),
        |k: int|
            if first_user(users, k, trader_id) {
                User { followers_count: bounded_increment(users[k].followers_count), ..users[k] }
            } else {
                users[k]
            },
    )
}

/// A filter keeps only relations drawn from its input, so it keeps their
/// accepted ratios.
pub proof fn lemma_filter_keeps_ratios(s: Seq<CopyRelation>, pred: spec_fn(CopyRelation) -> bool)
    requires
        forall|j: int| 0 <= j < s.len() ==> valid_ratio((#[trigger] s[j]).copy_ratio as int),
    ensures
        forall|j: int|
            0 <= j < s.filter(pred).len() ==> valid_ratio((#[trigger] s.filter(pred)[j]).copy_ratio as int),
    decreases s.len(),
{
    reveal(Seq::filter);
    if s.len() > 0 {
        let d = s.drop_last();
        assert forall|j: int| 0 <= j < d.len() implies valid_ratio((#[trigger] d[j]).copy_ratio as int) by {
            assert(d[j] == s[j]);
        }
        lemma_filter_keeps_ratios(d, pred);
        let f = d.filter(pred);
        assert(s.filter(pred) == if pred(s.last()) { f.push(s.last()) } else { f });
        assert forall|j: int| 0 <= j < s.filter(pred).len() implies valid_ratio(
            (#[trigger] s.filter(pred)[j]).copy_ratio as int,
        ) by {
            if j < f.len() {
                assert(s.filter(pred)[j] == f[j]);
            } else {
                assert(s.filter(pred)[j] == s[s.len() - 1]);
            }
        }
    }
}

/// The first `n` entries of `ids` are pairwise distinct and unused by every
/// copied trade of `copied`.
pub open spec fn fresh_ids(ids: Seq<u128>, n: int, copied: Seq<CopiedTrade>) -> bool {
    &&& 0 <= n <= ids.len()
    &&& forall|a: int, b: int| 0 <= a < n && 0 <= b < n && a != b ==> ids[a] != ids[b]
    &&& forall|a: int, j: int| 0 <= a < n && 0 <= j < copied.len() ==> copied[j].id != ids[a]
}

/// One step of a filter over a prefix that grows by one element.
pub proof fn lemma_filter_prefix<A>(s: Seq<A>, i: int, pred: spec_fn(A) -> bool)
    requires
        0 <= i < s.len(),
    ensures
        s.subrange(0, i + 1).filter(pred) == if pred(s[i]) {
            s.subrange(0, i).filter(pred).push(s[i])
        } else {
            s.subrange(0, i).filter(pred)
        },
{
    reveal(Seq::filter);
    assert(s.subrange(0, i + 1).drop_last() =~= s.subrange(0, i));
}

impl Database {
    pub fn new() -> (r: Database)
        ensures
            r@.users.len() == 0,
            r@.trades.len() == 0,
            r@.relations.len() == 0,
            r@.copied.len() == 0,
            r@.wf(),
    {
        Database {
            users: Vec::new(),
            trades: Vec::new(),
            copy_relations: Vec::new(),
            copied_trades: Vec::new(),
        }
    }

    pub fn insert_user(&mut self, user: User)
        requires
            old(self)@.wf(),
            unused(old(self)@.users, user_key(), user.id),
        ensures
            final(self)@.users == old(self)@.users.push(user),
            final(self)@.trades == old(self)@.trades,
            final(self)@.relations == old(self)@.relations,
            final(self)@.copied == old(self)@.copied,
            final(self)@.wf(),
    {
        proof {
            lemma_unique_push(old(self)@.users, user, user_key());
        }
        self.users.push(user);
        assert(self@.relations == old(self)@.relations);
        assert(self@.copied == old(self)@.copied);
        assert(self@.trades == old(self)@.trades);
    }

    pub fn insert_trade(&mut self, trade: Trade)
        requires
            old(self)@.wf(),
            trade.wf(),
            unused(old(self)@.trades, trade_key(), trade.id),
        ensures
            final(self)@.trades == old(self)@.trades.push(trade),
            final(self)@.users == old(self)@.users,
            final(self)@.relations == old(self)@.relations,
            final(self)@.copied == old(self)@.copied,
            final(self)@.wf(),
    {
        proof {
            lemma_unique_push(old(self)@.trades, trade, trade_key());
        }
        self.trades.push(trade);
        assert(self@.relations == old(self)@.relations);
        assert(self@.copied == old(self)@.copied);
        assert forall|i: int| 0 <= i < self@.trades.len() implies (#[trigger] self@.trades[i]).wf() by {
            if i < old(self)@.trades.len() {
                assert(self@.trades[i] == old(self)@.trades[i]);
            }
        }
    }

    pub fn insert_relation(&mut self, relation: CopyRelation)
        requires
            old(self)@.wf(),
            valid_ratio(relation.copy_ratio as int),
            unused(old(self)@.relations, relation_key(), relation.id),
        ensures
            final(self)@.relations == old(self)@.relations.push(relation),
            final(self)@.users == old(self)@.users,
            final(self)@.trades == old(self)@.trades,
            final(self)@.copied == old(self)@.copied,
            final(self)@.wf(),
    {
        proof {
            lemma_unique_push(old(self)@.relations, relation, relation_key());
        }
        self.copy_relations.push(relation);
        assert(self@.trades == old(self)@.trades);
        assert(self@.copied == old(self)@.copied);
        assert forall|i: int| 0 <= i < self@.relations.len() implies
            valid_ratio((#[trigger] self@.relations[i]).copy_ratio as int) by {
            if i < old(self)@.relations.len() {
                assert(self@.relations[i] == old(self)@.relations[i]);
            }
        }
    }

    pub fn insert_copied_trade(&mut self, copied: CopiedTrade)
        requires
            old(self)@.wf(),
            copied.wf(),
            unused(old(self)@.copied, copy_key(), copied.id),
        ensures
            final(self)@.copied == old(self)@.copied.push(copied),
            final(self)@.users == old(self)@.users,
            final(self)@.trades == old(self)@.trades,
            final(self)@.relations == old(self)@.relations,
            final(self)@.wf(),
    {
        proof {
            lemma_unique_push(old(self)@.copied, copied, copy_key());
        }
        self.copied_trades.push(copied);
        assert(self@.relations == old(self)@.relations);
        assert(self@.trades == old(self)@.trades);
        assert forall|i: int| 0 <= i < self@.copied.len() implies (#[trigger] self@.copied[i]).wf() by {
            if i < old(self)@.copied.len() {
                assert(self@.copied[i] == old(self)@.copied[i]);
            }
        }
    }

    /// An id that no account uses yet.
    pub fn new_user_id(&self) -> (r: u128)
        ensures
            unused(self@.users, user_key(), r),
    {
        let mut ids: Vec<u128> = Vec::new();
        let mut i: usize = 0;
        while i < self.users.len()
            invariant
                i <= self.users@.len(),
                ids@.len() == i,
                forall|j: int| 0 <= j < i ==> ids@[j] == #[trigger] self.users@[j].id,
            decreases self.users@.len() - i,
        {
            ids.push(self.users[i].id);
            i = i + 1;
        }
        let r = unused_id(&ids);
        assert forall|j: int| 0 <= j < self@.users.len() implies user_key()(#[trigger] self@.users[j]) != r by {
            if self@.users[j].id == r {
                assert(ids@[j] == r);
            }
        }
        r
    }

    /// An id that no trade uses yet.
    pub fn new_trade_id(&self) -> (r: u128)
        ensures
            unused(self@.trades, trade_key(), r),
    {
        let mut ids: Vec<u128> = Vec::new();
        let mut i: usize = 0;
        while i < self.trades.len()
            invariant
                i <= self.trades@.len(),
                ids@.len() == i,
                forall|j: int| 0 <= j < i ==> ids@[j] == #[trigger] self.trades@[j].id,
            decreases self.trades@.len() - i,
        {
            ids.push(self.trades[i].id);
            i = i + 1;
        }
        let r = unused_id(&ids);
        assert forall|j: int| 0 <= j < self@.trades.len() implies trade_key()(#[trigger] self@.trades[j]) != r by {
            if self@.trades[j].id == r {
                assert(ids@[j] == r);
            }
        }
        r
    }

    /// An id that no copy relation uses yet.
    pub fn new_relation_id(&self) -> (r: u128)
        ensures
            unused(self@.relations, relation_key(), r),
    {
        let mut ids: Vec<u128> = Vec::new();
        let mut i: usize = 0;
        while i < self.copy_relations.len()
            invariant
                i <= self.copy_relations@.len(),
                ids@.len() == i,
                forall|j: int| 0 <= j < i ==> ids@[j] == #[trigger] self.copy_relations@[j].id,
            decreases self.copy_relations@.len() - i,
        {
            ids.push(self.copy_relations[i].id);
            i = i + 1;
        }
        let r = unused_id(&ids);
        assert forall|j: int| 0 <= j < self@.relations.len() implies relation_key()(#[trigger] self@.relations[j]) != r by {
            if self@.relations[j].id == r {
                assert(ids@[j] == r);
            }
        }
        r
    }

    /// `n` ids, pairwise distinct, that no copied trade uses yet.
    pub fn new_copy_ids(&self, n: usize) -> (r: Vec<u128>)
        ensures
            r@.len() == n,
            fresh_ids(r@, n as int, self@.copied),
    {
        let mut used: Vec<u128> = Vec::new();
        let mut i: usize = 0;
        while i < self.copied_trades.len()
            invariant
                i <= self.copied_trades@.len(),
                used@.len() == i,
                forall|j: int| 0 <= j < i ==> used@[j] == #[trigger] self.copied_trades@[j].id,
            decreases self.copied_trades@.len() - i,
        {
            used.push(self.copied_trades[i].id);
            i = i + 1;
        }
        let ghost m = self@.copied.len();
        let mut r: Vec<u128> = Vec::new();
        let mut k: usize = 0;
        while k < n
            invariant
                k <= n,
                r@.len() == k,
                m == self@.copied.len(),
                used@.len() == m + k,
                forall|j: int| 0 <= j < m ==> used@[j] == #[trigger] self@.copied[j].id,
                forall|a: int| 0 <= a < k ==> used@[m + a] == #[trigger] r@[a],
                fresh_ids(r@, k as int, self@.copied),
            decreases n - k,
        {
            let x = unused_id(&used);
            assert forall|j: int| 0 <= j < m implies self@.copied[j].id != x by {
                assert(used@[j] == self@.copied[j].id);
            }
            assert forall|a: int| 0 <= a < k implies r@[a] != x by {
                assert(used@[m + a] == r@[a]);
            }
            r.push(x);
            used.push(x);
            k = k + 1;
        }
        r
    }

    /// Whether the first `n` entries of `ids` are pairwise distinct and unused
    /// by every copied trade.
    pub fn copy_ids_fresh(&self, ids: &Vec<u128>, n: usize) -> (r: bool)
        ensures
            r == fresh_ids(ids@, n as int, self@.copied),
    {
        if n > ids.len() {
            return false;
        }
        let mut a: usize = 0;
        while a < n
            invariant
                n <= ids@.len(),
                a <= n,
                forall|x: int, y: int| 0 <= x < a && 0 <= y < n && x != y ==> ids@[x] != ids@[y],
                forall|x: int, j: int| 0 <= x < a && 0 <= j < self@.copied.len() ==> self@.copied[j].id != ids@[x],
            decreases n - a,
        {
            let mut b: usize = 0;
            while b < n
                invariant
                    n <= ids@.len(),
                    a < n,
                    b <= n,
                    forall|y: int| 0 <= y < b && y != a ==> ids@[a as int] != ids@[y],
                decreases n - b,
            {
                if b != a && ids[a] == ids[b] {
                    return false;
                }
                b = b + 1;
            }
            let mut j: usize = 0;
            while j < self.copied_trades.len()
                invariant
                    n <= ids@.len(),
                    a < n,
                    j <= self@.copied.len(),
                    forall|y: int| 0 <= y < j ==> self@.copied[y].id != ids@[a as int],
                decreases self@.copied.len() - j,
            {
                if self.copied_trades[j].id == ids[a] {
                    return false;
                }
                j = j + 1;
            }
            a = a + 1;
        }
        true
    }

    /// Position of the earliest user with id `id`, if any.
    pub fn find_user(&self, id: u128) -> (r: Option<usize>)
        ensures
            match r {
                Some(i) => first_user(self@.users, i as int, id),
                None => forall|j: int| 0 <= j < self@.users.len() ==> self@.users[j].id != id,
            },
    {
        let mut i: usize = 0;
        while i < self.users.len()
            invariant
                i <= self.users@.len(),
                forall|j: int| 0 <= j < i ==> self.users@[j].id != id,
            decreases self.users@.len() - i,
        {
            if self.users[i].id == id {
                return Some(i);
            }
            i = i + 1;
        }
        None
    }

    /// Position of the earliest trade with id `id`, if any.
    pub fn find_trade(&self, id: u128) -> (r: Option<usize>)
        ensures
            match r {
                Some(i) => first_trade(self@.trades, i as int, id),
                None => forall|j: int| 0 <= j < self@.trades.len() ==> self@.trades[j].id != id,
            },
    {
        let mut i: usize = 0;
        while i < self.trades.len()
            invariant
                i <= self.trades@.len(),
                forall|j: int| 0 <= j < i ==> self.trades@[j].id != id,
            decreases self.trades@.len() - i,
        {
            if self.trades[i].id == id {
                return Some(i);
            }
            i = i + 1;
        }
        None
    }

    /// Position of the earliest copy relation with id `id`, if any.
    pub fn find_relation(&self, id: u128) -> (r: Option<usize>)
        ensures
            match r {
                Some(i) => first_relation(self@.relations, i as int, id),
                None => forall|j: int|
                    0 <= j < self@.relations.len() ==> self@.relations[j].id != id,
            },
    {
        let mut i: usize = 0;
        while i < self.copy_relations.len()
            invariant
                i <= self.copy_relations@.len(),
                forall|j: int| 0 <= j < i ==> self.copy_relations@[j].id != id,
            decreases self.copy_relations@.len() - i,
        {
            if self.copy_relations[i].id == id {
                return Some(i);
            }
            i = i + 1;
        }
        None
    }

    /// Closes the earliest trade with id `trade_id` at `exit_price` and settles
    /// every copied trade taken from it. A trade that is already closed is left
    /// as it is and returned; an unknown id changes nothing.
    pub fn close_trade(&mut self, trade_id: u128, exit_price: i64) -> (r: Option<Trade>)
        requires
            old(self)@.wf(),
        ensures
            final(self)@.wf(),
            final(self)@.users == old(self)@.users,
            final(self)@.relations == old(self)@.relations,
            match r {
                None => {
                    &&& forall|j: int|
                        0 <= j < old(self)@.trades.len() ==> old(self)@.trades[j].id != trade_id
                    &&& final(self)@.trades == old(self)@.trades
                    &&& final(self)@.copied == old(self)@.copied
                },
                Some(t) => exists|i: int|
                    {
                        &&& #[trigger] first_trade(old(self)@.trades, i, trade_id)
                        &&& if old(self)@.trades[i].status == TradeStatus::Closed {
                            &&& t == old(self)@.trades[i]
                            &&& final(self)@.trades == old(self)@.trades
                            &&& final(self)@.copied == old(self)@.copied
                        } else {
                            &&& t.closed_at.is_some()
                            &&& t == closed_trade(old(self)@.trades[i], exit_price, t.closed_at.unwrap())
                            &&& final(self)@.trades == old(self)@.trades.update(i, t)
                            &&& final(self)@.copied.len() == old(self)@.copied.len()
                            &&& forall|k: int|
                                0 <= k < old(self)@.copied.len() ==> #[trigger] final(self)@.copied[k]
                                    == settle_copy(
                                    old(self)@.copied[k],
                                    trade_id,
                                    t.direction,
                                    t.entry_price,
                                    exit_price,
                                )
                        }
                    },
            },
    {
        let found = self.find_trade(trade_id);
        match found {
            None => None,
            Some(i) => {
                if self.trades[i].status == TradeStatus::Closed {
                    let t = self.trades[i].clone();
                    assert(first_trade(old(self)@.trades, i as int, trade_id));
                    return Some(t);
                }
                let now = now_timestamp();
                let direction = self.trades[i].direction;
                let entry = self.trades[i].entry_price;
                let pnl = compute_pnl(direction, entry, exit_price, self.trades[i].quantity);
                let mut t = self.trades[i].clone();
                t.exit_price = Some(exit_price);
                t.pnl = Some(pnl);
                t.status = TradeStatus::Closed;
                t.closed_at = Some(now);
                let closed = t.clone();
                self.trades[i] = t;
                assert forall|j: int| 0 <= j < self@.trades.len() implies (#[trigger] self@.trades[j]).wf() by {
                    if j != i {
                        assert(self@.trades[j] == old(self)@.trades[j]);
                    }
                }
                let ghost mid = self@.copied;
                let mut k: usize = 0;
                while k < self.copied_trades.len()
                    invariant
                        k <= self.copied_trades@.len(),
                        self@.copied.len() == mid.len(),
                        self@.users == old(self)@.users,
                        self@.relations == old(self)@.relations,
                        self@.trades == old(self)@.trades.update(i as int, closed),
                        mid == old(self)@.copied,
                        old(self)@.wf(),
                        forall|m: int|
                            0 <= m < k ==> #[trigger] self@.copied[m] == settle_copy(
                                mid[m],
                                trade_id,
                                direction,
                                entry,
                                exit_price,
                            ),
                        forall|m: int| k <= m < mid.len() ==> #[trigger] self@.copied[m] == mid[m],
                    decreases self.copied_trades@.len() - k,
                {
                    if self.copied_trades[k].original_trade_id == trade_id {
                        let q = self.copied_trades[k].quantity;
                        let p = compute_pnl(direction, entry, exit_price, q);
                        self.copied_trades[k].pnl = Some(p);
                        self.copied_trades[k].status = TradeStatus::Closed;
                    }
                    k = k + 1;
                }
                assert forall|j: int| 0 <= j < self@.copied.len() implies (#[trigger] self@.copied[j]).wf() by {
                    assert(old(self)@.copied[j].wf());
                }
                assert(first_trade(old(self)@.trades, i as int, trade_id));
                Some(closed)
            },
        }
    }

    /// Deactivates the copy relation with id `relation_id` and lowers its
    /// trader's follower count by one, never below zero. A relation that is
    /// already inactive is returned as it is; an unknown id changes nothing.
    pub fn stop_copying(&mut self, relation_id: u128) -> (r: Option<CopyRelation>)
        requires
            old(self)@.wf(),
        ensures
            final(self)@.wf(),
            final(self)@.trades == old(self)@.trades,
            final(self)@.copied == old(self)@.copied,
            match r {
                None => {
                    &&& forall|j: int|
                        0 <= j < old(self)@.relations.len() ==> old(self)@.relations[j].id
                            != relation_id
                    &&& final(self)@.relations == old(self)@.relations
                    &&& final(self)@.users == old(self)@.users
                },
                Some(rel) => exists|i: int|
                    {
                        &&& #[trigger] first_relation(old(self)@.relations, i, relation_id)
                        &&& rel == CopyRelation { active: false, ..old(self)@.relations[i] }
                        &&& !old(self)@.relations[i].active ==> {
                            &&& final(self)@.relations == old(self)@.relations
                            &&& final(self)@.users == old(self)@.users
                        }
                        &&& old(self)@.relations[i].active ==> {
                            &&& final(self)@.relations == old(self)@.relations.update(i, rel)
                            &&& final(self)@.users.len() == old(self)@.users.len()
                            &&& forall|u: int|
                                0 <= u < old(self)@.users.len() ==> #[trigger] final(self)@.users[u]
                                    == if first_user(old(self)@.users, u, rel.trader_id) {
                                    User {
                                        followers_count: floored_decrement(
                                            old(self)@.users[u].followers_count,
                                        ),
                                        ..old(self)@.users[u]
                                    }
                                } else {
                                    old(self)@.users[u]
                                }
                        }
                    },
            },
    {
        let found = self.find_relation(relation_id);
        match found {
            None => None,
            Some(i) => {
                if !self.copy_relations[i].active {
                    let rel = self.copy_relations[i];
                    assert(first_relation(old(self)@.relations, i as int, relation_id));
                    return Some(rel);
                }
                self.copy_relations[i].active = false;
                let rel = self.copy_relations[i];
                let trader = self.find_user(rel.trader_id);
                match trader {
                    None => {},
                    Some(u) => {
                        let c = self.users[u].followers_count;
                        self.users[u].followers_count = if c > 0 {
                            c - 1
                        } else {
                            0
                        };
                    },
                }
                assert(first_relation(old(self)@.relations, i as int, relation_id));
                assert forall|j: int| 0 <= j < self@.relations.len() implies valid_ratio(
                    (#[trigger] self@.relations[j]).copy_ratio as int,
                ) by {
                    assert(old(self)@.relations[j].copy_ratio == self@.relations[j].copy_ratio);
                }
                assert forall|u: int| 0 <= u < old(self)@.users.len() implies #[trigger] self@.users[u]
                    == if first_user(old(self)@.users, u, rel.trader_id) {
                    User {
                        followers_count: floored_decrement(old(self)@.users[u].followers_count),
                        ..old(self)@.users[u]
                    }
                } else {
                    old(self)@.users[u]
                } by {
                    match trader {
                        None => {},
                        Some(v) => {
                            if first_user(old(self)@.users, u, rel.trader_id) {
                                assert(u == v as int);
                            }
                        },
                    }
                }
                assert(self@.trades == old(self)@.trades);
                assert(self@.copied == old(self)@.copied);
                proof {
                    lemma_same_keys(old(self)@.relations, self@.relations, relation_key());
                    lemma_same_keys(old(self)@.users, self@.users, user_key());
                }
                Some(rel)
            },
        }
    }

    /// Registers a new account with a fresh id, the starting balance, no
    /// profit/loss history and no followers.
    pub fn register_user(&mut self, username: String, is_trader: bool) -> (r: User)
        requires
            old(self)@.wf(),
        ensures
            final(self)@.wf(),
            unused(old(self)@.users, user_key(), r.id),
            final(self)@.users == old(self)@.users.push(r),
            final(self)@.trades == old(self)@.trades,
            final(self)@.relations == old(self)@.relations,
            final(self)@.copied == old(self)@.copied,
            r.username == username,
            r.balance == STARTING_BALANCE,
            r.total_pnl == 0,
            r.win_rate == 0,
            r.followers_count == 0,
            r.is_trader == is_trader,
    {
        let user = User {
            id: self.new_user_id(),
            username,
            balance: STARTING_BALANCE,
            total_pnl: 0,
            win_rate: 0,
            followers_count: 0,
            is_trader,
            created_at: now_timestamp(),
        };
        let r = user.clone();
        proof {
            lemma_unique_push(old(self)@.users, user, user_key());
        }
        self.users.push(user);
        assert(self@.relations == old(self)@.relations);
        assert(self@.copied == old(self)@.copied);
        assert(self@.trades == old(self)@.trades);
        r
    }

    /// Every account that trades, in order of registration.
    pub fn traders(&self) -> (r: Vec<User>)
        requires
            self@.wf(),
        ensures
            r@ == self@.users.filter(is_trader()),
            unique_ids(r@, user_key()),
    {
        proof {
            lemma_filter_unique(self@.users, is_trader(), user_key());
        }
        let mut r: Vec<User> = Vec::new();
        let mut i: usize = 0;
        while i < self.users.len()
            invariant
                i <= self.users@.len(),
                r@ == self.users@.subrange(0, i as int).filter(is_trader()),
            decreases self.users@.len() - i,
        {
            proof {
                lemma_filter_prefix(self.users@, i as int, is_trader());
            }
            if self.users[i].is_trader {
                r.push(self.users[i].clone());
            }
            i = i + 1;
        }
        assert(self.users@.subrange(0, self.users@.len() as int) =~= self.users@);
        r
    }

    /// Every trade of `trader_id`, in order of creation.
    pub fn trades_of(&self, trader_id: u128) -> (r: Vec<Trade>)
        requires
            self@.wf(),
        ensures
            r@ == self@.trades.filter(traded_by(trader_id)),
            unique_ids(r@, trade_key()),
    {
        proof {
            lemma_filter_unique(self@.trades, traded_by(trader_id), trade_key());
        }
        let mut r: Vec<Trade> = Vec::new();
        let mut i: usize = 0;
        while i < self.trades.len()
            invariant
                i <= self.trades@.len(),
                r@ == self.trades@.subrange(0, i as int).filter(traded_by(trader_id)),
            decreases self.trades@.len() - i,
        {
            proof {
                lemma_filter_prefix(self.trades@, i as int, traded_by(trader_id));
            }
            if self.trades[i].trader_id == trader_id {
                r.push(self.trades[i].clone());
            }
            i = i + 1;
        }
        assert(self.trades@.subrange(0, self.trades@.len() as int) =~= self.trades@);
        r
    }

    /// Every trade that is still open, in order of creation.
    pub fn open_trades(&self) -> (r: Vec<Trade>)
        requires
            self@.wf(),
        ensures
            r@ == self@.trades.filter(is_open()),
            unique_ids(r@, trade_key()),
    {
        proof {
            lemma_filter_unique(self@.trades, is_open(), trade_key());
        }
        let mut r: Vec<Trade> = Vec::new();
        let mut i: usize = 0;
        while i < self.trades.len()
            invariant
                i <= self.trades@.len(),
                r@ == self.trades@.subrange(0, i as int).filter(is_open()),
            decreases self.trades@.len() - i,
        {
            proof {
                lemma_filter_prefix(self.trades@, i as int, is_open());
            }
            if self.trades[i].status == TradeStatus::Open {
                r.push(self.trades[i].clone());
            }
            i = i + 1;
        }
        assert(self.trades@.subrange(0, self.trades@.len() as int) =~= self.trades@);
        r
    }

    /// The active relations in which `follower_id` copies a trader.
    pub fn my_copy_relations(&self, follower_id: u128) -> (r: Vec<CopyRelation>)
        requires
            self@.wf(),
        ensures
            r@ == self@.relations.filter(active_of_follower(follower_id)),
            unique_ids(r@, relation_key()),
    {
        proof {
            lemma_filter_unique(self@.relations, active_of_follower(follower_id), relation_key());
        }
        let mut r: Vec<CopyRelation> = Vec::new();
        let mut i: usize = 0;
        while i < self.copy_relations.len()
            invariant
                i <= self.copy_relations@.len(),
                r@ == self.copy_relations@.subrange(0, i as int).filter(active_of_follower(follower_id)),
            decreases self.copy_relations@.len() - i,
        {
            proof {
                lemma_filter_prefix(self.copy_relations@, i as int, active_of_follower(follower_id));
            }
            if self.copy_relations[i].follower_id == follower_id && self.copy_relations[i].active {
                r.push(self.copy_relations[i].clone());
            }
            i = i + 1;
        }
        assert(self.copy_relations@.subrange(0, self.copy_relations@.len() as int) =~= self.copy_relations@);
        r
    }

    /// Every trade copied for `follower_id`.
    pub fn my_copied_trades(&self, follower_id: u128) -> (r: Vec<CopiedTrade>)
        requires
            self@.wf(),
        ensures
            r@ == self@.copied.filter(copied_by(follower_id)),
            unique_ids(r@, copy_key()),
    {
        proof {
            lemma_filter_unique(self@.copied, copied_by(follower_id), copy_key());
        }
        let mut r: Vec<CopiedTrade> = Vec::new();
        let mut i: usize = 0;
        while i < self.copied_trades.len()
            invariant
                i <= self.copied_trades@.len(),
                r@ == self.copied_trades@.subrange(0, i as int).filter(copied_by(follower_id)),
            decreases self.copied_trades@.len() - i,
        {
            proof {
                lemma_filter_prefix(self.copied_trades@, i as int, copied_by(follower_id));
            }
            if self.copied_trades[i].follower_id == follower_id {
                r.push(self.copied_trades[i].clone());
            }
            i = i + 1;
        }
        assert(self.copied_trades@.subrange(0, self.copied_trades@.len() as int) =~= self.copied_trades@);
        r
    }

    /// Every active relation in which someone copies `trader_id`.
    pub fn followers_of(&self, trader_id: u128) -> (r: Vec<CopyRelation>)
        requires
            self@.wf(),
        ensures
            r@ == self@.relations.filter(active_of_trader(trader_id)),
            unique_ids(r@, relation_key()),
    {
        proof {
            lemma_filter_unique(self@.relations, active_of_trader(trader_id), relation_key());
        }
        let mut r: Vec<CopyRelation> = Vec::new();
        let mut i: usize = 0;
        while i < self.copy_relations.len()
            invariant
                i <= self.copy_relations@.len(),
                r@ == self.copy_relations@.subrange(0, i as int).filter(active_of_trader(trader_id)),
            decreases self.copy_relations@.len() - i,
        {
            proof {
                lemma_filter_prefix(self.copy_relations@, i as int, active_of_trader(trader_id));
            }
            if self.copy_relations[i].trader_id == trader_id && self.copy_relations[i].active {
                r.push(self.copy_relations[i]);
            }
            i = i + 1;
        }
        assert(self.copy_relations@.subrange(0, self.copy_relations@.len() as int) =~= self.copy_relations@);
        r
    }

    /// Every account, in order of registration.
    pub fn users(&self) -> (r: Vec<User>)
        requires
            self@.wf(),
        ensures
            r@ == self@.users,
            unique_ids(r@, user_key()),
    {
        let mut r: Vec<User> = Vec::new();
        let mut i: usize = 0;
        while i < self.users.len()
            invariant
                i <= self.users@.len(),
                r@ == self.users@.subrange(0, i as int),
            decreases self.users@.len() - i,
        {
            r.push(self.users[i].clone());
            assert(self.users@.subrange(0, i + 1) =~= self.users@.subrange(0, i as int).push(self.users@[i as int]));
            i = i + 1;
        }
        assert(self.users@.subrange(0, self.users@.len() as int) =~= self.users@);
        r
    }

    /// Every trade, or with `Some(id)` only those of trader `id`.
    pub fn trades(&self, trader_id: Option<u128>) -> (r: Vec<Trade>)
        requires
            self@.wf(),
        ensures
            unique_ids(r@, trade_key()),
            r@ == match trader_id {
                Some(id) => self@.trades.filter(traded_by(id)),
                None => self@.trades,
            },
    {
        match trader_id {
            Some(id) => self.trades_of(id),
            None => {
                let mut r: Vec<Trade> = Vec::new();
                let mut i: usize = 0;
                while i < self.trades.len()
                    invariant
                        i <= self.trades@.len(),
                        r@ == self.trades@.subrange(0, i as int),
                    decreases self.trades@.len() - i,
                {
                    r.push(self.trades[i].clone());
                    assert(self.trades@.subrange(0, i + 1) =~= self.trades@.subrange(0, i as int).push(self.trades@[i as int]));
                    i = i + 1;
                }
                assert(self.trades@.subrange(0, self.trades@.len() as int) =~= self.trades@);
                r
            },
        }
    }

    /// The earliest account with id `id`, if any.
    pub fn user(&self, id: u128) -> (r: Option<User>)
        ensures
            match r {
                Some(u) => exists|i: int| #[trigger] first_user(self@.users, i, id) && u == self@.users[i],
                None => forall|j: int| 0 <= j < self@.users.len() ==> self@.users[j].id != id,
            },
    {
        match self.find_user(id) {
            Some(i) => Some(self.users[i].clone()),
            None => None,
        }
    }

    /// The earliest trade with id `id`, if any.
    pub fn trade(&self, id: u128) -> (r: Option<Trade>)
        ensures
            match r {
                Some(t) => exists|i: int| #[trigger] first_trade(self@.trades, i, id) && t == self@.trades[i],
                None => forall|j: int| 0 <= j < self@.trades.len() ==> self@.trades[j].id != id,
            },
    {
        match self.find_trade(id) {
            Some(i) => Some(self.trades[i].clone()),
            None => None,
        }
    }

    /// The earliest copy relation with id `id`, if any.
    pub fn relation(&self, id: u128) -> (r: Option<CopyRelation>)
        ensures
            match r {
                Some(c) => exists|i: int| #[trigger] first_relation(self@.relations, i, id) && c == self@.relations[i],
                None => forall|j: int| 0 <= j < self@.relations.len() ==> self@.relations[j].id != id,
            },
    {
        match self.find_relation(id) {
            Some(i) => Some(self.copy_relations[i]),
            None => None,
        }
    }

    /// Records one open copy of trade `trade_id` (of `quantity` lots) for each
    /// active follower of `trader_id`, in order, the `k`-th with id `ids[k]`.
    pub fn copy_to_followers(&mut self, trade_id: u128, trader_id: u128, quantity: i64, ids: &Vec<u128>)
        requires
            old(self)@.wf(),
            quantity > 0,
            fresh_ids(ids@, old(self)@.relations.filter(active_of_trader(trader_id)).len() as int, old(self)@.copied),
        ensures
            final(self)@.wf(),
            final(self)@.copied == old(self)@.copied + copies_for(
                old(self)@.relations.filter(active_of_trader(trader_id)),
                ids@,
                trade_id,
                quantity,
            ),
            final(self)@.users == old(self)@.users,
            final(self)@.trades == old(self)@.trades,
            final(self)@.relations == old(self)@.relations,
    {
        let fs = self.followers_of(trader_id);
        proof {
            lemma_filter_keeps_ratios(old(self)@.relations, active_of_trader(trader_id));
        }
        let ghost all = copies_for(fs@, ids@, trade_id, quantity);
        let mut k: usize = 0;
        while k < fs.len()
            invariant
                k <= fs@.len(),
                fs@ == old(self)@.relations.filter(active_of_trader(trader_id)),
                ids@.len() >= fs@.len(),
                fresh_ids(ids@, fs@.len() as int, old(self)@.copied),
                quantity > 0,
                all == copies_for(fs@, ids@, trade_id, quantity),
                self@.wf(),
                forall|j: int| 0 <= j < fs@.len() ==> valid_ratio((#[trigger] fs@[j]).copy_ratio as int),
                self@.copied == old(self)@.copied + all.subrange(0, k as int),
                self@.users == old(self)@.users,
                self@.trades == old(self)@.trades,
                self@.relations == old(self)@.relations,
            decreases fs@.len() - k,
        {
            let f = fs[k];
            let q = compute_copied_quantity(quantity, f.copy_ratio);
            let c = CopiedTrade {
                id: ids[k],
                original_trade_id: trade_id,
                follower_id: f.follower_id,
                quantity: q,
                pnl: None,
                status: TradeStatus::Open,
            };
            assert(c == all[k as int]);
            assert forall|j: int| 0 <= j < self@.copied.len() implies copy_key()(#[trigger] self@.copied[j]) != c.id by {
                if j < old(self)@.copied.len() {
                    assert(self@.copied[j] == old(self)@.copied[j]);
                } else {
                    assert(self@.copied[j] == all[j - old(self)@.copied.len()]);
                }
            }
            self.insert_copied_trade(c);
            assert(all.subrange(0, k + 1) =~= all.subrange(0, k as int).push(c));
            k = k + 1;
        }
        assert(all.subrange(0, fs@.len() as int) =~= all);
    }

    /// Adds one to the follower count of the earliest account with id
    /// `trader_id`, held at the largest `i32`; an unknown id changes nothing.
    pub fn add_follower(&mut self, trader_id: u128)
        requires
            old(self)@.wf(),
        ensures
            final(self)@.wf(),
            final(self)@.users == users_with_follower(old(self)@.users, trader_id),
            final(self)@.trades == old(self)@.trades,
            final(self)@.relations == old(self)@.relations,
            final(self)@.copied == old(self)@.copied,
    {
        match self.find_user(trader_id) {
            None => {},
            Some(u) => {
                let c = self.users[u].followers_count;
                if c < i32::MAX {
                    self.users[u].followers_count = c + 1;
                }
            },
        }
        assert(self@.users =~= users_with_follower(old(self)@.users, trader_id));
        assert(self@.trades == old(self)@.trades);
        assert(self@.copied == old(self)@.copied);
        assert(self@.relations == old(self)@.relations);
    }
}

} // verus!
