//! The order store: an ordered sequence of orders addressed by guid.
use vstd::prelude::*;
use crate::catalog::{Catalog, StationView};
use crate::destination::{DestinationView, repair};
use crate::order::{Order, OrderUpdate, OrderView, updated};

verus! {

/// A direction in which an order moves within the sequence.
#[derive(Debug, Clone, Copy, PartialEq, Eq, Structural)]
pub enum Direction {
    Up,
    Down,
}

/// The direction named `s`, if any.
pub open spec fn direction_named(s: Seq<char>) -> Option<Direction> {
    if s == "up"@ {
        Some(Direction::Up)
    } else if s == "down"@ {
        Some(Direction::Down)
    } else {
        None
    }
}

impl Direction {
    /// The direction named "up" or "down", if the name is one of those.
    pub fn from_name(name: &String) -> (r: Option<Direction>)
        ensures
            r == direction_named(name@),
    {
        if *name == "up".to_owned() {
            Some(Direction::Up)
        } else if *name == "down".to_owned() {
            Some(Direction::Down)
        } else {
            None
        }
    }
}

/// A store as a value: the guid the next added order gets, and the orders in
/// display order.
pub struct StoreView {
    pub next: nat,
    pub orders: Seq<OrderView>,
}

pub open spec fn has_guid(s: Seq<OrderView>, g: usize) -> bool {
    exists|i: int| 0 <= i < s.len() && #[trigger] s[i].guid == g
}

/// The position of the order with guid `g` (meaningful where `has_guid` holds).
pub open spec fn index_of(s: Seq<OrderView>, g: usize) -> int {
    choose|i: int| 0 <= i < s.len() && #[trigger] s[i].guid == g
}

pub open spec fn guids_distinct(s: Seq<OrderView>) -> bool {
    forall|i: int, j: int|
        0 <= i < s.len() && 0 <= j < s.len() && i != j ==> #[trigger] s[i].guid
            != #[trigger] s[j].guid
}

/// Guids are distinct, and each is below the next guid to hand out.
pub open spec fn store_wf(v: StoreView) -> bool {
    &&& guids_distinct(v.orders)
    &&& forall|i: int| 0 <= i < v.orders.len() ==> (#[trigger] v.orders[i]).guid < v.next
}

pub open spec fn swap<A>(s: Seq<A>, i: int, j: int) -> Seq<A> {
    s.update(i, s[j]).update(j, s[i])
}

/// `v` after appending `o` under the next guid.
pub open spec fn added(v: StoreView, o: OrderView) -> StoreView {
    StoreView { next: v.next + 1, orders: v.orders.push(OrderView { guid: v.next as usize, ..o }) }
}

/// `v` without the order with guid `g`; `v` itself where there is none.
pub open spec fn removed(v: StoreView, g: usize) -> StoreView {
    if has_guid(v.orders, g) {
        StoreView { orders: v.orders.remove(index_of(v.orders, g)), ..v }
    } else {
        v
    }
}

/// `v` with the order with guid `g` swapped with its predecessor (up) or its
/// successor (down); `v` itself where there is no such order or neighbour.
pub open spec fn moved(v: StoreView, g: usize, d: Direction) -> StoreView {
    if has_guid(v.orders, g) {
        let i = index_of(v.orders, g);
        match d {
            Direction::Up => if i > 0 {
                StoreView { orders: swap(v.orders, i - 1, i), ..v }
            } else {
                v
            },
            Direction::Down => if i + 1 < v.orders.len() {
                StoreView { orders: swap(v.orders, i, i + 1), ..v }
            } else {
                v
            },
        }
    } else {
        v
    }
}

/// `v` with the update applied to the order with guid `g`; `v` itself where
/// there is none.
pub open spec fn changed(v: StoreView, g: usize, u: OrderUpdate, cat: Seq<StationView>) -> StoreView {
    if has_guid(v.orders, g) {
        let i = index_of(v.orders, g);
        StoreView { orders: v.orders.update(i, updated(v.orders[i], u, cat)), ..v }
    } else {
        v
    }
}

/// An ordered collection of orders, the sole owner of them, with a counter of
/// guids that only grows.
pub struct OrderStore {
    idx: usize,
    orders: Vec<Order>,
}

impl View for OrderStore {
    type V = StoreView;

    closed spec fn view(&self) -> StoreView {
        StoreView { next: self.idx as nat, orders: self.orders@.map_values(|o: Order| o@) }
    }
}

impl OrderStore {
    pub open spec fn wf(&self) -> bool {
        store_wf(self@)
    }

    /// An empty store whose first guid is 0.
    pub fn new() -> (r: OrderStore)
        ensures
            r.wf(),
            r@ == (StoreView { next: 0, orders: Seq::empty() }),
    {
        let r = OrderStore { idx: 0, orders: Vec::new() };
        assert(r@.orders =~= Seq::empty());
        r
    }

    /// The guid that the next added order gets.
    pub fn next_guid(&self) -> (r: usize)
        ensures
            r == self@.next,
    {
        self.idx
    }

    /// The orders, in display order.
    pub fn orders(&self) -> (r: &[Order])
        ensures
            r@.map_values(|o: Order| o@) == self@.orders,
    {
        self.orders.as_slice()
    }

    /// The position of the order with the given guid, if there is one.
    fn position(&self, guid: usize) -> (r: Option<usize>)
        requires
            self.wf(),
        ensures
            r is Some <==> has_guid(self@.orders, guid),
            r matches Some(i) ==> i == index_of(self@.orders, guid) && i < self@.orders.len(),
    {
        let ghost s = self@.orders;
        for i in 0..self.orders.len()
            invariant
                s == self@.orders,
                store_wf(self@),
                forall|p: int| 0 <= p < i ==> (#[trigger] s[p]).guid != guid,
        {
            if self.orders[i].guid == guid {
                assert(s[i as int].guid == guid);
                let ghost j = index_of(s, guid);
                assert(j == i) by {
                    if j != i {
                        assert(s[j].guid != s[i as int].guid);
                    }
                }
                return Some(i);
            }
        }
        None
    }

    /// The order with the given guid, if there is one.
    pub fn get(&self, guid: usize) -> (r: Option<&Order>)
        requires
            self.wf(),
        ensures
            r is Some <==> has_guid(self@.orders, guid),
            r matches Some(o) ==> o@ == self@.orders[index_of(self@.orders, guid)],
    {
        match self.position(guid) {
            Some(i) => Some(&self.orders[i]),
            None => None,
        }
    }

    /// Appends the order under the next guid, which it returns; the counter
    /// then moves past it.
    pub fn add(&mut self, order: Order) -> (r: usize)
        requires
            old(self).wf(),
            old(self)@.next < usize::MAX,
        ensures
            final(self).wf(),
            r == old(self)@.next,
            final(self)@ == added(old(self)@, order@),
    {
        let mut order = order;
        order.guid = self.idx;
        self.orders.push(order);
        self.idx = self.idx + 1;
        let ghost v = self@;
        assert(v.orders =~= added(old(self)@, order@).orders);
        assert forall|i: int, j: int|
            0 <= i < v.orders.len() && 0 <= j < v.orders.len() && i != j implies #[trigger] v.orders[i].guid
            != #[trigger] v.orders[j].guid by {
            if i < old(self)@.orders.len() {
                assert(old(self)@.orders[i].guid < old(self)@.next);
            }
            if j < old(self)@.orders.len() {
                assert(old(self)@.orders[j].guid < old(self)@.next);
            }
        }
        self.idx - 1
    }

    /// Removes the order with the given guid; does nothing where there is none.
    pub fn remove(&mut self, guid: usize)
        requires
            old(self).wf(),
        ensures
            final(self).wf(),
            final(self)@ == removed(old(self)@, guid),
    {
        match self.position(guid) {
            Some(pos) => {
                self.orders.remove(pos);
                assert(self@.orders =~= old(self)@.orders.remove(pos as int));
                let ghost v = self@;
                assert forall|i: int, j: int|
                    0 <= i < v.orders.len() && 0 <= j < v.orders.len() && i != j implies #[trigger] v.orders[i].guid
                    != #[trigger] v.orders[j].guid by {
                    let a = if i < pos { i } else { i + 1 };
                    let b = if j < pos { j } else { j + 1 };
                    assert(v.orders[i] == old(self)@.orders[a]);
                    assert(v.orders[j] == old(self)@.orders[b]);
                }
                assert forall|i: int| 0 <= i < v.orders.len() implies (#[trigger] v.orders[i]).guid < v.next by {
                    let a = if i < pos { i } else { i + 1 };
                    assert(v.orders[i] == old(self)@.orders[a]);
                }
            },
            None => {},
        }
    }

    /// Swaps the order with the given guid with its predecessor (up) or its
    /// successor (down); does nothing where there is no such order, or it is
    /// already first (up) or last (down).
    pub fn move_order(&mut self, guid: usize, direction: Direction)
        requires
            old(self).wf(),
        ensures
            final(self).wf(),
            final(self)@ == moved(old(self)@, guid, direction),
    {
        match self.position(guid) {
            Some(pos) => {
                let n = self.orders.len();
                let other = match direction {
                    Direction::Up => if pos > 0 {
                        pos - 1
                    } else {
                        return;
                    },
                    Direction::Down => if pos + 1 < n {
                        pos + 1
                    } else {
                        return;
                    },
                };
                let item = self.orders.remove(pos);
                self.orders.insert(other, item);
                let ghost s = old(self)@.orders;
                let ghost (a, b) = if other < pos { (other as int, pos as int) } else { (pos as int, other as int) };
                assert(self@.orders =~= swap(s, a, b));
                proof {
                    lemma_swap_keeps_wf(old(self)@, a, b);
                }
            },
            None => {},
        }
    }

    /// Applies the update to the order with the given guid and repairs its
    /// destinations; does nothing where there is no such order.
    pub fn update(&mut self, guid: usize, changes: OrderUpdate, catalog: &Catalog)
        requires
            old(self).wf(),
            catalog.wf(),
        ensures
            final(self).wf(),
            final(self)@ == changed(old(self)@, guid, changes, catalog@),
    {
        match self.position(guid) {
            Some(pos) => {
                let mut order = self.orders.remove(pos);
                order.apply(changes, catalog);
                self.orders.insert(pos, order);
                let ghost s = old(self)@.orders;
                assert(self@.orders =~= s.update(pos as int, updated(s[pos as int], changes, catalog@)));
                let ghost v = self@;
                assert forall|i: int, j: int|
                    0 <= i < v.orders.len() && 0 <= j < v.orders.len() && i != j implies #[trigger] v.orders[i].guid
                    != #[trigger] v.orders[j].guid by {
                    assert(v.orders[i].guid == s[i].guid);
                    assert(v.orders[j].guid == s[j].guid);
                }
                assert forall|i: int| 0 <= i < v.orders.len() implies (#[trigger] v.orders[i]).guid < v.next by {
                    assert(v.orders[i].guid == s[i].guid);
                }
            },
            None => {},
        }
    }

    /// Adds a new order with the default fields, its destinations repaired
    /// against the catalog, and returns its guid.
    pub fn create(&mut self, catalog: &Catalog) -> (r: usize)
        requires
            old(self).wf(),
            old(self)@.next < usize::MAX,
            catalog.wf(),
        ensures
            final(self).wf(),
            r == old(self)@.next,
            final(self)@ == added(old(self)@, default_order(catalog@)),
    {
        let mut order = Order::default();
        assert(order.notes@ =~= Seq::<char>::empty());
        order.make_valid(catalog);
        assert(order@ == default_order(catalog@));
        self.add(order)
    }
}

/// A new order: id 0, kind FH, both destinations the repair of station SM,
/// yard A, track 3, no notes, zero tonnes and cars.
pub open spec fn default_order(cat: Seq<StationView>) -> OrderView {
    let d = repair(DestinationView { station: "SM"@, yard: "A"@, track: 3, done: false }, cat);
    OrderView {
        guid: 0,
        id: 0,
        kind: crate::order::Kind::FH,
        from: d,
        to: d,
        notes: Seq::empty(),
        tonnes: 0,
        cars: 0,
    }
}

/// Swapping two orders keeps the store well formed.
proof fn lemma_swap_keeps_wf(v: StoreView, a: int, b: int)
    requires
        store_wf(v),
        0 <= a < b < v.orders.len(),
    ensures
        store_wf(StoreView { orders: swap(v.orders, a, b), ..v }),
{
    let s = v.orders;
    let t = swap(s, a, b);
    assert forall|i: int| 0 <= i < t.len() implies #[trigger] t[i] == s[if i == a { b } else if i == b { a } else { i }] by {}
    assert forall|i: int, j: int|
        0 <= i < t.len() && 0 <= j < t.len() && i != j implies #[trigger] t[i].guid != #[trigger] t[j].guid by {
        let p = if i == a { b } else if i == b { a } else { i };
        let q = if j == a { b } else if j == b { a } else { j };
        assert(t[i] == s[p]);
        assert(t[j] == s[q]);
        assert(s[p].guid != s[q].guid);
    }
    assert forall|i: int| 0 <= i < t.len() implies (#[trigger] t[i]).guid < v.next by {
        let p = if i == a { b } else if i == b { a } else { i };
        assert(t[i] == s[p]);
        assert(s[p].guid < v.next);
    }
}

/// One operation on a store, as a value.
pub enum StoreOp {
    Add(OrderView),
    Remove(usize),
    Move(usize, Direction),
    Update(usize, OrderUpdate, Seq<StationView>),
}

/// The store after one operation.
pub open spec fn step(v: StoreView, op: StoreOp) -> StoreView {
    match op {
        StoreOp::Add(o) => added(v, o),
        StoreOp::Remove(g) => removed(v, g),
        StoreOp::Move(g, d) => moved(v, g, d),
        StoreOp::Update(g, u, cat) => changed(v, g, u, cat),
    }
}

/// The store after a sequence of operations.
pub open spec fn run(v: StoreView, ops: Seq<StoreOp>) -> StoreView
    decreases ops.len(),
{
    if ops.len() == 0 {
        v
    } else {
        run(step(v, ops[0]), ops.drop_first())
    }
}

/// The guids handed out by the additions among `ops`, in order.
pub open spec fn assigned(v: StoreView, ops: Seq<StoreOp>) -> Seq<nat>
    decreases ops.len(),
{
    if ops.len() == 0 {
        Seq::empty()
    } else {
        let rest = assigned(step(v, ops[0]), ops.drop_first());
        match ops[0] {
            StoreOp::Add(_) => seq![v.next].add(rest),
            _ => rest,
        }
    }
}

/// Over any sequence of operations, additions, removals and moves among them,
/// the guids handed out strictly increase, each is at least the guid the store
/// would have handed out first, so none of an order present or removed before
/// is reused, and the counter never goes back.
pub proof fn lemma_guids_increase(v: StoreView, ops: Seq<StoreOp>)
    ensures
        forall|i: int, j: int|
            0 <= i < j < assigned(v, ops).len() ==> assigned(v, ops)[i] < assigned(v, ops)[j],
        forall|i: int| 0 <= i < assigned(v, ops).len() ==> v.next <= #[trigger] assigned(v, ops)[i],
        forall|i: int| 0 <= i < v.orders.len() && store_wf(v) ==> (#[trigger] v.orders[i]).guid < v.next,
        v.next <= run(v, ops).next,
    decreases ops.len(),
{
    if ops.len() > 0 {
        let w = step(v, ops[0]);
        lemma_guids_increase(w, ops.drop_first());
        assert(v.next <= w.next);
        let rest = assigned(w, ops.drop_first());
        match ops[0] {
            StoreOp::Add(_) => {
                let all = seq![v.next].add(rest);
                assert(w.next == v.next + 1);
                assert forall|i: int, j: int| 0 <= i < j < all.len() implies all[i] < all[j] by {
                    if i == 0 {
                        assert(all[j] == rest[j - 1]);
                    } else {
                        assert(all[i] == rest[i - 1]);
                        assert(all[j] == rest[j - 1]);
                    }
                }
                assert forall|i: int| 0 <= i < all.len() implies v.next <= #[trigger] all[i] by {
                    if i > 0 {
                        assert(all[i] == rest[i - 1]);
                    }
                }
            },
            _ => {},
        }
    }
}

/// Moving an order up and then down restores the sequence, except where the
/// order is first of several: there the move up does nothing and the move down
/// does not.
pub proof fn lemma_up_then_down(v: StoreView, g: usize)
    requires
        store_wf(v),
        !(has_guid(v.orders, g) && index_of(v.orders, g) == 0 && v.orders.len() > 1),
    ensures
        moved(moved(v, g, Direction::Up), g, Direction::Down) == v,
{
    if has_guid(v.orders, g) {
        let s = v.orders;
        let i = index_of(s, g);
        if i > 0 {
            let w = moved(v, g, Direction::Up);
            let t = w.orders;
            lemma_swap_keeps_wf(v, i - 1, i);
            assert(t[i - 1].guid == g);
            assert(has_guid(t, g));
            let j = index_of(t, g);
            assert(j == i - 1) by {
                if j != i - 1 {
                    assert(t[j].guid != t[i - 1].guid);
                }
            }
            assert(swap(t, i - 1, i) =~= s);
        }
    }
}

/// A move up of the first order does nothing.
pub proof fn lemma_up_at_head(v: StoreView, g: usize)
    requires
        store_wf(v),
        v.orders.len() > 0,
        v.orders[0].guid == g,
    ensures
        moved(v, g, Direction::Up) == v,
{
    let j = index_of(v.orders, g);
    assert(has_guid(v.orders, g));
    assert(j == 0) by {
        if j != 0 {
            assert(v.orders[j].guid != v.orders[0].guid);
        }
    }
}

/// Removing, moving or updating by a guid that no order has leaves the store
/// as it is.
pub proof fn lemma_absent_guid(
    v: StoreView,
    g: usize,
    d: Direction,
    u: OrderUpdate,
    cat: Seq<StationView>,
)
    requires
        !has_guid(v.orders, g),
    ensures
        removed(v, g) == v,
        moved(v, g, d) == v,
        changed(v, g, u, cat) == v,
{
}

/// Each operation keeps a store well formed, an addition where the counter
/// has room for it.
pub proof fn lemma_step_keeps_wf(v: StoreView, op: StoreOp)
    requires
        store_wf(v),
        op is Add ==> v.next < usize::MAX,
    ensures
        store_wf(step(v, op)),
{
    match op {
        StoreOp::Add(o) => {
            let w = added(v, o);
            assert forall|i: int, j: int|
                0 <= i < w.orders.len() && 0 <= j < w.orders.len() && i != j implies #[trigger] w.orders[i].guid
                != #[trigger] w.orders[j].guid by {
                if i < v.orders.len() {
                    assert(v.orders[i].guid < v.next);
                }
                if j < v.orders.len() {
                    assert(v.orders[j].guid < v.next);
                }
            }
            assert forall|i: int| 0 <= i < w.orders.len() implies (#[trigger] w.orders[i]).guid < w.next by {
                if i < v.orders.len() {
                    assert(v.orders[i].guid < v.next);
                }
            }
        },
        StoreOp::Remove(g) => {
            if has_guid(v.orders, g) {
                let p = index_of(v.orders, g);
                let w = removed(v, g);
                assert forall|i: int, j: int|
                    0 <= i < w.orders.len() && 0 <= j < w.orders.len() && i != j implies #[trigger] w.orders[i].guid
                    != #[trigger] w.orders[j].guid by {
                    let a = if i < p { i } else { i + 1 };
                    let b = if j < p { j } else { j + 1 };
                    assert(w.orders[i] == v.orders[a]);
                    assert(w.orders[j] == v.orders[b]);
                }
                assert forall|i: int| 0 <= i < w.orders.len() implies (#[trigger] w.orders[i]).guid < w.next by {
                    let a = if i < p { i } else { i + 1 };
                    assert(w.orders[i] == v.orders[a]);
                }
            }
        },
        StoreOp::Move(g, d) => {
            if has_guid(v.orders, g) {
                let i = index_of(v.orders, g);
                match d {
                    Direction::Up => if i > 0 {
                        lemma_swap_keeps_wf(v, i - 1, i);
                    },
                    Direction::Down => if i + 1 < v.orders.len() {
                        lemma_swap_keeps_wf(v, i, i + 1);
                    },
                }
            }
        },
        StoreOp::Update(g, u, cat) => {
            if has_guid(v.orders, g) {
                let p = index_of(v.orders, g);
                let w = changed(v, g, u, cat);
                assert forall|i: int, j: int|
                    0 <= i < w.orders.len() && 0 <= j < w.orders.len() && i != j implies #[trigger] w.orders[i].guid
                    != #[trigger] w.orders[j].guid by {
                    assert(w.orders[i].guid == v.orders[i].guid);
                    assert(w.orders[j].guid == v.orders[j].guid);
                }
                assert forall|i: int| 0 <= i < w.orders.len() implies (#[trigger] w.orders[i]).guid < w.next by {
                    assert(w.orders[i].guid == v.orders[i].guid);
                }
            }
        },
    }
}

} // verus!
