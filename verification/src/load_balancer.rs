//! The weighted round-robin pool: backends in the order of their insertion, each chosen
//! as many times in a row as its weight before the cursor moves to the next.

use crate::balancers::LoadBalancer;
use crate::rotation::{
    advance, all_positive, can_select, following, lemma_advance, lemma_fair_share, selected, share,
    start, total_weight, valid, Rotation,
};
use crate::socket_address::SocketAddress;
use crate::weight::Weight;
use vstd::prelude::*;

verus! {

/// The largest number of backends that a pool holds.
pub const MAX_SERVERS: usize = 256;

/// The error of a pool that is asked to hold more than `MAX_SERVERS` backends.
pub const TOO_MANY_SERVERS: &'static str = "The number of servers is over 256";

/// The error of a pool that is made for no backend at all.
pub const ZERO_OR_NEGATIVE_SERVERS: &'static str =
    "The number of servers is 0 or a negative number";

/// The weights of `targets`, in the same order.
pub open spec fn weights_of(targets: Seq<(SocketAddress, usize)>) -> Seq<nat> {
    Seq::new(targets.len(), |i: int| targets[i].1 as nat)
}

/// A pool of backends that are selected by weighted round robin.
#[derive(Debug)]
pub struct WeightedRoundRobinLB {
    addresses: Vec<Weight>,
    index: usize,
    capacity: usize,
}

impl WeightedRoundRobinLB {
    /// The backends with their weights, in the order of their insertion.
    pub closed spec fn targets(&self) -> Seq<(SocketAddress, usize)> {
        Seq::new(
            self.addresses@.len(),
            |i: int| (self.addresses@[i].address(), self.addresses@[i].capacity()),
        )
    }

    /// The weights of the backends.
    pub open spec fn weights(&self) -> Seq<nat> {
        weights_of(self.targets())
    }

    /// Where the rotation stands. In a pool that has selected nothing yet it is at
    /// its start.
    pub closed spec fn rotation(&self) -> Rotation {
        Rotation {
            cursor: self.index as nat,
            served: if self.index < self.addresses@.len() {
                self.addresses@[self.index as int].served() as nat
            } else {
                0
            },
        }
    }

    /// The number of backends that the pool has room for without growing.
    pub closed spec fn reserved(&self) -> nat {
        self.capacity as nat
    }

    /// The pool can select: it holds a backend, and the backend under the cursor has a
    /// selection left or the one after it has a weight of at least one.
    pub open spec fn ready(&self) -> bool {
        can_select(self.weights(), self.rotation())
    }

    /// The pool is in order: it holds no more backends than it may, the cursor is on
    /// one of them, and no backend but the one under the cursor is in the middle of
    /// a turn.
    pub closed spec fn wf(&self) -> bool {
        &&& self.addresses@.len() <= MAX_SERVERS
        &&& 1 <= self.capacity <= MAX_SERVERS
        &&& self.addresses@.len() <= self.capacity
        &&& self.index < self.addresses@.len() || self.index == 0
        &&& forall|i: int|
            0 <= i < self.addresses@.len() ==> (#[trigger] self.addresses@[i]).served()
                <= self.addresses@[i].capacity()
        &&& forall|i: int|
            0 <= i < self.addresses@.len() && i != self.index ==> (
            #[trigger] self.addresses@[i]).served() == 0
    }

    /// An empty pool with room for `servers_number` backends.
    pub fn new(servers_number: usize) -> (made: Result<Self, &'static str>)
        ensures
            servers_number > MAX_SERVERS ==> made == Err::<Self, &'static str>(TOO_MANY_SERVERS),
            servers_number == 0 ==> made == Err::<Self, &'static str>(ZERO_OR_NEGATIVE_SERVERS),
            0 < servers_number <= MAX_SERVERS ==> made is Ok,
            made matches Ok(pool) ==> {
                &&& pool.wf()
                &&& pool.targets() == Seq::<(SocketAddress, usize)>::empty()
                &&& pool.rotation() == start()
                &&& pool.reserved() == servers_number
            },
    {
        if servers_number > MAX_SERVERS {
            return Err(TOO_MANY_SERVERS);
        }
        if servers_number == 0 {
            return Err(ZERO_OR_NEGATIVE_SERVERS);
        }
        let pool = WeightedRoundRobinLB {
            addresses: Vec::with_capacity(servers_number),
            index: 0,
            capacity: servers_number,
        };
        assert(pool.targets() =~= Seq::<(SocketAddress, usize)>::empty());
        Ok(pool)
    }

    /// Appends a backend with its weight. The pool refuses the backend, and stays as it
    /// is, where it holds `MAX_SERVERS` already. The rotation stays where it stands. A
    /// pool that is full to its room grows by one.
    pub fn insert_socket_address(&mut self, socket_address: SocketAddress, weight: usize) -> (done:
        Result<(), &'static str>)
        requires
            old(self).wf(),
        ensures
            final(self).wf(),
            final(self).rotation() == old(self).rotation(),
            old(self).targets().len() >= MAX_SERVERS ==> {
                &&& done == Err::<(), &'static str>(TOO_MANY_SERVERS)
                &&& final(self).targets() == old(self).targets()
                &&& final(self).reserved() == old(self).reserved()
            },
            old(self).targets().len() < MAX_SERVERS ==> {
                &&& done is Ok
                &&& final(self).targets() == old(self).targets().push((socket_address, weight))
                &&& final(self).reserved() == if old(self).targets().len() < old(self).reserved() {
                    old(self).reserved()
                } else {
                    old(self).reserved() + 1
                }
            },
    {
        if self.addresses.len() + 1 > MAX_SERVERS {
            return Err(TOO_MANY_SERVERS);
        }
        self.addresses.push(Weight::new(socket_address, weight));
        if self.addresses.len() > self.capacity {
            self.capacity = self.addresses.len();
        }
        assert(self.targets() =~= old(self).targets().push((socket_address, weight)));
        Ok(())
    }

    /// Selects the next backend. The backend under the cursor is chosen while it has a
    /// selection left; else the cursor moves to the backend after it, the first one
    /// after the last, and that one is chosen.
    pub fn next_server(&mut self) -> (server: &SocketAddress)
        requires
            old(self).wf(),
            old(self).ready(),
        ensures
            final(self).wf(),
            final(self).targets() == old(self).targets(),
            final(self).reserved() == old(self).reserved(),
            final(self).rotation() == advance(old(self).weights(), old(self).rotation()),
            valid(final(self).weights(), final(self).rotation()),
            *server == old(self).targets()[selected(
                old(self).weights(),
                old(self).rotation(),
            ) as int].0,
    {
        let ghost before = *self;
        let len = self.addresses.len();
        let current = self.index;
        if self.addresses[current].next_request().is_none() {
            let next = (current + 1) % len;
            self.index = next;
            let again = self.addresses[next].next_request();
            assert(again is Some) by {
                assert(before.weights()[next as int] == before.addresses@[next as int].capacity());
            }
        } else {
            assert(before.weights()[current as int] == before.addresses@[current as int].capacity());
        }
        assert(self.targets() =~= before.targets());
        self.addresses[self.index].get_socket_address()
    }

    /// The number of backends in the pool.
    pub fn n_of_servers(&self) -> (n: usize)
        ensures
            n == self.targets().len(),
            self.wf() ==> n <= MAX_SERVERS,
    {
        self.addresses.len()
    }

    /// The number of backends that the pool has room for: the number it was made for,
    /// or the number it holds where that is more.
    pub fn capacity(&self) -> (n: usize)
        ensures
            n == self.reserved(),
            self.wf() ==> 1 <= n <= MAX_SERVERS && self.targets().len() <= n,
    {
        self.capacity
    }

    /// Tells whether the pool can select.
    pub fn is_ready(&self) -> (ready: bool)
        requires
            self.wf(),
        ensures
            ready == self.ready(),
    {
        let len = self.addresses.len();
        if len == 0 {
            return false;
        }
        let current = &self.addresses[self.index];
        let next = &self.addresses[(self.index + 1) % len];
        assert(self.weights()[self.index as int] == current.capacity());
        assert(self.weights()[following(self.weights(), self.rotation()) as int]
            == next.capacity());
        current.get_served() < current.get_weight() || next.get_weight() > 0
    }

    /// A pool in order that holds a backend stands at a valid place of its rotation,
    /// and where none of its weights is zero it can select.
    pub proof fn lemma_in_order(&self)
        requires
            self.wf(),
            self.targets().len() > 0,
        ensures
            valid(self.weights(), self.rotation()),
            all_positive(self.weights()) ==> self.ready(),
    {
        assert(self.weights()[self.index as int] == self.addresses@[self.index as int].capacity());
        if all_positive(self.weights()) {
            lemma_advance(self.weights(), self.rotation());
        }
    }

    /// Fairness: wherever the rotation of a pool stands, its next selections, taken
    /// over any whole number of cycles, choose each backend as many times as its
    /// weight says, once per cycle for each unit of weight.
    pub proof fn lemma_fairness(&self, i: int, cycles: int)
        requires
            self.wf(),
            all_positive(self.weights()),
            0 <= i < self.targets().len(),
            0 <= cycles,
        ensures
            share(self.weights(), self.rotation(), i, cycles * total_weight(self.weights()))
                == cycles * self.targets()[i].1,
    {
        self.lemma_in_order();
        lemma_fair_share(self.weights(), self.rotation(), i, cycles);
    }
}

impl LoadBalancer for WeightedRoundRobinLB {
    open spec fn servers(&self) -> Seq<(SocketAddress, usize)> {
        self.targets()
    }

    open spec fn in_order(&self) -> bool {
        self.wf()
    }

    open spec fn in_service(&self) -> bool {
        self.ready()
    }

    open spec fn next_index(&self) -> int {
        selected(self.weights(), self.rotation()) as int
    }

    open spec fn at_start(&self) -> bool {
        self.rotation() == start()
    }

    fn new(servers_number: usize) -> (made: Result<Box<Self>, &'static str>) {
        match WeightedRoundRobinLB::new(servers_number) {
            Ok(pool) => Ok(Box::new(pool)),
            Err(e) => Err(e),
        }
    }

    fn next_server(&mut self) -> (server: &SocketAddress) {
        proof {
            if all_positive(self.weights()) {
                lemma_advance(self.weights(), self.rotation());
                lemma_advance(self.weights(), advance(self.weights(), self.rotation()));
            }
        }
        WeightedRoundRobinLB::next_server(self)
    }

    fn insert_socket_address(&mut self, socket_address: SocketAddress, weight: usize) -> (done:
        Result<(), &'static str>) {
        let done = WeightedRoundRobinLB::insert_socket_address(self, socket_address, weight);
        proof {
            if self.targets().len() > 0 {
                self.lemma_in_order();
            }
        }
        done
    }
}

} // verus!
