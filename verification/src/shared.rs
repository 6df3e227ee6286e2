//! A pool behind a lock, for the many tasks of a proxy that select at the same time.
//! Each selection is one step of the pool's rotation, taken while no other task has the
//! pool in hand.

use crate::balancers::{create_and_fill_the_balancer, LoadBalancer};
use crate::load_balancer::{weights_of, MAX_SERVERS, TOO_MANY_SERVERS, ZERO_OR_NEGATIVE_SERVERS};
use crate::rotation::all_positive;
use crate::socket_address::SocketAddress;
use vstd::prelude::*;
use vstd::rwlock::{RwLock, RwLockPredicate};

verus! {

/// The error of a pool with a backend of weight zero: sooner or later its rotation comes
/// to a backend that has no selection to give.
pub const INDEX_PROBLEM: &'static str = "There is a problem with the index";

/// What holds of a shared pool whenever no task has it in hand: it is in order, it can
/// select, and it holds these backends, none with a weight of zero.
pub struct InService {
    /// The backends of the pool with their weights.
    pub servers: Seq<(SocketAddress, usize)>,
}

impl<T: LoadBalancer> RwLockPredicate<T> for InService {
    open spec fn inv(self, pool: T) -> bool {
        &&& pool.in_order()
        &&& pool.in_service()
        &&& pool.servers() == self.servers
        &&& all_positive(weights_of(self.servers))
    }
}

/// A pool that any number of tasks select from at the same time.
pub struct Shared<T: LoadBalancer> {
    lock: RwLock<T, InService>,
}

/// Tells whether no backend of `servers` has a weight of zero.
pub fn weights_are_positive(servers: &Vec<(SocketAddress, usize)>) -> (yes: bool)
    ensures
        yes == all_positive(weights_of(servers@)),
{
    let mut i: usize = 0;
    while i < servers.len()
        invariant
            i <= servers@.len(),
            forall|j: int| 0 <= j < i ==> weights_of(servers@)[j] > 0,
        decreases servers@.len() - i,
    {
        if servers[i].1 == 0 {
            assert(weights_of(servers@)[i as int] == 0);
            return false;
        }
        i = i + 1;
    }
    true
}

impl<T: LoadBalancer> Shared<T> {
    /// The backends of the pool with their weights, in the order of their insertion.
    pub closed spec fn servers(&self) -> Seq<(SocketAddress, usize)> {
        self.lock.pred().servers
    }

    /// Puts behind a lock a pool that can select and holds no weight of zero.
    pub fn new(pool: T) -> (shared: Self)
        requires
            pool.in_order(),
            pool.in_service(),
            all_positive(weights_of(pool.servers())),
        ensures
            shared.servers() == pool.servers(),
    {
        Shared { lock: RwLock::new(pool, Ghost(InService { servers: pool.servers() })) }
    }

    /// Makes a shared pool of `servers`, in their order. The pool takes one to
    /// `MAX_SERVERS` backends and no weight of zero.
    pub fn fill(servers: Vec<(SocketAddress, usize)>) -> (made: Result<Self, &'static str>) where
        T: Sync + Send + 'static,

        ensures
            servers@.len() == 0 ==> made == Err::<Self, &'static str>(ZERO_OR_NEGATIVE_SERVERS),
            servers@.len() > MAX_SERVERS ==> made == Err::<Self, &'static str>(TOO_MANY_SERVERS),
            0 < servers@.len() <= MAX_SERVERS && !all_positive(weights_of(servers@)) ==> made
                == Err::<Self, &'static str>(INDEX_PROBLEM),
            0 < servers@.len() <= MAX_SERVERS && all_positive(weights_of(servers@)) ==> made is Ok,
            made matches Ok(shared) ==> shared.servers() == servers@,
    {
        if servers.len() == 0 {
            return Err(ZERO_OR_NEGATIVE_SERVERS);
        }
        if servers.len() > MAX_SERVERS {
            return Err(TOO_MANY_SERVERS);
        }
        if !weights_are_positive(&servers) {
            return Err(INDEX_PROBLEM);
        }
        Ok(Shared::new(create_and_fill_the_balancer::<T>(servers)))
    }

    /// Selects the next backend. Whatever other tasks select meanwhile, the backend is
    /// one of the pool.
    pub fn next_server(&self) -> (server: SocketAddress)
        ensures
            exists|i: int|
                0 <= i < self.servers().len() && server == (#[trigger] self.servers()[i]).0,
    {
        let (mut pool, handle) = self.lock.acquire_write();
        let ghost chosen = pool.next_index();
        let server = pool.next_server().clone();
        handle.release_write(pool);
        assert(server == self.servers()[chosen].0);
        server
    }
}

} // verus!
