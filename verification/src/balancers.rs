//! What every pool of backends offers, whatever its rule of selection, and the making
//! and filling of a pool of any kind.

use crate::load_balancer::{weights_of, MAX_SERVERS, TOO_MANY_SERVERS, ZERO_OR_NEGATIVE_SERVERS};
use crate::rotation::all_positive;
use crate::socket_address::SocketAddress;
use vstd::pervasive::unreached;
use vstd::prelude::*;

verus! {

/// A pool of backends from which one is selected at a time.
pub trait LoadBalancer: Sized {
    /// The backends of the pool with their weights, in the order of their insertion.
    spec fn servers(&self) -> Seq<(SocketAddress, usize)>;

    /// The pool is in order, as every pool is that was made by `new` and changed by the
    /// methods of this trait alone.
    spec fn in_order(&self) -> bool;

    /// The pool can select.
    spec fn in_service(&self) -> bool;

    /// The index of the backend that the next selection chooses.
    spec fn next_index(&self) -> int;

    /// The pool stands where a pool stands that has not selected yet.
    spec fn at_start(&self) -> bool;

    /// An empty pool with room for `servers_number` backends.
    fn new(servers_number: usize) -> (made: Result<Box<Self>, &'static str>)
        ensures
            servers_number > MAX_SERVERS ==> made == Err::<Box<Self>, &'static str>(
                TOO_MANY_SERVERS,
            ),
            servers_number == 0 ==> made == Err::<Box<Self>, &'static str>(
                ZERO_OR_NEGATIVE_SERVERS,
            ),
            0 < servers_number <= MAX_SERVERS ==> made is Ok,
            made matches Ok(pool) ==> pool.in_order() && pool.at_start() && pool.servers()
                == Seq::<(SocketAddress, usize)>::empty(),
    ;

    /// Selects the next backend. A pool that holds a backend and no weight of zero can
    /// select again afterwards.
    fn next_server(&mut self) -> (server: &SocketAddress)
        requires
            old(self).in_order(),
            old(self).in_service(),
        ensures
            final(self).in_order(),
            final(self).servers() == old(self).servers(),
            0 <= old(self).next_index() < old(self).servers().len(),
            *server == old(self).servers()[old(self).next_index()].0,
            all_positive(weights_of(old(self).servers())) ==> final(self).in_service(),
    ;

    /// Appends a backend with its weight. The pool refuses the backend, and stays as it
    /// is, where it holds `MAX_SERVERS` already. A pool that holds a backend and no
    /// weight of zero can select afterwards.
    fn insert_socket_address(&mut self, socket_address: SocketAddress, weight: usize) -> (done:
        Result<(), &'static str>)
        requires
            old(self).in_order(),
        ensures
            final(self).in_order(),
            old(self).servers().len() >= MAX_SERVERS ==> done == Err::<(), &'static str>(
                TOO_MANY_SERVERS,
            ) && final(self).servers() == old(self).servers(),
            old(self).servers().len() < MAX_SERVERS ==> done is Ok && final(self).servers() == old(
                self,
            ).servers().push((socket_address, weight)),
            final(self).servers().len() > 0 && all_positive(weights_of(final(self).servers()))
                ==> final(self).in_service(),
            old(self).at_start() ==> final(self).at_start(),
    ;
}

/// Makes an empty pool of the kind `T` with room for `servers_number` backends.
pub fn load_balancer_factory<T>(servers_number: usize) -> (made: Result<T, &'static str>) where
    T: LoadBalancer + Sync + Send + 'static,

    ensures
        servers_number > MAX_SERVERS ==> made == Err::<T, &'static str>(TOO_MANY_SERVERS),
        servers_number == 0 ==> made == Err::<T, &'static str>(ZERO_OR_NEGATIVE_SERVERS),
        0 < servers_number <= MAX_SERVERS ==> made is Ok,
        made matches Ok(pool) ==> pool.in_order() && pool.at_start() && pool.servers() == Seq::<
            (SocketAddress, usize),
        >::empty(),
{
    match T::new(servers_number) {
        Ok(pool) => Ok(*pool),
        Err(e) => Err(e),
    }
}

/// Makes a pool of the kind `T` that holds `servers`, in their order, and has not
/// selected yet. There is at least one backend and there are no more than
/// `MAX_SERVERS`. Where no weight is zero, the pool can select.
pub fn create_and_fill_the_balancer<T>(servers: Vec<(SocketAddress, usize)>) -> (pool: T) where
    T: LoadBalancer + Sync + Send + 'static,

    requires
        0 < servers@.len() <= MAX_SERVERS,
    ensures
        pool.in_order(),
        pool.at_start(),
        pool.servers() == servers@,
        all_positive(weights_of(servers@)) ==> pool.in_service(),
{
    let mut pool = match load_balancer_factory::<T>(servers.len()) {
        Ok(pool) => pool,
        Err(_) => unreached(),
    };
    for pair in it: servers
        invariant
            it.seq() == servers@,
            servers@.len() <= MAX_SERVERS,
            pool.in_order(),
            pool.at_start(),
            pool.servers() == servers@.take(it.index() as int),
            it.index() > 0 && all_positive(weights_of(pool.servers())) ==> pool.in_service(),
    {
        let (socket_address, weight) = pair;
        let ghost before = pool.servers();
        let done = pool.insert_socket_address(socket_address, weight);
        assert(done is Ok);
        assert(servers@.take(it.index() + 1) =~= before.push((socket_address, weight)));
    }
    assert(servers@.take(servers@.len() as int) =~= servers@);
    pool
}

} // verus!
