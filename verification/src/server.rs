//! The two front ends of the proxy as values: one that is told where to listen after it
//! has been made and serves a built-in pool, and one that is made for an address.

use crate::load_balancer::WeightedRoundRobinLB;
use crate::rotation::start;
use crate::socket_address::{
    decimal_value, lemma_quad_is_valid, valid_ipv4, valid_port, SocketAddress,
};
use vstd::prelude::*;
use vstd::string::*;

verus! {

/// A proxy that is told where to listen after it has been made.
pub struct App {
    listening_socket_addr: Option<SocketAddress>,
}

impl App {
    /// The address to listen on, where one has been given.
    pub closed spec fn listening(&self) -> Option<SocketAddress> {
        self.listening_socket_addr
    }

    /// A proxy that has no address to listen on yet.
    pub fn new() -> (app: Self)
        ensures
            app.listening() is None,
    {
        App { listening_socket_addr: None }
    }

    /// Sets the address to listen on.
    pub fn listen_on(self, socket_addr: SocketAddress) -> (app: Self)
        ensures
            app.listening() == Some(socket_addr),
    {
        let mut app = self;
        app.listening_socket_addr = Some(socket_addr);
        app
    }

    /// The address to listen on, where one has been given.
    pub fn listening_address(&self) -> (address: Option<&SocketAddress>)
        ensures
            address matches Some(a) ==> self.listening() == Some(*a),
            address is None ==> self.listening() is None,
    {
        self.listening_socket_addr.as_ref()
    }
}

/// A proxy that listens on one address.
pub struct Server {
    listening_socket_addr: SocketAddress,
}

impl Server {
    /// The address to listen on.
    pub closed spec fn listening(&self) -> SocketAddress {
        self.listening_socket_addr
    }

    /// A proxy that listens on `socket_addr`.
    pub fn new(socket_addr: SocketAddress) -> (server: Self)
        ensures
            server.listening() == socket_addr,
    {
        Server { listening_socket_addr: socket_addr }
    }

    /// The address to listen on.
    pub fn listening_address(&self) -> (address: &SocketAddress)
        ensures
            *address == self.listening(),
    {
        &self.listening_socket_addr
    }
}

proof fn lemma_local_host_is_valid()
    ensures
        valid_ipv4("127.0.0.1"@),
{
    reveal_strlit("127.0.0.1");
    let a = seq!['1', '2', '7'];
    let z = seq!['0'];
    let o = seq!['1'];
    reveal_with_fuel(decimal_value, 4);
    lemma_quad_is_valid(a, z, z, o);
    assert("127.0.0.1"@ =~= a + seq!['.'] + z + seq!['.'] + z + seq!['.'] + o);
}

proof fn lemma_local_ports_are_valid()
    ensures
        valid_port("7878"@),
        valid_port("7879"@),
{
    reveal_strlit("7878");
    reveal_strlit("7879");
    reveal_with_fuel(decimal_value, 5);
}

/// A pool of two backends on this machine: port 7878 with weight 1, then port 7879
/// with weight 3.
pub fn get_load_balancer() -> (pool: WeightedRoundRobinLB)
    ensures
        pool.wf(),
        pool.ready(),
        pool.rotation() == start(),
        pool.reserved() == 2,
        pool.targets().len() == 2,
        pool.targets()[0].0.ipv4() == "127.0.0.1"@,
        pool.targets()[0].0.port() == "7878"@,
        pool.targets()[0].1 == 1,
        pool.targets()[1].0.ipv4() == "127.0.0.1"@,
        pool.targets()[1].0.port() == "7879"@,
        pool.targets()[1].1 == 3,
{
    proof {
        lemma_local_host_is_valid();
        lemma_local_ports_are_valid();
    }
    let mut balancer = WeightedRoundRobinLB::new(2).unwrap();
    let first = SocketAddress::new(String::from_str("127.0.0.1"), String::from_str("7878"));
    let done = balancer.insert_socket_address(first.unwrap(), 1);
    assert(done is Ok);
    let second = SocketAddress::new(String::from_str("127.0.0.1"), String::from_str("7879"));
    let done = balancer.insert_socket_address(second.unwrap(), 3);
    assert(done is Ok);
    proof {
        balancer.lemma_in_order();
    }
    balancer
}

} // verus!
