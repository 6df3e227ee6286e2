//! One slot of the pool: a backend, its weight, and the count of the selections it has
//! had in its current turn.

use crate::socket_address::SocketAddress;
use vstd::prelude::*;

verus! {

/// A backend with its weight. The slot hands its backend out as many times in a row as
/// its weight says, then reports once that its turn is over and starts anew.
#[derive(Debug)]
pub struct Weight {
    socket_address: SocketAddress,
    weight: usize,
    request_counter: usize,
}

impl Weight {
    /// The backend of the slot.
    pub closed spec fn address(&self) -> SocketAddress {
        self.socket_address
    }

    /// The weight of the slot: the selections that one turn gives it.
    pub closed spec fn capacity(&self) -> usize {
        self.weight
    }

    /// The selections that the slot has had in its current turn.
    pub closed spec fn served(&self) -> usize {
        self.request_counter
    }

    #[verifier::type_invariant]
    spec fn well_formed(&self) -> bool {
        self.request_counter <= self.weight
    }

    /// A slot for `socket_address` that has had no selection yet.
    pub fn new(socket_address: SocketAddress, weight: usize) -> (slot: Self)
        ensures
            slot.address() == socket_address,
            slot.capacity() == weight,
            slot.served() == 0,
    {
        Weight { socket_address, weight, request_counter: 0 }
    }

    /// Takes one selection from the slot. While the slot has one left, the backend is
    /// handed out and counted. A slot that has had as many as its weight hands out
    /// nothing and starts its count anew; so does, every time, a slot of weight zero.
    pub fn next_request(&mut self) -> (next: Option<&SocketAddress>)
        ensures
            final(self).address() == old(self).address(),
            final(self).capacity() == old(self).capacity(),
            old(self).served() <= old(self).capacity(),
            old(self).served() < old(self).capacity() ==> next == Some(&old(self).address())
                && final(self).served() == old(self).served() + 1,
            old(self).served() == old(self).capacity() ==> next is None && final(self).served()
                == 0,
    {
        proof {
            use_type_invariant(&*self);
        }
        if self.request_counter == self.weight {
            self.request_counter = 0;
            return None;
        }
        self.request_counter = self.request_counter + 1;
        Some(&self.socket_address)
    }

    /// The backend of the slot.
    pub fn get_socket_address(&self) -> (address: &SocketAddress)
        ensures
            *address == self.address(),
    {
        &self.socket_address
    }

    /// The weight of the slot.
    pub fn get_weight(&self) -> (weight: usize)
        ensures
            weight == self.capacity(),
    {
        self.weight
    }

    /// The selections that the slot has had in its current turn, never more than its
    /// weight.
    pub fn get_served(&self) -> (served: usize)
        ensures
            served == self.served(),
            served <= self.capacity(),
    {
        proof {
            use_type_invariant(self);
        }
        self.request_counter
    }
}

} // verus!
