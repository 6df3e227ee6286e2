//! The data plane of one proxied connection, without the sockets: a buffer that decides
//! when a message of unknown length has been read in full, and the order in which a
//! relay reads, connects, forwards and answers. The caller owns the sockets, performs
//! each action and reports what came of it.

use crate::socket_address::SocketAddress;
use vstd::prelude::*;
use vstd::slice::*;

verus! {

/// The size of a relay buffer before it has grown.
pub const INITIAL_BUFFER_SIZE: usize = 8193;

/// What the buffer makes of one read.
#[derive(Clone, Copy, Debug, PartialEq, Eq, Structural)]
pub enum Framing {
    /// The read filled the buffer to the last byte: more may follow, read again.
    More,
    /// The message is complete and has this many bytes.
    Complete(usize),
}

/// Where a buffer of `capacity` bytes that holds `filled` of them stands after a read
/// of `n` more: a read of nothing means that the peer has closed, a read that leaves
/// room ends the message, and one that fills the buffer exactly asks for another.
pub open spec fn framing_of(capacity: nat, filled: nat, n: nat) -> Framing {
    if n == 0 {
        Framing::Complete(filled as usize)
    } else if n < capacity - filled {
        Framing::Complete((filled + n) as usize)
    } else {
        Framing::More
    }
}

/// The size of the buffer after that read: doubled where the read filled it.
pub open spec fn capacity_after(capacity: nat, filled: nat, n: nat) -> nat {
    if framing_of(capacity, filled, n) == Framing::More {
        2 * capacity
    } else {
        capacity
    }
}

/// The buffer of one connection. It holds the bytes read so far at its front and
/// doubles in size whenever a read has filled it.
pub struct RelayBuffer {
    storage: Vec<u8>,
    filled: usize,
}

impl RelayBuffer {
    /// The size of the buffer, filled or not.
    pub closed spec fn capacity(&self) -> nat {
        self.storage@.len()
    }

    /// The bytes read so far.
    pub closed spec fn data(&self) -> Seq<u8> {
        self.storage@.take(self.filled as int)
    }

    /// The number of bytes that the next read may bring.
    pub open spec fn room(&self) -> nat {
        (self.capacity() - self.data().len()) as nat
    }

    #[verifier::type_invariant]
    spec fn well_formed(&self) -> bool {
        self.filled <= self.storage@.len()
    }

    /// An empty buffer of the initial size.
    pub fn new() -> (buffer: Self)
        ensures
            buffer.capacity() == INITIAL_BUFFER_SIZE,
            buffer.data() == Seq::<u8>::empty(),
    {
        RelayBuffer { storage: vec![0u8; INITIAL_BUFFER_SIZE], filled: 0 }
    }

    /// The size of the buffer.
    pub fn size(&self) -> (n: usize)
        ensures
            n == self.capacity(),
            self.data().len() <= self.capacity(),
    {
        proof {
            use_type_invariant(self);
        }
        self.storage.len()
    }

    /// The number of bytes read so far.
    pub fn len(&self) -> (n: usize)
        ensures
            n == self.data().len(),
            self.data().len() <= self.capacity(),
    {
        proof {
            use_type_invariant(self);
        }
        self.filled
    }

    /// The number of bytes that the next read may bring.
    pub fn free(&self) -> (n: usize)
        ensures
            n == self.room(),
            self.data().len() <= self.capacity(),
    {
        proof {
            use_type_invariant(self);
        }
        self.storage.len() - self.filled
    }

    /// The bytes read so far.
    pub fn bytes(&self) -> (bytes: &[u8])
        ensures
            bytes@ == self.data(),
    {
        proof {
            use_type_invariant(self);
        }
        slice_subrange(self.storage.as_slice(), 0, self.filled)
    }

    /// Forgets the bytes read so far. The buffer keeps its size.
    pub fn clear(&mut self)
        ensures
            final(self).capacity() == old(self).capacity(),
            final(self).data() == Seq::<u8>::empty(),
    {
        self.filled = 0;
    }

    /// Takes in the bytes of one read and says whether the message is complete.
    /// `chunk` is what a read into the free part of the buffer returned, so it is no
    /// longer than that part. Where it fills the buffer, the buffer doubles.
    pub fn receive(&mut self, chunk: &[u8]) -> (framing: Framing)
        requires
            chunk@.len() <= old(self).room(),
            0 < chunk@.len() == old(self).room() ==> 2 * old(self).capacity() <= usize::MAX,
        ensures
            final(self).data() == old(self).data() + chunk@,
            framing == framing_of(old(self).capacity(), old(self).data().len(), chunk@.len()),
            final(self).capacity() == capacity_after(
                old(self).capacity(),
                old(self).data().len(),
                chunk@.len(),
            ),
    {
        proof {
            use_type_invariant(&*self);
        }
        let before = self.filled;
        let free = self.storage.len() - before;
        let n = chunk.len();
        let mut i: usize = 0;
        while i < n
            invariant
                i <= n,
                n == chunk@.len(),
                before + n <= self.storage@.len() <= usize::MAX,
                self.filled == before,
                self.storage@.len() == old(self).storage@.len(),
                self.storage@.take(before as int) == old(self).storage@.take(before as int),
                self.storage@.subrange(before as int, before + i) == chunk@.take(i as int),
            decreases n - i,
        {
            self.storage[before + i] = chunk[i];
            i = i + 1;
            assert(self.storage@.take(before as int) =~= old(self).storage@.take(before as int));
            assert(self.storage@.subrange(before as int, before + i) =~= chunk@.take(i as int));
        }
        self.filled = before + n;
        assert(chunk@.take(n as int) =~= chunk@);
        assert(self.storage@.take(self.filled as int) =~= old(self).storage@.take(before as int)
            + chunk@);
        if n == 0 {
            Framing::Complete(before)
        } else if n < free {
            Framing::Complete(before + n)
        } else {
            let ghost full = self.storage@;
            let filled = self.filled;
            let mut storage: Vec<u8> = Vec::new();
            self.filled = 0;
            core::mem::swap(&mut self.storage, &mut storage);
            storage.resize(storage.len() * 2, 0u8);
            core::mem::swap(&mut self.storage, &mut storage);
            self.filled = filled;
            assert(self.storage@.take(filled as int) =~= full.take(filled as int)) by {
                assert(self.storage@.subrange(0, full.len() as int) == full);
                assert forall|k: int| 0 <= k < filled implies self.storage@[k] == full[k] by {
                    assert(self.storage@.subrange(0, full.len() as int)[k] == full[k]);
                }
            }
            Framing::More
        }
    }
}

/// What a relay is waiting for.
#[derive(Clone, Copy, Debug, PartialEq, Eq, Structural)]
pub enum Phase {
    /// A read from the client.
    ReadingRequest,
    /// The connection to the backend.
    Connecting,
    /// The end of the write of the request to the backend.
    SendingRequest,
    /// A read from the backend.
    ReadingReply,
    /// The end of the write of the reply to the client.
    SendingReply,
    /// Nothing: both connections are to be closed.
    Closed,
}

/// What the caller does next for a relay.
#[derive(Clone, Copy, Debug, PartialEq, Eq, Structural)]
pub enum Action {
    /// Read from the client, at most as many bytes as the buffer has room for.
    ReadFromClient,
    /// Open a connection to the target.
    ConnectToBackend,
    /// Write the whole payload to the backend.
    WriteToBackend,
    /// Read from the backend, at most as many bytes as the buffer has room for.
    ReadFromBackend,
    /// Write the whole payload to the client.
    WriteToClient,
    /// Close both connections.
    Close,
}

/// What came of the action that the relay asked for last.
pub enum Event<'a> {
    /// A read returned these bytes, none where the peer has closed.
    Read(&'a [u8]),
    /// A read failed.
    ReadFailed,
    /// The backend accepted the connection.
    Connected,
    /// The backend could not be reached.
    ConnectFailed,
    /// A write went through in full.
    Written,
    /// A write failed.
    WriteFailed,
}

/// A relay seen as plain values.
pub struct RelayState {
    /// What the relay is waiting for.
    pub phase: Phase,
    /// The size of its buffer.
    pub capacity: nat,
    /// The bytes of the message that it holds: the request until the request has been
    /// forwarded, the reply after that.
    pub payload: Seq<u8>,
}

/// `event` is an answer to what a relay in `phase` asked for.
pub open spec fn awaited(phase: Phase, event: Event) -> bool {
    match phase {
        Phase::ReadingRequest | Phase::ReadingReply => event is Read || event is ReadFailed,
        Phase::Connecting => event is Connected || event is ConnectFailed,
        Phase::SendingRequest | Phase::SendingReply => event is Written || event is WriteFailed,
        Phase::Closed => false,
    }
}

/// The state after a read of `chunk` that leaves the relay in `phase`.
pub open spec fn after_read(s: RelayState, chunk: Seq<u8>, phase: Phase) -> RelayState {
    RelayState {
        phase,
        capacity: capacity_after(s.capacity, s.payload.len(), chunk.len()),
        payload: s.payload + chunk,
    }
}

/// The state of a relay that has given up or is done.
pub open spec fn closed(s: RelayState) -> RelayState {
    RelayState { phase: Phase::Closed, ..s }
}

/// The state of a relay in state `s` after `event`, and what it asks for next.
///
/// The request is read until a read completes it; a failed read leaves an empty
/// request, which is still forwarded. Then the backend is connected to, the request
/// written to it, and the reply read into the same buffer, emptied but not shrunk.
/// A reply of some bytes is written back to the client. A backend that cannot be
/// reached, a failed write, a failed read of the reply or an empty reply close the relay
/// with nothing written to the client.
pub open spec fn next(s: RelayState, event: Event) -> (RelayState, Action) {
    match (s.phase, event) {
        (Phase::ReadingRequest, Event::Read(chunk)) => {
            if framing_of(s.capacity, s.payload.len(), chunk@.len()) == Framing::More {
                (after_read(s, chunk@, Phase::ReadingRequest), Action::ReadFromClient)
            } else {
                (after_read(s, chunk@, Phase::Connecting), Action::ConnectToBackend)
            }
        },
        (Phase::ReadingRequest, Event::ReadFailed) => (
            RelayState { phase: Phase::Connecting, payload: Seq::empty(), ..s },
            Action::ConnectToBackend,
        ),
        (Phase::Connecting, Event::Connected) => (
            RelayState { phase: Phase::SendingRequest, ..s },
            Action::WriteToBackend,
        ),
        (Phase::SendingRequest, Event::Written) => (
            RelayState { phase: Phase::ReadingReply, payload: Seq::empty(), ..s },
            Action::ReadFromBackend,
        ),
        (Phase::ReadingReply, Event::Read(chunk)) => {
            if framing_of(s.capacity, s.payload.len(), chunk@.len()) == Framing::More {
                (after_read(s, chunk@, Phase::ReadingReply), Action::ReadFromBackend)
            } else if s.payload.len() + chunk@.len() == 0 {
                (after_read(s, chunk@, Phase::Closed), Action::Close)
            } else {
                (after_read(s, chunk@, Phase::SendingReply), Action::WriteToClient)
            }
        },
        (Phase::ReadingReply, Event::ReadFailed) => (
            RelayState { phase: Phase::Closed, payload: Seq::empty(), ..s },
            Action::Close,
        ),
        _ => (closed(s), Action::Close),
    }
}

/// One proxied connection: the target it forwards to, the buffer, and what it is
/// waiting for.
pub struct Relay {
    target: String,
    phase: Phase,
    buffer: RelayBuffer,
}

impl Relay {
    /// The relay as plain values.
    pub closed spec fn state(&self) -> RelayState {
        RelayState {
            phase: self.phase,
            capacity: self.buffer.capacity(),
            payload: self.buffer.data(),
        }
    }

    /// The address of the backend, as `host:port`.
    pub closed spec fn target(&self) -> Seq<char> {
        self.target@
    }

    /// A relay to `target` that waits for the first read from the client, with an
    /// empty buffer of the initial size.
    pub fn new(target: &SocketAddress) -> (relay: Self)
        ensures
            relay.target() == target.text(),
            relay.state() == (RelayState {
                phase: Phase::ReadingRequest,
                capacity: INITIAL_BUFFER_SIZE as nat,
                payload: Seq::empty(),
            }),
    {
        let buffer = RelayBuffer::new();
        let _ = buffer.len();
        Relay { target: target.get(), phase: Phase::ReadingRequest, buffer }
    }

    /// What the relay is waiting for.
    pub fn phase(&self) -> (phase: Phase)
        ensures
            phase == self.state().phase,
    {
        self.phase
    }

    /// The address to connect to, as `host:port`.
    pub fn target_address(&self) -> (address: &String)
        ensures
            address@ == self.target(),
    {
        &self.target
    }

    /// The bytes to write: the request while it is forwarded, the reply after that.
    pub fn payload(&self) -> (bytes: &[u8])
        ensures
            bytes@ == self.state().payload,
    {
        self.buffer.bytes()
    }

    /// The largest number of bytes that the next read may bring.
    pub fn room(&self) -> (n: usize)
        ensures
            n == self.state().capacity - self.state().payload.len(),
            self.state().payload.len() <= self.state().capacity,
    {
        self.buffer.free()
    }

    /// Takes in what came of the last action and says what to do next.
    ///
    /// The event answers what the relay asked for, and a read brought no more bytes
    /// than the relay had room for. A read that fills the buffer doubles it, so twice
    /// its size fits the machine.
    pub fn step(&mut self, event: Event) -> (action: Action)
        requires
            awaited(old(self).state().phase, event),
            event matches Event::Read(chunk) ==> {
                &&& old(self).state().payload.len() + chunk@.len() <= old(self).state().capacity
                &&& framing_of(
                    old(self).state().capacity,
                    old(self).state().payload.len(),
                    chunk@.len(),
                ) == Framing::More ==> 2 * old(self).state().capacity <= usize::MAX
            },
        ensures
            final(self).target() == old(self).target(),
            (final(self).state(), action) == next(old(self).state(), event),
    {
        let _ = self.buffer.len();
        match self.phase {
            Phase::ReadingRequest => {
                match event {
                    Event::Read(chunk) => {
                        match self.buffer.receive(chunk) {
                            Framing::More => {
                                let _ = self.buffer.len();
                                Action::ReadFromClient
                            },
                            Framing::Complete(_) => {
                                let _ = self.buffer.len();
                                self.phase = Phase::Connecting;
                                Action::ConnectToBackend
                            },
                        }
                    },
                    _ => {
                        self.buffer.clear();
                        let _ = self.buffer.len();
                        self.phase = Phase::Connecting;
                        Action::ConnectToBackend
                    },
                }
            },
            Phase::Connecting => {
                match event {
                    Event::Connected => {
                        self.phase = Phase::SendingRequest;
                        Action::WriteToBackend
                    },
                    _ => {
                        self.phase = Phase::Closed;
                        Action::Close
                    },
                }
            },
            Phase::SendingRequest => {
                match event {
                    Event::Written => {
                        self.buffer.clear();
                        let _ = self.buffer.len();
                        self.phase = Phase::ReadingReply;
                        Action::ReadFromBackend
                    },
                    _ => {
                        self.phase = Phase::Closed;
                        Action::Close
                    },
                }
            },
            Phase::ReadingReply => {
                match event {
                    Event::Read(chunk) => {
                        match self.buffer.receive(chunk) {
                            Framing::More => {
                                let _ = self.buffer.len();
                                Action::ReadFromBackend
                            },
                            Framing::Complete(total) => {
                                let _ = self.buffer.len();
                                if total == 0 {
                                    self.phase = Phase::Closed;
                                    Action::Close
                                } else {
                                    self.phase = Phase::SendingReply;
                                    Action::WriteToClient
                                }
                            },
                        }
                    },
                    _ => {
                        self.buffer.clear();
                        let _ = self.buffer.len();
                        self.phase = Phase::Closed;
                        Action::Close
                    },
                }
            },
            _ => {
                self.phase = Phase::Closed;
                Action::Close
            },
        }
    }
}

} // verus!
