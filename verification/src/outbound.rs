//! The outbound side of the peer links: the pool of write halves and the
//! fan-out of document updates to all of them.

use vstd::prelude::*;
use vstd::slice::slice_to_vec;
use crate::frame::{frame_of, MAX_PAYLOAD};
use crate::message::{ErrorKind, WireMessage, WireMessageView};
use crate::wire::{encode, payload_of};

verus! {

/// One frame to write to one peer.
#[derive(Debug, Clone, PartialEq, Eq)]
pub struct Delivery {
    pub peer: u64,
    pub frame: Vec<u8>,
}

/// What the broadcaster is asked to do, one request after the other.
#[derive(Debug, Clone, PartialEq, Eq)]
pub enum OutgoingMessage {
    /// A new write half, under this handle, joins the pool.
    NewSocket { peer: u64 },
    /// A document update goes to every member of the pool.
    DocumentData { data: Vec<u8> },
    /// Writing to this member failed: it leaves the pool.
    SendFailed { peer: u64 },
}

/// The frame that carries the document update `data`.
pub open spec fn update_frame(data: Seq<u8>) -> Seq<u8> {
    frame_of(payload_of(WireMessageView::DocumentSync { data }))
}

/// The pool of write halves, by handle, in the order of their registration.
pub struct Broadcaster {
    peers: Vec<u64>,
}

impl Broadcaster {
    /// Whether the pool is in order: no handle is in it twice.
    pub closed spec fn wf(&self) -> bool {
        self.peers@.no_duplicates()
    }

    /// A pool in order serves no handle twice.
    pub proof fn lemma_distinct(&self)
        requires
            self.wf(),
        ensures
            self.peers().no_duplicates(),
    {
    }

    /// The handles in the pool, in the order in which a broadcast serves them.
    pub closed spec fn peers(&self) -> Seq<u64> {
        self.peers@
    }

    /// An empty pool.
    pub fn new() -> (pool: Broadcaster)
        ensures
            pool.wf(),
            pool.peers() == Seq::<u64>::empty(),
    {
        Broadcaster { peers: Vec::new() }
    }

    /// Where `peer` stands in the pool.
    fn position(&self, peer: u64) -> (at: Option<usize>)
        ensures
            at is Some <==> self.peers().contains(peer),
            at matches Some(k) ==> k < self.peers().len() && self.peers()[k as int] == peer,
    {
        let mut i: usize = 0;
        while i < self.peers.len()
            invariant
                i <= self.peers.len(),
                forall|k: int| 0 <= k < i ==> self.peers@[k] != peer,
            decreases self.peers.len() - i,
        {
            if self.peers[i] == peer {
                return Some(i);
            }
            i += 1;
        }
        None
    }

    /// Adds a write half to the end of the pool.
    ///
    /// Returns whether the handle was new; a handle that is in the pool already
    /// stays where it is.
    pub fn register(&mut self, peer: u64) -> (added: bool)
        requires
            old(self).wf(),
        ensures
            final(self).wf(),
            added <==> !old(self).peers().contains(peer),
            added ==> final(self).peers() == old(self).peers().push(peer),
            !added ==> final(self).peers() == old(self).peers(),
    {
        match self.position(peer) {
            Some(_) => false,
            None => {
                self.peers.push(peer);
                true
            },
        }
    }

    /// Takes a write half out of the pool, as after a failed send. The other
    /// members keep their places.
    ///
    /// Returns whether the handle was in the pool.
    pub fn remove(&mut self, peer: u64) -> (removed: bool)
        requires
            old(self).wf(),
        ensures
            final(self).wf(),
            removed <==> old(self).peers().contains(peer),
            final(self).peers() == old(self).peers().remove_value(peer),
            !final(self).peers().contains(peer),
    {
        proof {
            self.peers@.index_of_first_ensures(peer);
        }
        match self.position(peer) {
            Some(k) => {
                let ghost before = self.peers@;
                self.peers.remove(k);
                proof {
                    let first = before.index_of_first(peer)->Some_0;
                    assert(first == k);
                    before.remove_ensures(k as int);
                    assert forall|i: int, j: int|
                        0 <= i < self.peers@.len() && 0 <= j < self.peers@.len() && i
                            != j implies self.peers@[i] != self.peers@[j] by {
                        let a = if i < k { i } else { i + 1 };
                        let b = if j < k { j } else { j + 1 };
                        assert(self.peers@[i] == before[a]);
                        assert(self.peers@[j] == before[b]);
                    }
                    assert forall|i: int| 0 <= i < self.peers@.len() implies self.peers@[i]
                        != peer by {
                        let a = if i < k { i } else { i + 1 };
                        assert(self.peers@[i] == before[a]);
                    }
                }
                true
            },
            None => false,
        }
    }

    /// How many write halves are in the pool.
    pub fn len(&self) -> (n: usize)
        ensures
            n == self.peers().len(),
    {
        self.peers.len()
    }

    /// Fans one document update out to the pool.
    ///
    /// The update is encoded once; the result holds one delivery for each
    /// member of the pool, in pool order, and every delivery carries that same
    /// frame. Fails with [`ErrorKind::Framing`] exactly when the update does not
    /// fit a frame.
    pub fn broadcast(&self, data: &[u8]) -> (deliveries: Result<Vec<Delivery>, ErrorKind>)
        ensures
            deliveries is Ok <==> payload_of(WireMessageView::DocumentSync { data: data@ }).len()
                <= MAX_PAYLOAD,
            deliveries matches Ok(out) ==> {
                &&& out@.len() == self.peers().len()
                &&& forall|i: int|
                    0 <= i < out@.len() ==> (#[trigger] out@[i]).peer == self.peers()[i]
                        && out@[i].frame@ == update_frame(data@)
            },
            deliveries matches Err(kind) ==> kind == ErrorKind::Framing,
    {
        let message = WireMessage::DocumentSync { data: slice_to_vec(data) };
        let frame = match encode(&message) {
            Ok(frame) => frame,
            Err(kind) => {
                return Err(kind);
            },
        };
        let mut out: Vec<Delivery> = Vec::new();
        let mut i: usize = 0;
        while i < self.peers.len()
            invariant
                i <= self.peers.len(),
                out@.len() == i,
                frame@ == update_frame(data@),
                forall|k: int|
                    0 <= k < i ==> (#[trigger] out@[k]).peer == self.peers@[k] && out@[k].frame@
                        == update_frame(data@),
            decreases self.peers.len() - i,
        {
            out.push(Delivery { peer: self.peers[i], frame: slice_to_vec(frame.as_slice()) });
            i += 1;
        }
        Ok(out)
    }

    /// Serves one request.
    ///
    /// A new write half joins the end of the pool, a failed one leaves it, and
    /// neither writes anything. A document update is fanned out as by
    /// [`Broadcaster::broadcast`] and leaves the pool as it is.
    pub fn step(&mut self, message: OutgoingMessage) -> (deliveries: Result<
        Vec<Delivery>,
        ErrorKind,
    >)
        requires
            old(self).wf(),
        ensures
            final(self).wf(),
            match message {
                OutgoingMessage::NewSocket { peer } => {
                    &&& deliveries matches Ok(out) && out@.len() == 0
                    &&& final(self).peers() == if old(self).peers().contains(peer) {
                        old(self).peers()
                    } else {
                        old(self).peers().push(peer)
                    }
                },
                OutgoingMessage::SendFailed { peer } => {
                    &&& deliveries matches Ok(out) && out@.len() == 0
                    &&& final(self).peers() == old(self).peers().remove_value(peer)
                },
                OutgoingMessage::DocumentData { data } => {
                    &&& final(self).peers() == old(self).peers()
                    &&& deliveries is Ok <==> payload_of(
                        WireMessageView::DocumentSync { data: data@ },
                    ).len() <= MAX_PAYLOAD
                    &&& deliveries matches Ok(out) ==> {
                        &&& out@.len() == old(self).peers().len()
                        &&& forall|i: int|
                            0 <= i < out@.len() ==> (#[trigger] out@[i]).peer == old(
                                self,
                            ).peers()[i] && out@[i].frame@ == update_frame(data@)
                    }
                    &&& deliveries matches Err(kind) ==> kind == ErrorKind::Framing
                },
            },
    {
        match message {
            OutgoingMessage::NewSocket { peer } => {
                self.register(peer);
                Ok(Vec::new())
            },
            OutgoingMessage::SendFailed { peer } => {
                self.remove(peer);
                Ok(Vec::new())
            },
            OutgoingMessage::DocumentData { data } => self.broadcast(data.as_slice()),
        }
    }
}

} // verus!
