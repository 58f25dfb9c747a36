//! The inbound side of the peer links: the pool of read halves and the
//! decoding of what arrives on each of them.
//!
//! Every link has a reader of its own. Bytes that arrive on a link are fed to
//! its reader, whole frames are decoded, and the document updates they carry
//! are handed on. A frame that cannot be decoded ends that link, and no other.

use vstd::prelude::*;
use crate::frame::{front, FrameReader, Front};
use crate::message::{ErrorKind, WireMessage, WireMessageView};
use crate::wire::{decode_payload, wire_of_payload};

verus! {

/// What a run of bytes on one link amounts to.
pub struct Received {
    /// The document updates of the whole frames at the front, in order.
    pub updates: Seq<Seq<u8>>,
    /// Why decoding stopped for good, if it did.
    pub failure: Option<ErrorKind>,
    /// The bytes after the decoded frames.
    pub rest: Seq<u8>,
}

/// Decodes the frames at the front of `bytes`, one after the other, until the
/// bytes run out or a frame fails. A header that announces more than `limit`
/// is a framing failure; a whole frame without a peer message in it is a
/// message format failure.
pub open spec fn received(bytes: Seq<u8>, limit: nat) -> Received
    decreases bytes.len(),
{
    match front(bytes, limit) {
        Front::Incomplete => Received { updates: Seq::empty(), failure: None, rest: bytes },
        Front::Oversized => Received {
            updates: Seq::empty(),
            failure: Some(ErrorKind::Framing),
            rest: bytes,
        },
        Front::Whole { payload } => match wire_of_payload(payload) {
            None => Received {
                updates: Seq::empty(),
                failure: Some(ErrorKind::MessageFormat),
                rest: bytes,
            },
            Some(WireMessageView::DocumentSync { data }) => {
                let later = received(bytes.skip(4 + payload.len() as int), limit);
                Received {
                    updates: seq![data] + later.updates,
                    failure: later.failure,
                    rest: later.rest,
                }
            },
        },
    }
}

/// What came of the bytes that arrived on one link.
#[derive(Debug, Clone, PartialEq, Eq)]
pub struct Inbound {
    /// The document updates to import, in the order of their frames.
    pub updates: Vec<Vec<u8>>,
    /// The failure that ended the link, if one did.
    pub failure: Option<ErrorKind>,
}

/// What the inbound router is told, one notice after the other.
#[derive(Debug, Clone, PartialEq, Eq)]
pub enum IncomingMessage {
    /// A new read half, under this handle, joins the pool.
    NewSocket { peer: u64 },
    /// Bytes arrived on the link of this peer.
    Bytes { peer: u64, bytes: Vec<u8> },
    /// The stream of this peer has ended.
    Closed { peer: u64 },
}

/// The payloads of a run of updates.
pub open spec fn updates_view(updates: Seq<Vec<u8>>) -> Seq<Seq<u8>> {
    updates.map_values(|u: Vec<u8>| u@)
}

/// Takes every whole frame out of `reader` and decodes it.
///
/// Stops at the first frame that fails; the updates decoded before it are
/// still handed on.
pub fn pump(reader: &mut FrameReader) -> (got: Inbound)
    ensures
        final(reader).limit() == old(reader).limit(),
        updates_view(got.updates@) == received(old(reader).pending(), old(reader).limit()).updates,
        got.failure == received(old(reader).pending(), old(reader).limit()).failure,
        got.failure is None ==> final(reader).pending() == received(
            old(reader).pending(),
            old(reader).limit(),
        ).rest,
{
    let ghost start = reader.pending();
    let ghost limit = reader.limit();
    let mut updates: Vec<Vec<u8>> = Vec::new();
    assert(updates_view(updates@) + received(start, limit).updates =~= received(
        start,
        limit,
    ).updates);
    loop
        invariant
            start == old(reader).pending(),
            limit == old(reader).limit(),
            reader.limit() == limit,
            received(start, limit).updates == updates_view(updates@) + received(
                reader.pending(),
                limit,
            ).updates,
            received(start, limit).failure == received(reader.pending(), limit).failure,
            received(start, limit).rest == received(reader.pending(), limit).rest,
        decreases reader.pending().len(),
    {
        let ghost now = reader.pending();
        let ghost sofar = updates_view(updates@);
        match reader.next_frame() {
            Err(kind) => {
                assert(received(now, limit).updates =~= Seq::<Seq<u8>>::empty());
                assert(sofar + Seq::<Seq<u8>>::empty() =~= sofar);
                return Inbound { updates, failure: Some(kind) };
            },
            Ok(None) => {
                assert(received(now, limit).updates =~= Seq::<Seq<u8>>::empty());
                assert(sofar + Seq::<Seq<u8>>::empty() =~= sofar);
                return Inbound { updates, failure: None };
            },
            Ok(Some(payload)) => {
                match decode_payload(payload.as_slice()) {
                    Err(kind) => {
                        assert(received(now, limit).updates =~= Seq::<Seq<u8>>::empty());
                        assert(sofar + Seq::<Seq<u8>>::empty() =~= sofar);
                        return Inbound { updates, failure: Some(kind) };
                    },
                    Ok(WireMessage::DocumentSync { data }) => {
                        let ghost later = received(reader.pending(), limit);
                        updates.push(data);
                        proof {
                            assert(updates_view(updates@) =~= sofar.push(data@));
                            assert(received(now, limit).updates == seq![data@] + later.updates);
                            assert(sofar + (seq![data@] + later.updates) =~= sofar.push(data@)
                                + later.updates);
                        }
                    },
                }
            },
        }
    }
}

/// One read half in the pool.
pub struct Link {
    peer: u64,
    reader: FrameReader,
}

/// Whether some link of `links` bears the handle `peer`.
spec fn linked(links: Seq<Link>, peer: u64) -> bool {
    exists|i: int| 0 <= i < links.len() && (#[trigger] links[i]).peer == peer
}

/// Where the link with the handle `peer` stands.
spec fn at(links: Seq<Link>, peer: u64) -> int {
    choose|i: int| 0 <= i < links.len() && (#[trigger] links[i]).peer == peer
}

/// Whether no two links bear the same handle.
spec fn distinct(links: Seq<Link>) -> bool {
    forall|i: int, j: int|
        0 <= i < j < links.len() ==> (#[trigger] links[i]).peer != (#[trigger] links[j]).peer
}

/// The unread bytes of each link, by handle.
spec fn pool_of(links: Seq<Link>) -> Map<u64, Seq<u8>> {
    Map::new(|p: u64| linked(links, p), |p: u64| links[at(links, p)].reader.pending())
}

proof fn lemma_at(links: Seq<Link>, i: int)
    requires
        distinct(links),
        0 <= i < links.len(),
    ensures
        linked(links, links[i].peer),
        at(links, links[i].peer) == i,
        pool_of(links)[links[i].peer] == links[i].reader.pending(),
{
    let j = at(links, links[i].peer);
    if j < i {
        assert(links[j].peer != links[i].peer);
    } else if i < j {
        assert(links[i].peer != links[j].peer);
    }
}

proof fn lemma_pool_push(links: Seq<Link>, link: Link)
    requires
        distinct(links),
        !linked(links, link.peer),
    ensures
        distinct(links.push(link)),
        pool_of(links.push(link)) == pool_of(links).insert(link.peer, link.reader.pending()),
{
    let more = links.push(link);
    assert forall|i: int, j: int| 0 <= i < j < more.len() implies (#[trigger] more[i]).peer != (
    #[trigger] more[j]).peer by {
        if j == links.len() {
            assert(links[i].peer != link.peer);
        } else {
            assert(links[i].peer != links[j].peer);
        }
    }
    assert forall|p: u64| linked(more, p) <==> (p == link.peer || linked(links, p)) by {
        if linked(links, p) {
            let i = at(links, p);
            assert(more[i].peer == p);
        }
        if p == link.peer {
            assert(more[links.len() as int].peer == p);
        }
        if linked(more, p) {
            let i = at(more, p);
            if i < links.len() {
                assert(links[i].peer == p);
            }
        }
    }
    assert forall|p: u64| linked(more, p) implies #[trigger] pool_of(more)[p] == pool_of(
        links,
    ).insert(link.peer, link.reader.pending())[p] by {
        let i = at(more, p);
        lemma_at(more, i);
        if i < links.len() {
            assert(links[i].peer == p);
            lemma_at(links, i);
        }
    }
    assert(pool_of(more) =~= pool_of(links).insert(link.peer, link.reader.pending()));
}

proof fn lemma_pool_remove(links: Seq<Link>, k: int)
    requires
        distinct(links),
        0 <= k < links.len(),
    ensures
        distinct(links.remove(k)),
        !linked(links.remove(k), links[k].peer),
        pool_of(links.remove(k)) == pool_of(links).remove(links[k].peer),
{
    let less = links.remove(k);
    let gone = links[k].peer;
    links.remove_ensures(k);
    assert forall|i: int| 0 <= i < less.len() implies (#[trigger] less[i]) == links[if i < k {
        i
    } else {
        i + 1
    }] by {}
    assert forall|i: int, j: int| 0 <= i < j < less.len() implies (#[trigger] less[i]).peer != (
    #[trigger] less[j]).peer by {
        let a = if i < k { i } else { i + 1 };
        let b = if j < k { j } else { j + 1 };
        assert(less[i] == links[a]);
        assert(less[j] == links[b]);
        assert(links[a].peer != links[b].peer);
    }
    assert forall|i: int| 0 <= i < less.len() implies (#[trigger] less[i]).peer != gone by {
        let a = if i < k { i } else { i + 1 };
        assert(less[i] == links[a]);
        if a < k {
            assert(links[a].peer != links[k].peer);
        } else {
            assert(links[k].peer != links[a].peer);
        }
    }
    assert forall|p: u64| linked(less, p) <==> (p != gone && linked(links, p)) by {
        if linked(less, p) {
            let i = at(less, p);
            let a = if i < k { i } else { i + 1 };
            assert(less[i] == links[a]);
            assert(links[a].peer == p);
        }
        if p != gone && linked(links, p) {
            let a = at(links, p);
            let i = if a < k { a } else { a - 1 };
            assert(less[i] == links[a]);
            assert(less[i].peer == p);
        }
    }
    assert forall|p: u64| linked(less, p) implies #[trigger] pool_of(less)[p] == pool_of(
        links,
    ).remove(gone)[p] by {
        let i = at(less, p);
        lemma_at(less, i);
        let a = if i < k { i } else { i + 1 };
        assert(less[i] == links[a]);
        lemma_at(links, a);
    }
    assert(pool_of(less) =~= pool_of(links).remove(gone));
}

/// The pool of read halves, by handle, each with the bytes it has not yet
/// decoded.
pub struct InboundRouter {
    links: Vec<Link>,
    limit: usize,
}

impl InboundRouter {
    /// Whether the pool is in order: no handle is in it twice, and every link
    /// accepts payloads up to the pool's limit.
    pub closed spec fn wf(&self) -> bool {
        &&& distinct(self.links@)
        &&& forall|i: int|
            0 <= i < self.links@.len() ==> (#[trigger] self.links@[i]).reader.limit() == self.limit
    }

    /// The unread bytes of each link in the pool, by handle.
    pub closed spec fn pool(&self) -> Map<u64, Seq<u8>> {
        pool_of(self.links@)
    }

    /// The longest payload that the links accept.
    pub closed spec fn limit(&self) -> nat {
        self.limit as nat
    }

    /// An empty pool whose links will accept payloads of up to `limit` bytes.
    pub fn new(limit: usize) -> (router: InboundRouter)
        ensures
            router.wf(),
            router.pool() == Map::<u64, Seq<u8>>::empty(),
            router.limit() == limit,
    {
        let router = InboundRouter { links: Vec::new(), limit };
        assert(router.pool() =~= Map::<u64, Seq<u8>>::empty());
        router
    }

    /// Where the link of `peer` stands in the pool.
    fn position(&self, peer: u64) -> (found: Option<usize>)
        ensures
            found is Some <==> linked(self.links@, peer),
            found matches Some(k) ==> k < self.links@.len() && self.links@[k as int].peer == peer,
    {
        let mut i: usize = 0;
        while i < self.links.len()
            invariant
                i <= self.links.len(),
                forall|k: int| 0 <= k < i ==> (#[trigger] self.links@[k]).peer != peer,
            decreases self.links.len() - i,
        {
            if self.links[i].peer == peer {
                return Some(i);
            }
            i += 1;
        }
        None
    }

    /// Adds a read half with nothing received yet.
    ///
    /// Returns whether the handle was new; a link that is in the pool already
    /// keeps its bytes.
    pub fn register(&mut self, peer: u64) -> (added: bool)
        requires
            old(self).wf(),
        ensures
            final(self).wf(),
            final(self).limit() == old(self).limit(),
            added <==> !old(self).pool().dom().contains(peer),
            added ==> final(self).pool() == old(self).pool().insert(peer, Seq::empty()),
            !added ==> final(self).pool() == old(self).pool(),
    {
        match self.position(peer) {
            Some(_) => false,
            None => {
                let link = Link { peer, reader: FrameReader::new(self.limit) };
                proof {
                    lemma_pool_push(self.links@, link);
                }
                self.links.push(link);
                true
            },
        }
    }

    /// Takes in bytes that arrived on the link of `peer` and decodes the whole
    /// frames now at its front.
    ///
    /// The updates come out in frame order. A failure ends the link: it leaves
    /// the pool, and the updates decoded before the failure are still handed
    /// on. Bytes for a handle that is not in the pool are dropped. No other
    /// link is touched.
    pub fn receive(&mut self, peer: u64, bytes: &[u8]) -> (got: Inbound)
        requires
            old(self).wf(),
        ensures
            final(self).wf(),
            final(self).limit() == old(self).limit(),
            !old(self).pool().dom().contains(peer) ==> {
                &&& got.updates@.len() == 0
                &&& got.failure is None
                &&& final(self).pool() == old(self).pool()
            },
            old(self).pool().dom().contains(peer) ==> {
                let outcome = received(old(self).pool()[peer] + bytes@, old(self).limit());
                &&& updates_view(got.updates@) == outcome.updates
                &&& got.failure == outcome.failure
                &&& outcome.failure is None ==> final(self).pool() == old(self).pool().insert(
                    peer,
                    outcome.rest,
                )
                &&& outcome.failure is Some ==> final(self).pool() == old(self).pool().remove(peer)
            },
            forall|other: u64|
                other != peer ==> (#[trigger] final(self).pool().dom().contains(other)
                    <==> old(self).pool().dom().contains(other)),
            forall|other: u64|
                other != peer && old(self).pool().dom().contains(other)
                    ==> #[trigger] final(self).pool()[other] == old(self).pool()[other],
    {
        let k = match self.position(peer) {
            Some(k) => k,
            None => {
                return Inbound { updates: Vec::new(), failure: None };
            },
        };
        let ghost before = self.links@;
        proof {
            lemma_at(before, k as int);
            lemma_pool_remove(before, k as int);
        }
        let mut link = self.links.remove(k);
        link.reader.push(bytes);
        let got = pump(&mut link.reader);
        if got.failure.is_none() {
            proof {
                lemma_pool_push(self.links@, link);
                assert(pool_of(self.links@.push(link)) =~= pool_of(before).insert(
                    peer,
                    link.reader.pending(),
                ));
            }
            self.links.push(link);
        } else {
            proof {
                assert(pool_of(self.links@) =~= pool_of(before).remove(peer));
            }
        }
        got
    }

    /// Takes the link of `peer` out of the pool, as when its stream has ended.
    ///
    /// Returns [`ErrorKind::Framing`] exactly when the stream ended inside a
    /// frame. No other link is touched.
    pub fn close(&mut self, peer: u64) -> (failure: Option<ErrorKind>)
        requires
            old(self).wf(),
        ensures
            final(self).wf(),
            final(self).limit() == old(self).limit(),
            final(self).pool() == old(self).pool().remove(peer),
            failure is Some <==> old(self).pool().dom().contains(peer) && old(self).pool()[peer].len()
                > 0,
            failure matches Some(kind) ==> kind == ErrorKind::Framing,
    {
        match self.position(peer) {
            Some(k) => {
                proof {
                    lemma_at(self.links@, k as int);
                    lemma_pool_remove(self.links@, k as int);
                }
                let link = self.links.remove(k);
                if link.reader.is_idle() {
                    None
                } else {
                    Some(ErrorKind::Framing)
                }
            },
            None => {
                assert(self.pool() =~= self.pool().remove(peer));
                None
            },
        }
    }

    /// Serves one notice: a new link joins the pool as by
    /// [`InboundRouter::register`], bytes are taken in as by
    /// [`InboundRouter::receive`], and a stream that ended takes its link out
    /// as by [`InboundRouter::close`].
    pub fn step(&mut self, message: IncomingMessage) -> (got: Inbound)
        requires
            old(self).wf(),
        ensures
            final(self).wf(),
            final(self).limit() == old(self).limit(),
            match message {
                IncomingMessage::NewSocket { peer } => {
                    &&& got.updates@.len() == 0
                    &&& got.failure is None
                    &&& final(self).pool() == if old(self).pool().dom().contains(peer) {
                        old(self).pool()
                    } else {
                        old(self).pool().insert(peer, Seq::empty())
                    }
                },
                IncomingMessage::Bytes { peer, bytes } => if old(self).pool().dom().contains(
                    peer,
                ) {
                    let outcome = received(old(self).pool()[peer] + bytes@, old(self).limit());
                    &&& updates_view(got.updates@) == outcome.updates
                    &&& got.failure == outcome.failure
                    &&& final(self).pool() == if outcome.failure is None {
                        old(self).pool().insert(peer, outcome.rest)
                    } else {
                        old(self).pool().remove(peer)
                    }
                } else {
                    &&& got.updates@.len() == 0
                    &&& got.failure is None
                    &&& final(self).pool() == old(self).pool()
                },
                IncomingMessage::Closed { peer } => {
                    &&& got.updates@.len() == 0
                    &&& final(self).pool() == old(self).pool().remove(peer)
                    &&& got.failure == if old(self).pool().dom().contains(peer) && old(
                        self,
                    ).pool()[peer].len() > 0 {
                        Some(ErrorKind::Framing)
                    } else {
                        None
                    }
                },
            },
    {
        match message {
            IncomingMessage::NewSocket { peer } => {
                self.register(peer);
                Inbound { updates: Vec::new(), failure: None }
            },
            IncomingMessage::Bytes { peer, bytes } => self.receive(peer, bytes.as_slice()),
            IncomingMessage::Closed { peer } => {
                let failure = self.close(peer);
                Inbound { updates: Vec::new(), failure }
            },
        }
    }

    /// How many read halves are in the pool.
    pub fn len(&self) -> (n: usize)
        requires
            self.wf(),
        ensures
            n == self.pool().dom().len(),
            self.pool().dom().finite(),
    {
        proof {
            lemma_pool_size(self.links@);
        }
        self.links.len()
    }
}

proof fn lemma_pool_size(links: Seq<Link>)
    requires
        distinct(links),
    ensures
        pool_of(links).dom().finite(),
        pool_of(links).dom().len() == links.len(),
    decreases links.len(),
{
    if links.len() == 0 {
        assert(pool_of(links).dom() =~= Set::<u64>::empty());
    } else {
        let k = links.len() - 1;
        lemma_pool_remove(links, k);
        lemma_pool_size(links.remove(k));
        lemma_at(links, k);
        assert(pool_of(links).dom() =~= pool_of(links.remove(k)).dom().insert(links[k].peer));
    }
}

} // verus!
