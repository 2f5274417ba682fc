//! Per-socket application state: the outbound queue with its partially sent packet, the
//! inbound queue, and the endpoint a socket was connected to.
use crate::address::{Address, Endpoint};
use crate::error::StackError;
use smoltcp::socket::SocketHandle;
use std::collections::VecDeque;
use vstd::prelude::*;

verus! {

/// The kinds of socket a caller may ask for; only TCP and UDP are backed by the engine.
#[allow(non_camel_case_types)]
#[derive(Clone, Copy, PartialEq, Eq, Structural, Debug)]
pub enum SocketType {
    RAW_IPV4,
    RAW_IPV6,
    ICMP,
    TCP,
    UDP,
}

/// Connectionless kinds (all but TCP), whose sends must name a destination.
pub open spec fn needs_endpoint(kind: SocketType) -> bool {
    kind != SocketType::TCP
}

/// A byte buffer, the offset of the first byte not yet sent, and the owner of the bytes
/// when they were lent by the caller. The owner is dropped, and so released, exactly when
/// the blob is: after its last byte went out, or when the socket holding it goes away.
pub struct Blob<O> {
    data: Vec<u8>,
    start: usize,
    owner: Option<O>,
}

impl<O> Blob<O> {
    #[verifier::type_invariant]
    spec fn inv(&self) -> bool {
        self.start <= self.data@.len()
    }

    /// All the bytes of the blob, sent or not.
    pub closed spec fn bytes(&self) -> Seq<u8> {
        self.data@
    }

    /// How many bytes have been sent already.
    pub closed spec fn sent(&self) -> nat {
        self.start as nat
    }

    /// The owner that releases the bytes.
    pub closed spec fn owner(&self) -> Option<O> {
        self.owner
    }

    /// The bytes not yet sent.
    pub open spec fn remaining(&self) -> Seq<u8> {
        self.bytes().subrange(self.sent() as int, self.bytes().len() as int)
    }

    /// A blob that owns a copy of the caller's bytes.
    pub fn owned(data: Vec<u8>) -> (r: Blob<O>)
        ensures
            r.bytes() == data@,
            r.sent() == 0,
            r.owner() is None,
    {
        Blob { data, start: 0, owner: None }
    }

    /// A blob whose bytes stay lent by `owner` until the blob is dropped.
    pub fn borrowed(data: Vec<u8>, owner: O) -> (r: Blob<O>)
        ensures
            r.bytes() == data@,
            r.sent() == 0,
            r.owner() == Some(owner),
    {
        Blob { data, start: 0, owner: Some(owner) }
    }

    /// The bytes not yet sent.
    pub fn unsent(&self) -> (r: &[u8])
        ensures
            r@ == self.remaining(),
    {
        proof {
            use_type_invariant(self);
        }
        vstd::slice::slice_subrange(self.data.as_slice(), self.start, self.data.len())
    }

    /// Number of bytes not yet sent.
    pub fn unsent_len(&self) -> (r: usize)
        ensures
            r == self.remaining().len(),
    {
        proof {
            use_type_invariant(self);
        }
        self.data.len() - self.start
    }

    /// Marks `n` more bytes as sent.
    pub fn advance(&mut self, n: usize)
        requires
            n <= old(self).remaining().len(),
        ensures
            final(self).bytes() == old(self).bytes(),
            final(self).owner() == old(self).owner(),
            final(self).sent() == old(self).sent() + n,
            final(self).remaining() == old(self).remaining().subrange(
                n as int,
                old(self).remaining().len() as int,
            ),
    {
        proof {
            use_type_invariant(&*self);
        }
        let len = self.data.len();
        assert(self.start + n <= len);
        self.start = self.start + n;
        assert(self.remaining() =~= old(self).remaining().subrange(
            n as int,
            old(self).remaining().len() as int,
        ));
    }
}

/// A blob and, for connectionless sockets, where it goes.
pub struct Packet<O> {
    pub blob: Blob<O>,
    pub endpoint: Option<Endpoint>,
}

/// The bytes still to be sent from a sequence of packets, in order.
pub open spec fn unsent_bytes<O>(ps: Seq<Packet<O>>) -> Seq<u8>
    decreases ps.len(),
{
    if ps.len() == 0 {
        Seq::empty()
    } else {
        ps[0].blob.remaining() + unsent_bytes(ps.drop_first())
    }
}

/// Appending a packet appends its unsent bytes.
pub proof fn lemma_unsent_bytes_push<O>(ps: Seq<Packet<O>>, p: Packet<O>)
    ensures
        unsent_bytes(ps.push(p)) == unsent_bytes(ps) + p.blob.remaining(),
    decreases ps.len(),
{
    if ps.len() == 0 {
        assert(ps.push(p).drop_first() =~= Seq::<Packet<O>>::empty());
        assert(unsent_bytes(ps.push(p).drop_first()) =~= Seq::<u8>::empty());
        assert(unsent_bytes(ps.push(p)) =~= p.blob.remaining());
    } else {
        lemma_unsent_bytes_push(ps.drop_first(), p);
        assert(ps.push(p).drop_first() =~= ps.drop_first().push(p));
        assert(unsent_bytes(ps.push(p)) =~= unsent_bytes(ps) + p.blob.remaining());
    }
}

/// Application-side state of one socket.
pub struct SmolSocket<O> {
    socket_type: SocketType,
    socket_handle: SocketHandle,
    to_send: VecDeque<Packet<O>>,
    current_to_send: Option<Packet<O>>,
    received: VecDeque<Vec<u8>>,
    endpoint: Option<Address>,
}

impl<O> SmolSocket<O> {
    /// The kind of the socket.
    pub closed spec fn kind(&self) -> SocketType {
        self.socket_type
    }

    /// The engine's handle of the socket.
    pub closed spec fn handle(&self) -> SocketHandle {
        self.socket_handle
    }

    /// The packets not yet fully sent, the partially sent one first.
    pub closed spec fn pending(&self) -> Seq<Packet<O>> {
        match self.current_to_send {
            Some(p) => seq![p] + self.to_send@,
            None => self.to_send@,
        }
    }

    /// Whether a partially sent packet is held aside.
    pub closed spec fn has_inflight(&self) -> bool {
        self.current_to_send is Some
    }

    /// The received chunks not yet handed to the application, oldest first.
    pub closed spec fn inbound(&self) -> Seq<Seq<u8>> {
        self.received@.map_values(|v: Vec<u8>| v@)
    }

    /// The address the socket was connected to, if any.
    pub closed spec fn connected(&self) -> Option<Address> {
        self.endpoint
    }

    /// The bytes still to be sent, in the order they will go out.
    pub open spec fn pending_bytes(&self) -> Seq<u8> {
        unsent_bytes(self.pending())
    }

    /// A fresh socket with empty queues.
    pub fn new(socket_handle: SocketHandle, socket_type: SocketType) -> (r: SmolSocket<O>)
        ensures
            r.handle() == socket_handle,
            r.kind() == socket_type,
            r.pending() == Seq::<Packet<O>>::empty(),
            r.inbound() == Seq::<Seq<u8>>::empty(),
            r.connected() is None,
            !r.has_inflight(),
    {
        let r = SmolSocket {
            socket_type,
            socket_handle,
            to_send: VecDeque::new(),
            current_to_send: None,
            received: VecDeque::new(),
            endpoint: None,
        };
        assert(r.inbound() =~= Seq::<Seq<u8>>::empty());
        r
    }

    /// Queues a packet behind every packet not yet sent. A connectionless socket refuses a
    /// packet without destination, which is then dropped.
    pub fn send(&mut self, packet: Packet<O>) -> (r: Result<(), StackError>)
        ensures
            final(self).kind() == old(self).kind(),
            final(self).handle() == old(self).handle(),
            final(self).inbound() == old(self).inbound(),
            final(self).connected() == old(self).connected(),
            final(self).has_inflight() == old(self).has_inflight(),
            needs_endpoint(old(self).kind()) && packet.endpoint is None ==> r == Err::<
                (),
                StackError,
            >(StackError::MissingEndpoint) && final(self).pending() == old(self).pending(),
            r is Err ==> *final(self) == *old(self),
            !(needs_endpoint(old(self).kind()) && packet.endpoint is None) ==> r is Ok
                && final(self).pending() == old(self).pending().push(packet),
    {
        if packet.endpoint.is_none() && self.socket_type != SocketType::TCP {
            return Err(StackError::MissingEndpoint);
        }
        self.to_send.push_back(packet);
        proof {
            if self.current_to_send is Some {
                assert(self.pending() =~= old(self).pending().push(packet));
            }
        }
        Ok(())
    }

    /// Takes the next packet to send: the partially sent one if there is one, else the
    /// oldest queued one.
    pub fn get_latest_packet(&mut self) -> (r: Option<Packet<O>>)
        ensures
            final(self).kind() == old(self).kind(),
            final(self).handle() == old(self).handle(),
            final(self).inbound() == old(self).inbound(),
            final(self).connected() == old(self).connected(),
            !final(self).has_inflight(),
            old(self).pending().len() == 0 ==> r is None && final(self).pending()
                == old(self).pending(),
            old(self).pending().len() > 0 ==> r == Some(old(self).pending()[0])
                && final(self).pending() == old(self).pending().drop_first(),
    {
        match self.current_to_send.take() {
            Some(packet) => {
                assert(old(self).pending().drop_first() =~= self.pending());
                Some(packet)
            },
            None => {
                let r = self.to_send.pop_front();
                proof {
                    if old(self).pending().len() > 0 {
                        assert(old(self).pending().drop_first() =~= self.pending());
                    }
                }
                r
            },
        }
    }

    /// Takes back a packet after the engine accepted `sent` of its unsent bytes: a packet
    /// with bytes left is held aside and comes out first next time; a packet sent in full
    /// is dropped, which releases its owner. Returns whether it was sent in full.
    pub fn put_back(&mut self, packet: Packet<O>, sent: usize) -> (r: bool)
        requires
            !old(self).has_inflight(),
            sent <= packet.blob.remaining().len(),
        ensures
            final(self).kind() == old(self).kind(),
            final(self).handle() == old(self).handle(),
            final(self).inbound() == old(self).inbound(),
            final(self).connected() == old(self).connected(),
            r == (sent == packet.blob.remaining().len()),
            r ==> final(self).pending() == old(self).pending() && !final(self).has_inflight(),
            !r ==> final(self).has_inflight() && final(self).pending().len() == old(
                self,
            ).pending().len() + 1 && final(self).pending().drop_first() == old(self).pending()
                && final(self).pending()[0].blob.owner() == packet.blob.owner()
                && final(self).pending()[0].endpoint == packet.endpoint
                && final(self).pending()[0].blob.remaining() == packet.blob.remaining().subrange(
                sent as int,
                packet.blob.remaining().len() as int,
            ),
            final(self).pending_bytes() == packet.blob.remaining().subrange(
                sent as int,
                packet.blob.remaining().len() as int,
            ) + old(self).pending_bytes(),
    {
        let mut packet = packet;
        let len = packet.blob.unsent_len();
        if sent == len {
            proof {
                assert(packet.blob.remaining().subrange(sent as int, len as int) =~= Seq::<
                    u8,
                >::empty());
                assert(self.pending_bytes() =~= packet.blob.remaining().subrange(
                    sent as int,
                    len as int,
                ) + old(self).pending_bytes());
            }
            true
        } else {
            packet.blob.advance(sent);
            self.current_to_send = Some(packet);
            proof {
                assert(self.pending().drop_first() =~= old(self).pending());
            }
            false
        }
    }

    /// Appends a chunk that the engine delivered.
    pub fn push_received(&mut self, data: Vec<u8>)
        ensures
            final(self).kind() == old(self).kind(),
            final(self).handle() == old(self).handle(),
            final(self).pending() == old(self).pending(),
            final(self).has_inflight() == old(self).has_inflight(),
            final(self).connected() == old(self).connected(),
            final(self).inbound() == old(self).inbound().push(data@),
    {
        self.received.push_back(data);
        assert(self.inbound() =~= old(self).inbound().push(data@));
    }

    /// Takes the oldest received chunk, if any.
    pub fn receive(&mut self) -> (r: Option<Vec<u8>>)
        ensures
            final(self).kind() == old(self).kind(),
            final(self).handle() == old(self).handle(),
            final(self).pending() == old(self).pending(),
            final(self).has_inflight() == old(self).has_inflight(),
            final(self).connected() == old(self).connected(),
            old(self).inbound().len() == 0 ==> r is None && *final(self) == *old(self),
            old(self).inbound().len() > 0 ==> r is Some && r->0@ == old(self).inbound()[0]
                && final(self).inbound() == old(self).inbound().drop_first(),
    {
        if self.received.len() == 0 {
            return None;
        }
        let r = self.received.pop_front();
        proof {
            if old(self).inbound().len() > 0 {
                assert(self.inbound() =~= old(self).inbound().drop_first());
            }
        }
        r
    }

    /// Records the address the socket was connected to.
    pub fn set_connected(&mut self, addr: Address)
        ensures
            final(self).kind() == old(self).kind(),
            final(self).handle() == old(self).handle(),
            final(self).pending() == old(self).pending(),
            final(self).has_inflight() == old(self).has_inflight(),
            final(self).inbound() == old(self).inbound(),
            final(self).connected() == Some(addr),
    {
        self.endpoint = Some(addr);
    }

    /// The kind of the socket.
    pub fn socket_type(&self) -> (r: SocketType)
        ensures
            r == self.kind(),
    {
        self.socket_type
    }

    /// The engine's handle of the socket.
    pub fn socket_handle(&self) -> (r: SocketHandle)
        ensures
            r == self.handle(),
    {
        self.socket_handle
    }

    /// The address the socket was connected to, if any.
    pub fn connected_address(&self) -> (r: Option<Address>)
        ensures
            r == self.connected(),
    {
        self.endpoint
    }

    /// Number of received chunks waiting.
    pub fn inbound_len(&self) -> (r: usize)
        ensures
            r == self.inbound().len(),
    {
        self.received.len()
    }
}

} // verus!
