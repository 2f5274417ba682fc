//! The in-memory frame queues of the virtual device: frames the host hands in for the
//! engine, and frames the engine produced for the host.
use std::collections::VecDeque;
use vstd::prelude::*;

verus! {

/// The device a stack is created with: in-memory frame queues, or a kernel TUN or TAP
/// interface.
#[derive(Clone, Copy, PartialEq, Eq, Structural, Debug)]
pub enum SmolSocketType {
    VirtualTun,
    Tun,
    Tap,
}

/// Copies the first `min(dst.len(), src.len())` bytes of `src` into `dst` and returns how
/// many it copied; the rest of `dst` is left as it was.
pub fn copy_slice(dst: &mut [u8], src: &[u8]) -> (r: usize)
    ensures
        r == if old(dst)@.len() < src@.len() { old(dst)@.len() } else { src@.len() },
        final(dst)@.len() == old(dst)@.len(),
        final(dst)@.subrange(0, r as int) == src@.subrange(0, r as int),
        final(dst)@.subrange(r as int, old(dst)@.len() as int) == old(dst)@.subrange(
            r as int,
            old(dst)@.len() as int,
        ),
{
    let n: usize = if dst.len() < src.len() { dst.len() } else { src.len() };
    let mut c: usize = 0;
    while c < n
        invariant
            n == if old(dst)@.len() < src@.len() { old(dst)@.len() } else { src@.len() },
            c <= n,
            dst@.len() == old(dst)@.len(),
            forall|j: int| 0 <= j < c ==> dst@[j] == src@[j],
            forall|j: int| c <= j < dst@.len() ==> dst@[j] == old(dst)@[j],
        decreases n - c,
    {
        dst[c] = src[c];
        c = c + 1;
    }
    assert(dst@.subrange(0, c as int) =~= src@.subrange(0, c as int));
    assert(dst@.subrange(c as int, old(dst)@.len() as int) =~= old(dst)@.subrange(
        c as int,
        old(dst)@.len() as int,
    ));
    c
}

/// The two frame queues of a virtual device.
pub struct FrameQueues {
    to_engine: VecDeque<Vec<u8>>,
    from_engine: VecDeque<Vec<u8>>,
}

impl FrameQueues {
    /// Frames handed in by the host, oldest first, not yet read by the engine.
    pub closed spec fn inbound(&self) -> Seq<Seq<u8>> {
        self.to_engine@.map_values(|f: Vec<u8>| f@)
    }

    /// Frames the engine transmitted, oldest first, not yet taken by the host.
    pub closed spec fn outbound(&self) -> Seq<Seq<u8>> {
        self.from_engine@.map_values(|f: Vec<u8>| f@)
    }

    /// Two empty queues.
    pub fn new() -> (r: FrameQueues)
        ensures
            r.inbound() == Seq::<Seq<u8>>::empty(),
            r.outbound() == Seq::<Seq<u8>>::empty(),
    {
        let r = FrameQueues { to_engine: VecDeque::new(), from_engine: VecDeque::new() };
        assert(r.inbound() =~= Seq::<Seq<u8>>::empty());
        assert(r.outbound() =~= Seq::<Seq<u8>>::empty());
        r
    }

    /// The host hands a frame to the engine.
    pub fn send(&mut self, frame: Vec<u8>)
        ensures
            final(self).inbound() == old(self).inbound().push(frame@),
            final(self).outbound() == old(self).outbound(),
    {
        self.to_engine.push_back(frame);
        assert(self.inbound() =~= old(self).inbound().push(frame@));
    }

    /// The device takes the oldest frame the host handed in, if any.
    pub fn take_inbound(&mut self) -> (r: Option<Vec<u8>>)
        ensures
            final(self).outbound() == old(self).outbound(),
            old(self).inbound().len() == 0 ==> r is None && final(self).inbound() == old(
                self,
            ).inbound(),
            old(self).inbound().len() > 0 ==> r is Some && r->0@ == old(self).inbound()[0]
                && final(self).inbound() == old(self).inbound().drop_first(),
    {
        let r = self.to_engine.pop_front();
        proof {
            if old(self).inbound().len() > 0 {
                assert(self.inbound() =~= old(self).inbound().drop_first());
            }
        }
        r
    }

    /// The device queues a frame the engine transmitted.
    pub fn transmit(&mut self, frame: Vec<u8>)
        ensures
            final(self).outbound() == old(self).outbound().push(frame@),
            final(self).inbound() == old(self).inbound(),
    {
        self.from_engine.push_back(frame);
        assert(self.outbound() =~= old(self).outbound().push(frame@));
    }

    /// The host takes the oldest frame the engine transmitted, if any.
    pub fn receive_instantly(&mut self) -> (r: Option<Vec<u8>>)
        ensures
            final(self).inbound() == old(self).inbound(),
            old(self).outbound().len() == 0 ==> r is None && final(self).outbound() == old(
                self,
            ).outbound(),
            old(self).outbound().len() > 0 ==> r is Some && r->0@ == old(self).outbound()[0]
                && final(self).outbound() == old(self).outbound().drop_first(),
    {
        let r = self.from_engine.pop_front();
        proof {
            if old(self).outbound().len() > 0 {
                assert(self.outbound() =~= old(self).outbound().drop_first());
            }
        }
        r
    }

    /// Number of frames waiting for the host.
    pub fn outbound_len(&self) -> (r: usize)
        ensures
            r == self.outbound().len(),
    {
        self.from_engine.len()
    }
}

} // verus!
