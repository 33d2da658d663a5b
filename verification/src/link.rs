//! The link endpoint: attach lifecycle, credit, and the multi-frame
//! transfer of one delivery.

use vstd::prelude::*;
use vstd::slice::{slice_subrange, slice_to_vec};
use crate::definitions::{self, AmqpError, ErrorCondition};
use crate::link_error::Error;

verus! {

broadcast use vstd::seq::group_seq_axioms;

/// The lifecycle states of a link endpoint.
#[derive(Clone, Copy, PartialEq, Eq, Structural, Debug)]
pub enum LinkState {
    /// No attach has been exchanged.
    Detached,
    /// The local attach is sent, the remote one is pending.
    AttachSent,
    /// The remote attach arrived first.
    AttachReceived,
    /// Both attaches were exchanged.
    Attached,
    /// The local detach is sent, the remote one is pending.
    DetachSent,
    /// The remote detach arrived first.
    DetachReceived,
}

/// The flow state of a link: the counters that govern how many transfers
/// the sender may emit.
#[derive(Clone, Copy, PartialEq, Eq, Structural, Debug)]
pub struct LinkFlowState {
    /// The delivery count the sender announced at attach.
    pub initial_delivery_count: u32,
    /// The count of deliveries the sender has started since creation.
    pub delivery_count: u32,
    /// How many more transfers the sender may emit.
    pub link_credit: u32,
    /// How many messages the sender could send if it had credit.
    pub available: u32,
    /// Whether the receiver asked the sender to use up all credit at once.
    pub drain: bool,
}

impl LinkFlowState {
    /// Well-formedness: the delivery count never falls below the initial
    /// one, so the transfers emitted since attach are their difference.
    pub open spec fn wf(self) -> bool {
        self.delivery_count >= self.initial_delivery_count
    }

    /// How many transfers the sender has emitted since attach.
    pub open spec fn transfers_emitted(self) -> int {
        self.delivery_count - self.initial_delivery_count
    }

    /// The flow state of a fresh sender: no credit, no deliveries beyond
    /// the announced initial count.
    pub fn new_sender(initial_delivery_count: u32) -> (r: Self)
        ensures
            r.wf(),
            r.initial_delivery_count == initial_delivery_count,
            r.delivery_count == initial_delivery_count,
            r.link_credit == 0,
            r.available == 0,
            r.drain == false,
    {
        LinkFlowState {
            initial_delivery_count,
            delivery_count: initial_delivery_count,
            link_credit: 0,
            available: 0,
            drain: false,
        }
    }

    /// Consumes one credit to emit one transfer. No transfer may be
    /// emitted while credit is zero; the delivery count rises by one and
    /// the credit falls by one.
    pub fn consume_credit(&mut self) -> (r: Result<(), Error>)
        requires
            old(self).wf(),
        ensures
            final(self).wf(),
            r is Ok <==> old(self).link_credit > 0 && old(self).delivery_count < 0xffffffff,
            r is Ok ==> *final(self) == (LinkFlowState {
                delivery_count: (old(self).delivery_count + 1) as u32,
                link_credit: (old(self).link_credit - 1) as u32,
                ..*old(self)
            }),
            r is Err ==> *final(self) == *old(self),
            r is Ok ==> final(self).transfers_emitted() == old(self).transfers_emitted() + 1,
    {
        if self.link_credit == 0 {
            return Err(Error::NotAttached);
        }
        if self.delivery_count == 0xffffffff {
            return Err(Error::NotAttached);
        }
        self.delivery_count = self.delivery_count + 1;
        self.link_credit = self.link_credit - 1;
        Ok(())
    }

    /// Applies an incoming flow from the receiver: the new credit is the
    /// receiver's announced delivery-count plus its granted credit, less
    /// this sender's own delivery count, floored at zero.
    pub fn apply_flow(&mut self, flow_delivery_count: u32, flow_link_credit: u32,
        drain: bool)
        requires
            old(self).wf(),
        ensures
            final(self).wf(),
            final(self).link_credit as int == if flow_delivery_count + flow_link_credit
                >= old(self).delivery_count {
                let c = flow_delivery_count + flow_link_credit - old(self).delivery_count;
                if c > 0xffffffff {
                    0xffffffff as int
                } else {
                    c
                }
            } else {
                0
            },
            final(self).drain == drain,
            final(self).delivery_count == old(self).delivery_count,
            final(self).initial_delivery_count == old(self).initial_delivery_count,
            final(self).available == old(self).available,
    {
        let sum = flow_delivery_count as u64 + flow_link_credit as u64;
        let dc = self.delivery_count as u64;
        if sum >= dc {
            let c = sum - dc;
            if c > 0xffffffff {
                self.link_credit = 0xffffffff;
            } else {
                self.link_credit = c as u32;
            }
        } else {
            self.link_credit = 0;
        }
        self.drain = drain;
    }

    /// Answers a drain request: the delivery count advances to use up all
    /// remaining credit, which falls to zero, and a flow echo is owed.
    pub fn apply_drain(&mut self) -> (r: Result<(), Error>)
        requires
            old(self).wf(),
        ensures
            final(self).wf(),
            r is Ok <==> old(self).delivery_count + old(self).link_credit <= 0xffffffff,
            r is Ok ==> final(self).delivery_count == old(self).delivery_count + old(
                self,
            ).link_credit && final(self).link_credit == 0 && final(self).drain == false
                && final(self).initial_delivery_count == old(self).initial_delivery_count,
            r is Err ==> *final(self) == *old(self),
    {
        let sum = self.delivery_count as u64 + self.link_credit as u64;
        if sum > 0xffffffff {
            return Err(Error::NotAttached);
        }
        self.delivery_count = sum as u32;
        self.link_credit = 0;
        self.drain = false;
        Ok(())
    }
}

/// The sender may never have emitted more transfers since attach than its
/// delivery count and remaining credit cover.
pub proof fn lemma_credit_bounds_transfers(ls: LinkFlowState)
    requires
        ls.wf(),
    ensures
        ls.delivery_count + ls.link_credit >= ls.transfers_emitted(),
{
}

/// The concatenation of a run of byte chunks.
pub open spec fn concat_chunks(chunks: Seq<Seq<u8>>) -> Seq<u8>
    decreases chunks.len(),
{
    if chunks.len() == 0 {
        Seq::empty()
    } else {
        chunks[0] + concat_chunks(chunks.drop_first())
    }
}

/// Splits a delivery's payload into chunks of at most the given size, for
/// one transfer frame each. The chunks reassemble to exactly the original
/// payload, so the payload bytes across the constituent transfers sum to
/// the message's byte length; every chunk but possibly the last is full.
pub fn split_payload(payload: &Vec<u8>, max_chunk: usize) -> (r: Vec<Vec<u8>>)
    requires
        max_chunk >= 1,
    ensures
        concat_chunks(r@.map_values(|c: Vec<u8>| c@)) == payload@,
        forall|i: int| 0 <= i < r@.len() ==> (#[trigger] r@[i])@.len() <= max_chunk,
        forall|i: int| 0 <= i < r@.len() - 1 ==> (#[trigger] r@[i])@.len() == max_chunk,
{
    let mut chunks: Vec<Vec<u8>> = Vec::new();
    let mut pos: usize = 0;
    while pos < payload.len()
        invariant
            0 <= pos <= payload@.len(),
            max_chunk >= 1,
            concat_chunks(chunks@.map_values(|c: Vec<u8>| c@)) == payload@.take(pos as int),
            forall|i: int| 0 <= i < chunks@.len() ==> (#[trigger] chunks@[i])@.len()
                <= max_chunk,
            forall|i: int| 0 <= i < chunks@.len() - 1 ==> (#[trigger] chunks@[i])@.len()
                == max_chunk,
            chunks@.len() > 0 && pos < payload@.len() ==> chunks@[chunks@.len() - 1]@.len()
                == max_chunk,
        decreases payload@.len() - pos,
    {
        let end = if payload.len() - pos < max_chunk {
            payload.len()
        } else {
            pos + max_chunk
        };
        let chunk = slice_to_vec(slice_subrange(payload.as_slice(), pos, end));
        let ghost before = chunks@.map_values(|c: Vec<u8>| c@);
        chunks.push(chunk);
        proof {
            let after = chunks@.map_values(|c: Vec<u8>| c@);
            assert(after =~= before.push(payload@.subrange(pos as int, end as int)));
            lemma_concat_snoc(before, payload@.subrange(pos as int, end as int));
            assert(concat_chunks(after) =~= payload@.take(end as int));
        }
        pos = end;
    }
    proof {
        assert(payload@.take(payload@.len() as int) =~= payload@);
    }
    chunks
}

/// Appending a chunk to a run appends its bytes to the concatenation.
proof fn lemma_concat_snoc(chunks: Seq<Seq<u8>>, last: Seq<u8>)
    ensures
        concat_chunks(chunks.push(last)) == concat_chunks(chunks) + last,
    decreases chunks.len(),
{
    if chunks.len() == 0 {
        assert(chunks.push(last).drop_first() =~= chunks);
        assert(chunks.push(last)[0] == last);
        assert(concat_chunks(chunks) == Seq::<u8>::empty());
        assert(concat_chunks(chunks.push(last)) =~= last);
        assert(concat_chunks(chunks) + last =~= last);
    } else {
        lemma_concat_snoc(chunks.drop_first(), last);
        assert(chunks.push(last).drop_first() =~= chunks.drop_first().push(last));
        assert(chunks.push(last)[0] == chunks[0]);
        assert(concat_chunks(chunks.push(last)) =~= concat_chunks(chunks) + last);
    }
}

/// One transfer frame of a delivery as the reassembler sees it: the tag
/// that names the delivery and the payload bytes of this frame.
#[derive(PartialEq, Eq, Debug)]
pub struct TransferFrame {
    /// The delivery tag, which every constituent frame must repeat.
    pub delivery_tag: Vec<u8>,
    /// The payload bytes carried by this frame.
    pub payload: Vec<u8>,
}

/// Reassembles the payload of one delivery from its constituent transfer
/// frames. Every frame must repeat the first frame's delivery tag; a
/// mismatch is fatal for the link with an illegal-state error. On success
/// the payload is exactly the concatenation of the frames' payloads, so no
/// byte is lost or invented.
pub fn reassemble_payload(frames: &Vec<TransferFrame>) -> (r: Result<
    Vec<u8>,
    definitions::Error,
>)
    requires
        frames@.len() >= 1,
    ensures
        r is Ok <==> (forall|i: int| 0 <= i < frames@.len()
            ==> (#[trigger] frames@[i]).delivery_tag@ == frames@[0].delivery_tag@),
        r matches Ok(b) ==> b@ == concat_chunks(
            frames@.map_values(|f: TransferFrame| f.payload@),
        ),
        r matches Err(e) ==> e.condition == ErrorCondition::Amqp(AmqpError::IllegalState),
{
    let tag = &frames[0].delivery_tag;
    proof {
        assert(tag@ == frames@[0].delivery_tag@);
    }
    let mut out: Vec<u8> = Vec::new();
    let mut i: usize = 0;
    while i < frames.len()
        invariant
            0 <= i <= frames@.len(),
            frames@.len() >= 1,
            tag@ == frames@[0].delivery_tag@,
            out@ == concat_chunks(
                frames@.map_values(|f: TransferFrame| f.payload@).take(i as int),
            ),
            forall|j: int| 0 <= j < i ==> (#[trigger] frames@[j]).delivery_tag@
                == frames@[0].delivery_tag@,
        decreases frames@.len() - i,
    {
        if !vec_u8_eq(&frames[i].delivery_tag, tag) {
            proof {
                assert(frames@[i as int].delivery_tag@ != frames@[0].delivery_tag@);
            }
            return Err(definitions::Error::new(
                ErrorCondition::Amqp(AmqpError::IllegalState),
                None,
                None,
            ));
        }
        let ghost before = frames@.map_values(|f: TransferFrame| f.payload@).take(i as int);
        let mut chunk = slice_to_vec(frames[i].payload.as_slice());
        out.append(&mut chunk);
        proof {
            let all = frames@.map_values(|f: TransferFrame| f.payload@);
            assert(all[i as int] == frames@[i as int].payload@);
            assert(all.take(i as int + 1) =~= before.push(frames@[i as int].payload@));
            lemma_concat_snoc(before, frames@[i as int].payload@);
            assert(concat_chunks(all.take(i as int + 1)) == concat_chunks(before)
                + frames@[i as int].payload@);
            assert(out@ == concat_chunks(all.take(i as int + 1)));
        }
        i = i + 1;
    }
    proof {
        let all = frames@.map_values(|f: TransferFrame| f.payload@);
        assert(all.take(frames@.len() as int) =~= all);
    }
    Ok(out)
}

/// Compares two byte vectors for equality.
fn vec_u8_eq(a: &Vec<u8>, b: &Vec<u8>) -> (r: bool)
    ensures
        r <==> a@ == b@,
{
    if a.len() != b.len() {
        return false;
    }
    let mut i: usize = 0;
    while i < a.len()
        invariant
            0 <= i <= a@.len(),
            a@.len() == b@.len(),
            forall|j: int| 0 <= j < i ==> a@[j] == b@[j],
        decreases a@.len() - i,
    {
        if a[i] != b[i] {
            return false;
        }
        i = i + 1;
    }
    proof {
        assert(a@ =~= b@);
    }
    true
}

/// The total payload bytes delivered across a delivery's constituent
/// frames equal the reassembled message's byte length.
pub proof fn lemma_payload_conservation(chunks: Seq<Seq<u8>>)
    ensures
        concat_chunks(chunks).len() == sum_lens(chunks),
    decreases chunks.len(),
{
    if chunks.len() > 0 {
        lemma_payload_conservation(chunks.drop_first());
    }
}

/// The total length of a run of byte chunks.
pub open spec fn sum_lens(chunks: Seq<Seq<u8>>) -> int
    decreases chunks.len(),
{
    if chunks.len() == 0 {
        0
    } else {
        chunks[0].len() + sum_lens(chunks.drop_first())
    }
}

} // verus!
