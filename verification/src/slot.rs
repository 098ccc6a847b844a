//! One frame slot of the pool: a fixed buffer, a lifecycle state, and the
//! bookkeeping that correlates the slot with its frame on the wire.

use vstd::prelude::*;
use crate::codec::{FRAME_DATA_OFFSET, MAX_PDU_AREA, MIN_WIRE_LEN, PDU_HEADER_LEN, WKC_LEN};

verus! {

/// Lifecycle position of one slot. The state is the sole arbiter of which
/// role may touch the slot's buffer; every transition checks the current
/// state first, mirroring a compare-and-swap.
#[derive(Clone, Copy, Debug, PartialEq, Eq, Structural)]
pub enum FrameState {
    /// Unused; any submitter may claim it.
    Free,
    /// Claimed by one submitter, which is writing PDUs into the buffer.
    Created,
    /// Published to the TX driver; the buffer is frozen.
    Sendable,
    /// The TX driver holds exclusive read access for one send callback.
    Sending,
    /// On the wire; the RX driver may match an incoming frame to it.
    Sent,
    /// The RX driver holds exclusive write access to the response region.
    RxBusy,
    /// The response is finalized; the submitter may read it.
    Received,
}

/// The three roles that share the pool.
#[derive(Clone, Copy, Debug, PartialEq, Eq, Structural)]
pub enum Role {
    /// A task that submits frames and awaits their responses.
    Submitter,
    /// The singleton TX driver.
    Tx,
    /// The singleton RX driver.
    Rx,
}

/// Whether `role` may read or write a slot's buffer while the slot is in
/// `state`. In `Free`, `Sendable` and `Sent` the buffer is untouched: the
/// slot is parked between owners.
pub open spec fn may_access_buffer(role: Role, state: FrameState) -> bool {
    match state {
        FrameState::Free => false,
        FrameState::Created => role == Role::Submitter,
        FrameState::Sendable => false,
        FrameState::Sending => role == Role::Tx,
        FrameState::Sent => false,
        FrameState::RxBusy => role == Role::Rx,
        FrameState::Received => role == Role::Submitter,
    }
}

/// No slot state grants buffer access to two distinct roles: whatever
/// schedule drives the state machine, a slot is never read or written by
/// two roles at once.
pub proof fn lemma_exclusive_buffer_access(r1: Role, r2: Role, state: FrameState)
    ensures
        may_access_buffer(r1, state) && may_access_buffer(r2, state) ==> r1 == r2,
{
}

/// Position and data length of one PDU staged in a slot's buffer.
#[derive(Clone, Copy, Debug, PartialEq, Eq, Structural)]
pub struct PduMeta {
    /// Offset of the PDU's header within the slot buffer.
    pub offset: usize,
    /// Length of the PDU's data region.
    pub data_len: usize,
}

/// One slot of the pool.
#[derive(Debug)]
pub struct FrameSlot {
    /// Lifecycle position; see [`FrameState`].
    pub state: FrameState,
    /// The frame buffer: Ethernet header, EtherCAT frame header, PDUs.
    pub buffer: Vec<u8>,
    /// Total bytes of PDUs staged in the buffer (headers, data, trailers).
    pub pdu_payload_len: usize,
    /// The identifying index stamped into the first PDU; reserved when the
    /// slot is claimed. Its residue modulo the pool size is this slot's
    /// position, which is how the RX driver finds the slot again.
    pub first_pdu_index: u8,
    /// Offset and data length of each staged PDU, in insertion order.
    pub pdu_meta: Vec<PduMeta>,
}

impl FrameSlot {
    /// Well-formedness of one slot within a pool of `n` slots of `m` bytes,
    /// standing at position `pos`.
    pub open spec fn wf(self, m: int, n: int, pos: int) -> bool {
        &&& self.buffer.len() == m
        &&& FRAME_DATA_OFFSET + self.pdu_payload_len <= m
        &&& self.pdu_payload_len <= MAX_PDU_AREA
        &&& self.state != FrameState::Free ==> self.first_pdu_index as int % n == pos
        &&& forall|k: int|
            0 <= k < self.pdu_meta.len() ==> {
                &&& (#[trigger] self.pdu_meta[k]).offset >= FRAME_DATA_OFFSET
                &&& self.pdu_meta[k].offset + PDU_HEADER_LEN + self.pdu_meta[k].data_len
                    + WKC_LEN <= FRAME_DATA_OFFSET + self.pdu_payload_len
            }
        &&& self.pdu_meta.len() == 0 ==> self.pdu_payload_len == 0
        &&& self.state == FrameState::Created && self.pdu_meta.len() > 0 ==> {
            let last = self.pdu_meta[self.pdu_meta.len() - 1];
            self.buffer[last.offset + 7] < 0x80
        }
        &&& forall|i: int|
            FRAME_DATA_OFFSET + self.pdu_payload_len <= i < m ==> #[trigger] self.buffer[i] == 0
    }

    /// Number of PDUs staged in this slot.
    pub open spec fn pdu_count(self) -> int {
        self.pdu_meta.len() as int
    }

    /// Length of this slot's frame on the wire: headers plus PDUs, padded
    /// up to the minimum Ethernet frame.
    pub open spec fn wire_len(self) -> int {
        if FRAME_DATA_OFFSET + self.pdu_payload_len >= MIN_WIRE_LEN {
            FRAME_DATA_OFFSET + self.pdu_payload_len
        } else {
            MIN_WIRE_LEN as int
        }
    }

    /// The bytes of this slot's frame as they go on the wire.
    pub open spec fn wire_bytes(self) -> Seq<u8> {
        self.buffer@.take(self.wire_len())
    }
}

} // verus!
