//! The RX half: consumes raw Ethernet frames one at a time, matches each
//! to the `Sent` slot it answers, and publishes the response.
//!
//! A frame that fails the header checks, or that matches no `Sent` slot,
//! is dropped silently and only counted: a late reply for a timed-out and
//! released slot must not disturb whoever holds the slot now.

use vstd::prelude::*;
use crate::codec;
use crate::slot::{FrameState};
use crate::storage::{PduRx, PduStorage};

verus! {

/// Shortest frame the RX half accepts: headers plus one PDU with its
/// working counter.
pub const MIN_RX_LEN: usize = 28;

/// The EtherCAT frame header word of a wire frame.
pub open spec fn wire_header_word(b: Seq<u8>) -> u16
    recommends
        b.len() >= codec::FRAME_DATA_OFFSET,
{
    codec::u16_from_le(b[14], b[15])
}

/// The protocol type carried in the top four bits of the frame header.
pub open spec fn wire_protocol_type(b: Seq<u8>) -> int
    recommends
        b.len() >= codec::FRAME_DATA_OFFSET,
{
    wire_header_word(b) as int / 4096
}

/// The 11-bit length of the PDU area of a wire frame.
pub open spec fn wire_pdu_len(b: Seq<u8>) -> int
    recommends
        b.len() >= codec::FRAME_DATA_OFFSET,
{
    codec::flags_data_len(wire_header_word(b)) as int
}

/// The identifying index of the first PDU of a wire frame.
pub open spec fn wire_first_index(b: Seq<u8>) -> u8
    recommends
        b.len() >= codec::FRAME_DATA_OFFSET + 2,
{
    b[17]
}

/// Whether `b` passes the RX half's header checks: long enough for the
/// headers and one PDU, the EtherCAT EtherType, the DLPDU protocol type,
/// and a PDU-area length that lies within the delivered bytes.
pub open spec fn wire_well_formed(b: Seq<u8>) -> bool {
    &&& b.len() >= MIN_RX_LEN
    &&& b[12] == 0x88
    &&& b[13] == 0xa4
    &&& wire_protocol_type(b) == codec::DLPDU_TYPE
    &&& wire_pdu_len(b) >= codec::PDU_HEADER_LEN + codec::WKC_LEN
    &&& codec::FRAME_DATA_OFFSET + wire_pdu_len(b) <= b.len()
}

/// Whether a well-formed wire frame answers a slot of the pool: the slot
/// found at the index's residue is `Sent`, carries that very identifying
/// index, and staged as many PDU bytes as the frame brings back.
pub open spec fn wire_matches_slot(sto: PduStorage, b: Seq<u8>) -> bool
    recommends
        sto.wf(),
        wire_well_formed(b),
{
    let slot = wire_first_index(b) as int % sto.n();
    let sl = sto.slots[slot];
    &&& sl.state == FrameState::Sent
    &&& sl.first_pdu_index == wire_first_index(b)
    &&& sl.pdu_payload_len as int == wire_pdu_len(b)
}

impl PduRx {
    /// Consumes one raw Ethernet frame. A frame that fails the header
    /// checks only bumps the malformed-frame counter; a well-formed frame
    /// that matches no `Sent` slot only bumps the stale-frame counter. A
    /// matching frame has its PDU area copied over the slot's own — the
    /// response overwrites the request in place — and the slot moves to
    /// `Received`, where the submitter finds it. Both counters saturate.
    pub fn receive_frame(&self, sto: &mut PduStorage, bytes: &[u8])
        requires
            old(sto).wf(),
        ensures
            final(sto).wf(),
            final(sto).n() == old(sto).n(),
            final(sto).m() == old(sto).m(),
            final(sto).split == old(sto).split,
            final(sto).idx_counter == old(sto).idx_counter,
            final(sto).tx_cursor == old(sto).tx_cursor,
            final(sto).tx_signal == old(sto).tx_signal,
            !wire_well_formed(bytes@) ==> {
                &&& final(sto).slots@ == old(sto).slots@
                &&& final(sto).stale_frames == old(sto).stale_frames
                &&& final(sto).malformed_frames as int == saturating_inc(
                    old(sto).malformed_frames as int,
                )
            },
            wire_well_formed(bytes@) && !wire_matches_slot(*old(sto), bytes@) ==> {
                &&& final(sto).slots@ == old(sto).slots@
                &&& final(sto).malformed_frames == old(sto).malformed_frames
                &&& final(sto).stale_frames as int == saturating_inc(
                    old(sto).stale_frames as int,
                )
            },
            wire_well_formed(bytes@) && wire_matches_slot(*old(sto), bytes@) ==> {
                let slot = wire_first_index(bytes@) as int % old(sto).n();
                let os = old(sto).slots[slot];
                let ns = final(sto).slots[slot];
                &&& ns.state == FrameState::Received
                &&& ns.buffer@ == codec::splice(
                    os.buffer@,
                    codec::FRAME_DATA_OFFSET as int,
                    bytes@.subrange(
                        codec::FRAME_DATA_OFFSET as int,
                        codec::FRAME_DATA_OFFSET + wire_pdu_len(bytes@),
                    ),
                )
                &&& ns.pdu_payload_len == os.pdu_payload_len
                &&& ns.first_pdu_index == os.first_pdu_index
                &&& ns.pdu_meta == os.pdu_meta
                &&& forall|j: int|
                    0 <= j < old(sto).n() && j != slot ==> final(sto).slots[j] == old(
                        sto,
                    ).slots[j]
                &&& final(sto).stale_frames == old(sto).stale_frames
                &&& final(sto).malformed_frames == old(sto).malformed_frames
            },
    {
        if bytes.len() < MIN_RX_LEN {
            bump_malformed(sto);
            return ;
        }
        if !(bytes[12] == 0x88 && bytes[13] == 0xa4) {
            bump_malformed(sto);
            return ;
        }
        let header = codec::read_u16_le(bytes, 14);
        let ptype = header / 4096;
        let plen = (header % 2048) as usize;
        if !(ptype == 1) {
            bump_malformed(sto);
            return ;
        }
        if plen < codec::PDU_HEADER_LEN + codec::WKC_LEN {
            bump_malformed(sto);
            return ;
        }
        if plen > bytes.len() - codec::FRAME_DATA_OFFSET {
            bump_malformed(sto);
            return ;
        }
        assert(wire_well_formed(bytes@));
        let idx = bytes[17];
        let n = sto.slots.len();
        let slot: usize = (idx as usize) % n;
        proof {
            vstd::arithmetic::div_mod::lemma_mod_decreases(idx as nat, n as nat);
        }
        assert(slot <= 255);
        let matched = sto.slots[slot].state == FrameState::Sent
            && sto.slots[slot].first_pdu_index == idx && sto.slots[slot].pdu_payload_len == plen;
        if !matched {
            bump_stale(sto);
            return ;
        }
        assert(wire_matches_slot(*sto, bytes@));
        let claimed = sto.cas_state(slot as u8, FrameState::Sent, FrameState::RxBusy);
        assert(claimed);
        let ghost mid_slots = sto.slots@;
        let mut fslot = sto.slots.remove(slot);
        codec::write_bytes_range(
            &mut fslot.buffer,
            codec::FRAME_DATA_OFFSET,
            bytes,
            codec::FRAME_DATA_OFFSET,
            plen,
        );
        sto.slots.insert(slot, fslot);
        proof {
            assert(sto.slots@ =~= mid_slots.update(slot as int, fslot));
            assert forall|i: int| 0 <= i < sto.n() implies (#[trigger] sto.slots[i]).wf(
                sto.m(),
                sto.n(),
                i,
            ) by {
                if i != slot as int {
                    assert(sto.slots[i] == old(sto).slots[i]);
                }
            }
        }
        let done = sto.cas_state(slot as u8, FrameState::RxBusy, FrameState::Received);
        assert(done);
    }
}

/// `v + 1`, held at the top of the counter's range.
pub open spec fn saturating_inc(v: int) -> int {
    if v < usize::MAX as int {
        v + 1
    } else {
        v
    }
}

/// Bumps the malformed-frame counter, saturating.
fn bump_malformed(sto: &mut PduStorage)
    ensures
        final(sto).malformed_frames as int == saturating_inc(old(sto).malformed_frames as int),
        final(sto).stale_frames == old(sto).stale_frames,
        final(sto).slots@ == old(sto).slots@,
        final(sto).frame_data_len == old(sto).frame_data_len,
        final(sto).idx_counter == old(sto).idx_counter,
        final(sto).tx_cursor == old(sto).tx_cursor,
        final(sto).tx_signal == old(sto).tx_signal,
        final(sto).split == old(sto).split,
{
    if sto.malformed_frames < usize::MAX {
        sto.malformed_frames = sto.malformed_frames + 1;
    }
}

/// Bumps the stale-frame counter, saturating.
fn bump_stale(sto: &mut PduStorage)
    ensures
        final(sto).stale_frames as int == saturating_inc(old(sto).stale_frames as int),
        final(sto).malformed_frames == old(sto).malformed_frames,
        final(sto).slots@ == old(sto).slots@,
        final(sto).frame_data_len == old(sto).frame_data_len,
        final(sto).idx_counter == old(sto).idx_counter,
        final(sto).tx_cursor == old(sto).tx_cursor,
        final(sto).tx_signal == old(sto).tx_signal,
        final(sto).split == old(sto).split,
{
    if sto.stale_frames < usize::MAX {
        sto.stale_frames = sto.stale_frames + 1;
    }
}

} // verus!
