//! The frame pool and the three capability halves that share it.
//!
//! The pool is created once, then split exactly once into a submitter
//! handle, a TX half and an RX half. The halves are plain non-copyable
//! witnesses; every operation takes the storage itself alongside, so the
//! whole loop is one lock-step state machine that Verus checks: each
//! transition names the slot state it expects, as a compare-and-swap
//! names its expected value, and fails without side effects otherwise.

use vstd::prelude::*;
use vstd::arithmetic::div_mod::{lemma_add_mod_noop_right, lemma_mod_bound, lemma_mod_mod};
use crate::Error;
use crate::codec;
use crate::slot::{FrameSlot, FrameState, PduMeta};

verus! {

/// The fixed pool of frame slots plus its counters.
#[derive(Debug)]
pub struct PduStorage {
    /// The slots. The pool never grows or shrinks.
    pub slots: Vec<FrameSlot>,
    /// Bytes per slot buffer.
    pub frame_data_len: usize,
    /// The process-wide 8-bit PDU index counter; also the rotating scan
    /// cursor for allocation, so that a claimed slot's position equals the
    /// reserved index modulo the pool size.
    pub idx_counter: u8,
    /// Rotating scan cursor of the TX half.
    pub tx_cursor: usize,
    /// Whether the three halves have been handed out.
    pub split: bool,
    /// Received frames that matched no `Sent` slot (dropped silently).
    pub stale_frames: usize,
    /// Received frames that failed the header checks (dropped silently).
    pub malformed_frames: usize,
    /// Set when a slot becomes `Sendable`; the TX driver's wake condition.
    pub tx_signal: bool,
}

impl PduStorage {
    /// Number of slots.
    pub open spec fn n(self) -> int {
        self.slots.len() as int
    }

    /// Bytes per slot.
    pub open spec fn m(self) -> int {
        self.frame_data_len as int
    }

    /// Well-formedness of the pool. The slot count is a power of two
    /// greater than one and at most 256 — exactly the divisors of the
    /// 8-bit index space, which makes index-to-slot correlation exact.
    pub open spec fn wf(self) -> bool {
        &&& self.n() > 1
        &&& 256int % self.n() == 0
        &&& crate::codec::MIN_WIRE_LEN <= self.m()
        &&& self.m() <= crate::codec::FRAME_DATA_OFFSET + crate::codec::MAX_PDU_AREA
        &&& self.tx_cursor < self.n()
        &&& forall|i: int|
            0 <= i < self.n() ==> (#[trigger] self.slots[i]).wf(self.m(), self.n(), i)
    }

    /// Number of slots currently allocated (not `Free`).
    pub open spec fn allocated(self) -> int {
        count_allocated(self.slots@)
    }
}

/// Number of slots in `slots` that are not `Free`.
pub open spec fn count_allocated(slots: Seq<FrameSlot>) -> int
    decreases slots.len(),
{
    if slots.len() == 0 {
        0
    } else {
        count_allocated(slots.drop_last()) + if slots.last().state != FrameState::Free {
            1int
        } else {
            0int
        }
    }
}

/// At most every slot can be allocated: allocated frames never exceed the
/// pool size.
pub proof fn lemma_allocated_at_most_n(slots: Seq<FrameSlot>)
    ensures
        0 <= count_allocated(slots) <= slots.len(),
    decreases slots.len(),
{
    if slots.len() > 0 {
        lemma_allocated_at_most_n(slots.drop_last());
    }
}

/// The pool is full — every slot allocated — exactly when the allocated
/// count equals the pool size.
pub proof fn lemma_pool_full_iff_count(slots: Seq<FrameSlot>)
    ensures
        (forall|i: int| 0 <= i < slots.len() ==> (#[trigger] slots[i]).state
            != FrameState::Free) <==> count_allocated(slots) == slots.len(),
    decreases slots.len(),
{
    lemma_allocated_at_most_n(slots);
    if slots.len() > 0 {
        lemma_pool_full_iff_count(slots.drop_last());
        lemma_allocated_at_most_n(slots.drop_last());
        assert(forall|i: int|
            0 <= i < slots.len() - 1 ==> (#[trigger] slots[i]) == slots.drop_last()[i]);
        if slots.last().state != FrameState::Free && count_allocated(slots.drop_last())
            == slots.len() - 1 {
            assert(forall|i: int|
                0 <= i < slots.len() ==> (#[trigger] slots[i]).state != FrameState::Free)
                by {
                assert(forall|i: int|
                    0 <= i < slots.len() - 1 ==> (#[trigger] slots.drop_last()[i]).state
                        != FrameState::Free);
            }
        }
    }
}

/// The identifying index probed on the `k`-th allocation step when the
/// counter stands at `start`: the counter runs forward modulo 256.
pub open spec fn probe_tag(start: u8, k: int) -> u8 {
    ((start + k) % 256) as u8
}

/// The slot probed on the `k`-th allocation step: the probed index's
/// residue modulo the pool size.
pub open spec fn probe_slot(start: u8, n: int, k: int) -> int {
    probe_tag(start, k) as int % n
}

/// Because the pool size divides the index space, an index's residue
/// modulo 256 keeps its residue modulo the pool size.
proof fn lemma_mod_256_mod_n(x: int, n: int)
    requires
        0 < n,
        256int % n == 0,
        0 <= x,
    ensures
        (x % 256) % n == x % n,
{
    let b = 256int / n;
    assert(n * b == 256) by {
        vstd::arithmetic::div_mod::lemma_fundamental_div_mod(256int, n);
    }
    lemma_mod_mod(x, n, b);
}

/// A full allocation sweep visits every slot: for each slot there is a
/// probe step that lands on it.
proof fn lemma_probe_coverage(start: u8, n: int, s: int)
    requires
        1 < n,
        256int % n == 0,
        0 <= s < n,
    ensures
        exists|k: int| 0 <= k < n && #[trigger] probe_slot(start, n, k) == s,
{
    let c = start as int;
    let k = (s - c) % n;
    lemma_mod_bound(s - c, n);
    assert((c + k) % n == s) by {
        lemma_add_mod_noop_right(c, s - c, n);
        vstd::arithmetic::div_mod::lemma_small_mod(s as nat, n as nat);
    }
    assert(probe_slot(start, n, k) == s) by {
        lemma_mod_256_mod_n(c + k, n);
        lemma_mod_bound(c + k, 256int);
    }
}

/// Allocated frames never exceed the pool size, and the pool is full —
/// the state in which allocation reports `PoolExhausted` — exactly when
/// the allocated count equals the pool size.
pub proof fn lemma_pool_exhausted_iff_full(sto: PduStorage)
    requires
        sto.wf(),
    ensures
        0 <= sto.allocated() <= sto.n(),
        (forall|i: int|
            0 <= i < sto.n() ==> (#[trigger] sto.slots[i]).state != FrameState::Free) <==> sto
            .allocated() == sto.n(),
{
    lemma_allocated_at_most_n(sto.slots@);
    lemma_pool_full_iff_count(sto.slots@);
}

/// The identifying pair of two distinct `Sent` slots always differs — in
/// fact the 8-bit identifying index alone differs, because each slot's
/// index is congruent to its own position. That is what lets the RX half
/// find the one answering slot from the index echoed on the wire.
pub proof fn lemma_sent_identity_unique(sto: PduStorage, i: int, j: int)
    requires
        sto.wf(),
        0 <= i < sto.n(),
        0 <= j < sto.n(),
        i != j,
        sto.slots[i].state == FrameState::Sent,
        sto.slots[j].state == FrameState::Sent,
    ensures
        sto.slots[i].first_pdu_index != sto.slots[j].first_pdu_index,
{
}

/// The submitter half: reserves slots, stages PDUs, collects responses.
#[derive(Debug)]
pub struct PduLoop {
    witness: bool,
}

/// The singleton TX half.
#[derive(Debug)]
pub struct PduTx {
    witness: bool,
}

/// The singleton RX half.
#[derive(Debug)]
pub struct PduRx {
    witness: bool,
}

impl PduStorage {
    /// Whether `n` frames of `m` bytes are valid pool dimensions: the slot
    /// count a power of two greater than one (equivalently, a divisor of
    /// the 256-value index space), the buffer big enough for a minimum
    /// Ethernet frame and small enough that the PDU area fits the 11-bit
    /// length fields.
    pub open spec fn valid_dimensions(n: usize, m: usize) -> bool {
        &&& n > 1
        &&& 256int % (n as int) == 0
        &&& crate::codec::MIN_WIRE_LEN <= m
        &&& m <= crate::codec::FRAME_DATA_OFFSET + crate::codec::MAX_PDU_AREA
    }

    /// Creates a pool of `n` slots of `m` bytes each, every slot free and
    /// zeroed, and stamps the Ethernet header into every buffer.
    pub fn new(n: usize, m: usize) -> (r: PduStorage)
        requires
            Self::valid_dimensions(n, m),
        ensures
            r.wf(),
            r.n() == n,
            r.m() == m,
            !r.split,
            r.idx_counter == 0,
            r.stale_frames == 0,
            r.malformed_frames == 0,
            forall|i: int| 0 <= i < n ==> (#[trigger] r.slots[i]).state == FrameState::Free,
            forall|i: int| 0 <= i < n ==> (#[trigger] r.slots[i]).pdu_meta.len() == 0,
    {
        let mut slots: Vec<FrameSlot> = Vec::new();
        let mut i: usize = 0;
        while i < n
            invariant
                i <= n,
                slots.len() == i,
                Self::valid_dimensions(n, m),
                forall|j: int| 0 <= j < i ==> (#[trigger] slots[j]).wf(m as int, n as int, j),
                forall|j: int| 0 <= j < i ==> (#[trigger] slots[j]).state == FrameState::Free,
                forall|j: int| 0 <= j < i ==> (#[trigger] slots[j]).pdu_meta.len() == 0,
            decreases n - i,
        {
            let mut buffer: Vec<u8> = Vec::new();
            let mut k: usize = 0;
            while k < m
                invariant
                    k <= m,
                    buffer.len() == k,
                    forall|j: int| 0 <= j < k ==> buffer[j] == 0u8,
                decreases m - k,
            {
                buffer.push(0u8);
                k = k + 1;
            }
            let slot = FrameSlot {
                state: FrameState::Free,
                buffer,
                pdu_payload_len: 0,
                first_pdu_index: 0,
                pdu_meta: Vec::new(),
            };
            slots.push(slot);
            i = i + 1;
        }
        PduStorage {
            slots,
            frame_data_len: m,
            idx_counter: 0,
            tx_cursor: 0,
            split: false,
            stale_frames: 0,
            malformed_frames: 0,
            tx_signal: false,
        }
    }

    /// Compare-and-swap on one slot's state, the primitive behind every
    /// transition: moves the slot from `expect` to `to` and reports true,
    /// or reports false and changes nothing when the slot is elsewhere in
    /// its lifecycle.
    pub(crate) fn cas_state(&mut self, slot: u8, expect: FrameState, to: FrameState) -> (r: bool)
        requires
            old(self).wf(),
            (slot as int) < old(self).n(),
            expect != FrameState::Free,
            to != FrameState::Free,
            to != FrameState::Created,
        ensures
            final(self).wf(),
            r == (old(self).slots[slot as int].state == expect),
            r ==> final(self).slots@ == old(self).slots@.update(
                slot as int,
                (FrameSlot { state: to, ..old(self).slots[slot as int] }),
            ),
            !r ==> final(self).slots@ == old(self).slots@,
            final(self).n() == old(self).n(),
            final(self).m() == old(self).m(),
            final(self).split == old(self).split,
            final(self).idx_counter == old(self).idx_counter,
            final(self).tx_cursor == old(self).tx_cursor,
            final(self).tx_signal == old(self).tx_signal,
            final(self).stale_frames == old(self).stale_frames,
            final(self).malformed_frames == old(self).malformed_frames,
    {
        let s = slot as usize;
        if !(self.slots[s].state == expect) {
            return false;
        }
        let ghost old_slots = self.slots@;
        let mut fslot = self.slots.remove(s);
        fslot.state = to;
        self.slots.insert(s, fslot);
        proof {
            assert(self.slots@ =~= old_slots.update(slot as int, fslot));
            assert forall|i: int| 0 <= i < self.n() implies (#[trigger] self.slots[i]).wf(
                self.m(),
                self.n(),
                i,
            ) by {
                if i != slot as int {
                    assert(self.slots[i] == old(self).slots[i]);
                }
            }
        }
        true
    }

    /// Splits the pool into its three halves, exactly once. A second call
    /// returns nothing: the halves are singletons, and their existence is
    /// the proof of exclusive role ownership.
    pub fn try_split(&mut self) -> (r: Option<(PduTx, PduRx, PduLoop)>)
        ensures
            final(self).slots == old(self).slots,
            final(self).frame_data_len == old(self).frame_data_len,
            final(self).idx_counter == old(self).idx_counter,
            final(self).tx_cursor == old(self).tx_cursor,
            final(self).stale_frames == old(self).stale_frames,
            final(self).malformed_frames == old(self).malformed_frames,
            final(self).tx_signal == old(self).tx_signal,
            final(self).split,
            r is Some <==> !old(self).split,
    {
        if self.split {
            None
        } else {
            self.split = true;
            Some((PduTx { witness: true }, PduRx { witness: true }, PduLoop { witness: true }))
        }
    }
}

/// One PDU of a received frame, as delivered back to the submitter.
#[derive(Debug)]
pub struct PduResponse {
    /// The command code echoed by the bus.
    pub command: u8,
    /// The identifying index echoed by the bus.
    pub index: u8,
    /// The address field as it came back.
    pub address: u32,
    /// The data region as it came back.
    pub payload: Vec<u8>,
    /// The working counter: incremented by every SubDevice that processed
    /// the PDU.
    pub working_counter: u16,
}

/// Whether `r` is exactly the `k`-th PDU read out of `s`'s buffer at the
/// offsets recorded when the frame was staged.
pub open spec fn response_matches(s: FrameSlot, k: int, r: PduResponse) -> bool {
    let meta = s.pdu_meta[k];
    let off = meta.offset as int;
    let dlen = meta.data_len as int;
    &&& r.command == s.buffer[off]
    &&& r.index == s.buffer[off + 1]
    &&& r.address == codec::u32_from_le(
        s.buffer[off + 2],
        s.buffer[off + 3],
        s.buffer[off + 4],
        s.buffer[off + 5],
    )
    &&& r.payload@ == s.buffer@.subrange(
        off + codec::PDU_HEADER_LEN,
        off + codec::PDU_HEADER_LEN + dlen,
    )
    &&& r.working_counter == codec::u16_from_le(
        s.buffer[off + codec::PDU_HEADER_LEN + dlen],
        s.buffer[off + codec::PDU_HEADER_LEN + dlen + 1],
    )
}

impl PduResponse {
    /// Checks this PDU's working counter against the expected value:
    /// succeeds exactly when they agree, and reports both otherwise.
    pub fn check_working_counter(&self, expected: u16) -> (r: Result<(), Error>)
        ensures
            r is Ok <==> self.working_counter == expected,
            r is Err ==> r == Result::<(), Error>::Err(
                Error::WorkingCounterMismatch { expected, got: self.working_counter },
            ),
    {
        if self.working_counter == expected {
            Ok(())
        } else {
            Err(Error::WorkingCounterMismatch { expected, got: self.working_counter })
        }
    }
}

/// Round trip: a response read out of a slot whose buffer carries one
/// whole staged PDU at a recorded offset — which is just what a loopback
/// leaves there — is exactly the tuple the PDU was built from. Command,
/// index, address, data and working counter all come back to the
/// submitter unchanged.
pub proof fn lemma_response_reads_back_pdu(
    s: FrameSlot,
    k: int,
    r: PduResponse,
    cmd: u8,
    index: u8,
    address: u32,
    payload: Seq<u8>,
    more: bool,
    wkc: u16,
)
    requires
        0 <= k < s.pdu_meta.len(),
        payload.len() <= codec::MAX_PDU_AREA,
        s.pdu_meta[k].data_len == payload.len(),
        s.pdu_meta[k].offset + codec::PDU_HEADER_LEN + payload.len() + codec::WKC_LEN
            <= s.buffer.len(),
        s.buffer@.subrange(
            s.pdu_meta[k].offset as int,
            s.pdu_meta[k].offset + codec::PDU_HEADER_LEN + payload.len() + codec::WKC_LEN,
        ) == codec::pdu_wire_bytes(cmd, index, address, payload, more, wkc),
        response_matches(s, k, r),
    ensures
        r.command == cmd,
        r.index == index,
        r.address == address,
        r.payload@ == payload,
        r.working_counter == wkc,
{
    let off = s.pdu_meta[k].offset as int;
    let dlen = payload.len() as int;
    let b = codec::pdu_wire_bytes(cmd, index, address, payload, more, wkc);
    let sub = s.buffer@.subrange(off, off + codec::PDU_HEADER_LEN + dlen + codec::WKC_LEN);
    codec::lemma_pdu_wire_round_trip(cmd, index, address, payload, more, wkc);
    assert forall|t: int|
        0 <= t < codec::PDU_HEADER_LEN + dlen + codec::WKC_LEN implies s.buffer[off + t] == b[t]
        by {
        assert(sub[t] == s.buffer[off + t]);
    }
    assert(r.payload@ =~= payload) by {
        assert forall|t: int| 0 <= t < dlen implies r.payload@[t] == payload[t] by {
            assert(s.buffer[off + codec::PDU_HEADER_LEN + t] == b[codec::PDU_HEADER_LEN + t]);
            assert(b[codec::PDU_HEADER_LEN + t] == payload[t]);
        }
    }
    assert(s.buffer[off + codec::PDU_HEADER_LEN + dlen] == b[codec::PDU_HEADER_LEN + dlen]);
    assert(s.buffer[off + codec::PDU_HEADER_LEN + dlen + 1] == b[codec::PDU_HEADER_LEN + dlen
        + 1]);
}

/// `s`'s buffer with the more-PDUs-follow bit set on the last staged PDU;
/// the buffer itself when no PDU is staged yet. Pushing a PDU applies this
/// to the one before it, so that exactly the last PDU of a frame carries a
/// clear bit.
pub open spec fn with_last_more_set(s: FrameSlot) -> Seq<u8> {
    if s.pdu_meta.len() == 0 {
        s.buffer@
    } else {
        let p = s.pdu_meta@.last().offset as int;
        s.buffer@.update(p + 7, (s.buffer[p + 7] + 0x80) as u8)
    }
}

impl PduLoop {
    /// Reserves a free slot for a new frame: scans from the rotating index
    /// counter, claims the first free slot hit, stamps the Ethernet header
    /// into its zeroed buffer, and reserves the probed identifying index
    /// for the frame's first PDU. Fails with `PoolExhausted` exactly when
    /// every slot is allocated, leaving the pool untouched.
    pub fn alloc_frame(&self, sto: &mut PduStorage) -> (r: Result<u8, Error>)
        requires
            old(sto).wf(),
        ensures
            final(sto).wf(),
            final(sto).n() == old(sto).n(),
            final(sto).m() == old(sto).m(),
            final(sto).split == old(sto).split,
            final(sto).tx_cursor == old(sto).tx_cursor,
            final(sto).tx_signal == old(sto).tx_signal,
            final(sto).stale_frames == old(sto).stale_frames,
            final(sto).malformed_frames == old(sto).malformed_frames,
            match r {
                Ok(s) => {
                    let ns = final(sto).slots[s as int];
                    &&& (s as int) < old(sto).n()
                    &&& old(sto).slots[s as int].state == FrameState::Free
                    &&& ns.state == FrameState::Created
                    &&& ns.pdu_meta.len() == 0
                    &&& ns.pdu_payload_len == 0
                    &&& ns.first_pdu_index as int % old(sto).n() == s as int
                    &&& ns.buffer@ == codec::ethernet_header_bytes() + Seq::new(
                        (old(sto).m() - codec::ETHERNET_HEADER_LEN) as nat,
                        |i: int| 0u8,
                    )
                    &&& forall|j: int|
                        0 <= j < old(sto).n() && j != s as int ==> final(sto).slots[j] == old(
                            sto,
                        ).slots[j]
                    &&& final(sto).idx_counter as int == (ns.first_pdu_index + 1) % 256
                    &&& exists|k: int|
                        0 <= k < old(sto).n() && #[trigger] probe_slot(
                            old(sto).idx_counter,
                            old(sto).n(),
                            k,
                        ) == s as int && ns.first_pdu_index == probe_tag(old(sto).idx_counter, k)
                            && forall|j: int|
                            0 <= j < k ==> old(sto).slots[probe_slot(
                                old(sto).idx_counter,
                                old(sto).n(),
                                j,
                            )].state != FrameState::Free
                }
                Err(e) => {
                    &&& e == Error::PoolExhausted
                    &&& *final(sto) == *old(sto)
                    &&& forall|i: int|
                        0 <= i < old(sto).n() ==> (#[trigger] old(sto).slots[i]).state
                            != FrameState::Free
                }
            },
    {
        let n = sto.slots.len();
        let start = sto.idx_counter;
        proof {
            if n > 256 {
                vstd::arithmetic::div_mod::lemma_small_mod(256nat, n as nat);
            }
        }
        let mut k: usize = 0;
        while k < n
            invariant
                sto == old(sto),
                sto.wf(),
                n == sto.n(),
                n <= 256,
                start == sto.idx_counter,
                k <= n,
                forall|j: int|
                    0 <= j < k ==> sto.slots[#[trigger] probe_slot(start, n as int, j)].state
                        != FrameState::Free,
            decreases n - k,
        {
            let tag: u8 = ((start as usize + k) % 256) as u8;
            let s: usize = (tag as usize) % n;
            assert(s as int == probe_slot(start, n as int, k as int));
            assert(s <= 255);
            if sto.slots[s].state == FrameState::Free {
                let ghost old_slots = sto.slots@;
                let mut slot = sto.slots.remove(s);
                let buf_len = slot.buffer.len();
                codec::write_zeros(&mut slot.buffer, 0, buf_len);
                codec::write_ethernet_header(&mut slot.buffer);
                slot.state = FrameState::Created;
                slot.first_pdu_index = tag;
                slot.pdu_payload_len = 0;
                slot.pdu_meta = Vec::new();
                proof {
                    assert(slot.buffer@ =~= codec::ethernet_header_bytes() + Seq::new(
                        (sto.m() - codec::ETHERNET_HEADER_LEN) as nat,
                        |i: int| 0u8,
                    ));
                }
                sto.slots.insert(s, slot);
                sto.idx_counter = ((tag as usize + 1) % 256) as u8;
                proof {
                    assert(sto.slots@ =~= old_slots.update(s as int, slot));
                    assert forall|i: int| 0 <= i < sto.n() implies (#[trigger] sto.slots[i]).wf(
                        sto.m(),
                        sto.n(),
                        i,
                    ) by {
                        if i != s as int {
                            assert(sto.slots[i] == old(sto).slots[i]);
                        }
                    }
                    assert(sto.slots[s as int].first_pdu_index == probe_tag(start, k as int));
                    assert(exists|kk: int|
                        0 <= kk < old(sto).n() && #[trigger] probe_slot(
                            old(sto).idx_counter,
                            old(sto).n(),
                            kk,
                        ) == s as int && sto.slots[s as int].first_pdu_index == probe_tag(
                            old(sto).idx_counter,
                            kk,
                        ) && forall|j: int|
                            0 <= j < kk ==> old(sto).slots[probe_slot(
                                old(sto).idx_counter,
                                old(sto).n(),
                                j,
                            )].state != FrameState::Free) by {
                        assert(probe_slot(old(sto).idx_counter, old(sto).n(), k as int) == s as int
                            && sto.slots[s as int].first_pdu_index == probe_tag(
                            old(sto).idx_counter,
                            k as int,
                        ) && forall|j: int|
                            0 <= j < k as int ==> old(sto).slots[probe_slot(
                                old(sto).idx_counter,
                                old(sto).n(),
                                j,
                            )].state != FrameState::Free);
                    }
                }
                return Ok(s as u8);
            }
            k = k + 1;
        }
        proof {
            assert forall|i: int| 0 <= i < sto.n() implies (#[trigger] sto.slots[i]).state
                != FrameState::Free by {
                lemma_probe_coverage(start, n as int, i);
                let kk = choose|kk: int|
                    0 <= kk < n && #[trigger] probe_slot(start, n as int, kk) == i;
                assert(sto.slots[probe_slot(start, n as int, kk)].state != FrameState::Free);
            }
        }
        Err(Error::PoolExhausted)
    }

    /// Appends one PDU — command, address, data — to a claimed frame. The
    /// first PDU takes the identifying index reserved for the slot; later
    /// ones take fresh indices from the process-wide counter, and the push
    /// sets the more-PDUs-follow bit of the PDU before them, so that
    /// exactly the last PDU of the frame carries a clear bit. Fails with
    /// `FrameFull`, changing nothing, exactly when header, data and
    /// working-counter trailer would not fit the remaining buffer.
    #[verifier::rlimit(100)]
    pub fn push_pdu(
        &self,
        sto: &mut PduStorage,
        slot: u8,
        command: u8,
        address: u32,
        payload: &[u8],
    ) -> (r: Result<u8, Error>)
        requires
            old(sto).wf(),
            (slot as int) < old(sto).n(),
            old(sto).slots[slot as int].state == FrameState::Created,
        ensures
            final(sto).wf(),
            final(sto).n() == old(sto).n(),
            final(sto).m() == old(sto).m(),
            final(sto).split == old(sto).split,
            final(sto).tx_cursor == old(sto).tx_cursor,
            final(sto).tx_signal == old(sto).tx_signal,
            final(sto).stale_frames == old(sto).stale_frames,
            final(sto).malformed_frames == old(sto).malformed_frames,
            match r {
                Ok(idx) => {
                    let os = old(sto).slots[slot as int];
                    let ns = final(sto).slots[slot as int];
                    let off = codec::FRAME_DATA_OFFSET + os.pdu_payload_len;
                    &&& os.pdu_payload_len + codec::PDU_HEADER_LEN + payload@.len()
                        + codec::WKC_LEN <= old(sto).m() - codec::FRAME_DATA_OFFSET
                    &&& idx == if os.pdu_meta.len() == 0 {
                        os.first_pdu_index
                    } else {
                        old(sto).idx_counter
                    }
                    &&& final(sto).idx_counter as int == if os.pdu_meta.len() == 0 {
                        old(sto).idx_counter as int
                    } else {
                        (old(sto).idx_counter + 1) % 256
                    }
                    &&& ns.state == FrameState::Created
                    &&& ns.first_pdu_index == os.first_pdu_index
                    &&& ns.pdu_meta@ == os.pdu_meta@.push(
                        PduMeta { offset: off as usize, data_len: payload@.len() as usize },
                    )
                    &&& ns.pdu_payload_len == os.pdu_payload_len + codec::PDU_HEADER_LEN
                        + payload@.len() + codec::WKC_LEN
                    &&& ns.buffer@ == codec::splice(
                        with_last_more_set(os),
                        off as int,
                        codec::pdu_wire_bytes(command, idx, address, payload@, false, 0),
                    )
                    &&& forall|j: int|
                        0 <= j < old(sto).n() && j != slot as int ==> final(sto).slots[j] == old(
                            sto,
                        ).slots[j]
                }
                Err(e) => {
                    &&& e == Error::FrameFull
                    &&& *final(sto) == *old(sto)
                    &&& old(sto).slots[slot as int].pdu_payload_len + codec::PDU_HEADER_LEN
                        + payload@.len() + codec::WKC_LEN > old(sto).m()
                        - codec::FRAME_DATA_OFFSET
                }
            },
    {
        let s = slot as usize;
        let m = sto.frame_data_len;
        let plen = sto.slots[s].pdu_payload_len;
        let avail = m - codec::FRAME_DATA_OFFSET - plen;
        if payload.len() > avail {
            return Err(Error::FrameFull);
        }
        if codec::PDU_HEADER_LEN + codec::WKC_LEN > avail - payload.len() {
            return Err(Error::FrameFull);
        }
        let ghost old_slots = sto.slots@;
        let ghost os = sto.slots@[slot as int];
        let mut fslot = sto.slots.remove(s);
        let idx: u8;
        if fslot.pdu_meta.len() == 0 {
            idx = fslot.first_pdu_index;
        } else {
            idx = sto.idx_counter;
            sto.idx_counter = ((sto.idx_counter as usize + 1) % 256) as u8;
            let prev = fslot.pdu_meta[fslot.pdu_meta.len() - 1].offset;
            let b = fslot.buffer[prev + 7];
            fslot.buffer.set(prev + 7, b + 0x80);
        }
        assert(fslot.buffer@ == with_last_more_set(os));
        let off = codec::FRAME_DATA_OFFSET + plen;
        codec::write_pdu_header(
            &mut fslot.buffer,
            off,
            command,
            idx,
            address,
            payload.len() as u16,
            false,
        );
        codec::write_bytes(&mut fslot.buffer, off + codec::PDU_HEADER_LEN, payload);
        codec::write_u16_le(&mut fslot.buffer, off + codec::PDU_HEADER_LEN + payload.len(), 0);
        proof {
            assert(fslot.buffer@ =~= codec::splice(
                with_last_more_set(os),
                off as int,
                codec::pdu_wire_bytes(command, idx, address, payload@, false, 0),
            ));
        }
        fslot.pdu_meta.push(PduMeta { offset: off, data_len: payload.len() });
        fslot.pdu_payload_len = plen + codec::PDU_HEADER_LEN + payload.len() + codec::WKC_LEN;
        sto.slots.insert(s, fslot);
        proof {
            assert(sto.slots@ =~= old_slots.update(slot as int, fslot));
            let ns = sto.slots@[slot as int];
            assert(ns.buffer[off + 7] < 0x80) by {
                assert(ns.buffer[off + 7] == codec::pdu_wire_bytes(
                    command,
                    idx,
                    address,
                    payload@,
                    false,
                    0,
                )[7]);
                assert(codec::pdu_wire_bytes(command, idx, address, payload@, false, 0)[7]
                    == codec::u16_le_bytes(codec::pdu_flags_word(payload@.len() as u16, false))[1]);
            }
            assert(ns.wf(sto.m(), sto.n(), slot as int));
            assert forall|i: int| 0 <= i < sto.n() implies (#[trigger] sto.slots[i]).wf(
                sto.m(),
                sto.n(),
                i,
            ) by {
                if i != slot as int {
                    assert(sto.slots[i] == old(sto).slots[i]);
                }
            }
        }
        Ok(idx)
    }

    /// Publishes a claimed frame to the TX half: writes the EtherCAT frame
    /// header — the staged PDU length and the DLPDU protocol type — over
    /// the buffer, moves the slot to `Sendable` and raises the TX driver's
    /// wake signal. From here on the buffer is frozen.
    pub fn mark_sendable(&self, sto: &mut PduStorage, slot: u8)
        requires
            old(sto).wf(),
            (slot as int) < old(sto).n(),
            old(sto).slots[slot as int].state == FrameState::Created,
            old(sto).slots[slot as int].pdu_meta.len() > 0,
        ensures
            final(sto).wf(),
            final(sto).n() == old(sto).n(),
            final(sto).m() == old(sto).m(),
            final(sto).split == old(sto).split,
            final(sto).idx_counter == old(sto).idx_counter,
            final(sto).tx_cursor == old(sto).tx_cursor,
            final(sto).stale_frames == old(sto).stale_frames,
            final(sto).malformed_frames == old(sto).malformed_frames,
            final(sto).tx_signal,
            ({
                let os = old(sto).slots[slot as int];
                let ns = final(sto).slots[slot as int];
                &&& ns.state == FrameState::Sendable
                &&& ns.first_pdu_index == os.first_pdu_index
                &&& ns.pdu_meta == os.pdu_meta
                &&& ns.pdu_payload_len == os.pdu_payload_len
                &&& ns.buffer@ == codec::splice(
                    os.buffer@,
                    codec::ETHERNET_HEADER_LEN as int,
                    codec::ethercat_header_bytes(os.pdu_payload_len as u16),
                )
            }),
            forall|j: int|
                0 <= j < old(sto).n() && j != slot as int ==> final(sto).slots[j] == old(
                    sto,
                ).slots[j],
    {
        let s = slot as usize;
        let ghost old_slots = sto.slots@;
        let mut fslot = sto.slots.remove(s);
        let header: u16 = fslot.pdu_payload_len as u16 + 0x1000u16;
        codec::write_u16_le(&mut fslot.buffer, codec::ETHERNET_HEADER_LEN, header);
        fslot.state = FrameState::Sendable;
        sto.slots.insert(s, fslot);
        sto.tx_signal = true;
        proof {
            assert(sto.slots@ =~= old_slots.update(slot as int, fslot));
            assert forall|i: int| 0 <= i < sto.n() implies (#[trigger] sto.slots[i]).wf(
                sto.m(),
                sto.n(),
                i,
            ) by {
                if i != slot as int {
                    assert(sto.slots[i] == old(sto).slots[i]);
                }
            }
        }
    }

    /// Returns a slot to the pool. Idempotent: releasing a slot that is
    /// already free changes nothing at all, and releasing any other slot
    /// changes only its state. A late reply for a released slot no longer
    /// matches and is dropped as stale.
    pub fn release(&self, sto: &mut PduStorage, slot: u8)
        requires
            old(sto).wf(),
            (slot as int) < old(sto).n(),
        ensures
            final(sto).wf(),
            final(sto).slots[slot as int].state == FrameState::Free,
            old(sto).slots[slot as int].state == FrameState::Free ==> final(sto).slots@ == old(
                sto,
            ).slots@,
            final(sto).slots@ == old(sto).slots@.update(
                slot as int,
                (FrameSlot {
                    state: FrameState::Free,
                    ..old(sto).slots[slot as int]
                }),
            ),
            final(sto).n() == old(sto).n(),
            final(sto).m() == old(sto).m(),
            final(sto).split == old(sto).split,
            final(sto).idx_counter == old(sto).idx_counter,
            final(sto).tx_cursor == old(sto).tx_cursor,
            final(sto).tx_signal == old(sto).tx_signal,
            final(sto).stale_frames == old(sto).stale_frames,
            final(sto).malformed_frames == old(sto).malformed_frames,
    {
        let s = slot as usize;
        let ghost old_slots = sto.slots@;
        let mut fslot = sto.slots.remove(s);
        fslot.state = FrameState::Free;
        sto.slots.insert(s, fslot);
        proof {
            assert(sto.slots@ =~= old_slots.update(slot as int, fslot));
            if old(sto).slots[slot as int].state == FrameState::Free {
                assert(sto.slots@ =~= old_slots);
            }
            assert forall|i: int| 0 <= i < sto.n() implies (#[trigger] sto.slots[i]).wf(
                sto.m(),
                sto.n(),
                i,
            ) by {
                if i != slot as int {
                    assert(sto.slots[i] == old(sto).slots[i]);
                }
            }
        }
    }

    /// One step of awaiting a frame's completion. Delivers the responses
    /// exactly when the slot has reached `Received`: one record per staged
    /// PDU, read back from the recorded offsets. Otherwise reports
    /// `Timeout` when the caller's deadline has elapsed, and nothing when
    /// the caller should keep waiting. The pool itself is not changed; the
    /// submitter releases the slot when it is done with it.
    pub fn poll_completion(
        &self,
        sto: &PduStorage,
        slot: u8,
        deadline_elapsed: bool,
    ) -> (r: Result<Option<Vec<PduResponse>>, Error>)
        requires
            sto.wf(),
            (slot as int) < sto.n(),
        ensures
            match r {
                Ok(opt) => match opt {
                    Some(rs) => {
                        let sl = sto.slots[slot as int];
                        &&& sl.state == FrameState::Received
                        &&& rs@.len() == sl.pdu_meta.len()
                        &&& forall|k: int|
                            0 <= k < rs@.len() ==> response_matches(sl, k, #[trigger] rs@[k])
                    },
                    None => {
                        &&& sto.slots[slot as int].state != FrameState::Received
                        &&& !deadline_elapsed
                    },
                },
                Err(e) => {
                    &&& e == Error::Timeout
                    &&& sto.slots[slot as int].state != FrameState::Received
                    &&& deadline_elapsed
                },
            },
    {
        let s = slot as usize;
        if !(sto.slots[s].state == FrameState::Received) {
            if deadline_elapsed {
                return Err(Error::Timeout);
            } else {
                return Ok(None);
            }
        }
        let fslot = &sto.slots[s];
        let count = fslot.pdu_meta.len();
        let mut out: Vec<PduResponse> = Vec::new();
        let mut k: usize = 0;
        while k < count
            invariant
                sto.wf(),
                (slot as int) < sto.n(),
                fslot == &sto.slots[slot as int],
                count == fslot.pdu_meta.len(),
                k <= count,
                out@.len() == k,
                forall|j: int| 0 <= j < k ==> response_matches(*fslot, j, #[trigger] out@[j]),
            decreases count - k,
        {
            let meta = fslot.pdu_meta[k];
            let buf = fslot.buffer.as_slice();
            let command = buf[meta.offset];
            let index = buf[meta.offset + 1];
            let address = codec::read_u32_le(buf, meta.offset + 2);
            let mut payload: Vec<u8> = Vec::new();
            let mut i: usize = 0;
            while i < meta.data_len
                invariant
                    i <= meta.data_len,
                    payload@.len() == i,
                    meta.offset + codec::PDU_HEADER_LEN + meta.data_len + codec::WKC_LEN
                        <= buf@.len(),
                    buf@ == sto.slots[slot as int].buffer@,
                    (slot as int) < sto.n(),
                    meta == sto.slots[slot as int].pdu_meta[k as int],
                    k < sto.slots[slot as int].pdu_meta.len(),
                    sto.wf(),
                    forall|j: int|
                        0 <= j < i ==> #[trigger] payload@[j] == buf@[meta.offset
                            + codec::PDU_HEADER_LEN + j],
                decreases meta.data_len - i,
            {
                let b = buf[meta.offset + codec::PDU_HEADER_LEN + i];
                payload.push(b);
                i = i + 1;
            }
            let working_counter = codec::read_u16_le(
                buf,
                meta.offset + codec::PDU_HEADER_LEN + meta.data_len,
            );
            let resp = PduResponse { command, index, address, payload, working_counter };
            proof {
                assert(resp.payload@ =~= fslot.buffer@.subrange(
                    meta.offset + codec::PDU_HEADER_LEN,
                    meta.offset + codec::PDU_HEADER_LEN + meta.data_len,
                ));
            }
            out.push(resp);
            k = k + 1;
        }
        Ok(Some(out))
    }
}

} // verus!
