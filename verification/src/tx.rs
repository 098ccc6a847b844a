//! The TX half: claims `Sendable` frames one at a time and drives the
//! user-supplied transport, advancing the slot state by the outcome.

use vstd::prelude::*;
use vstd::arithmetic::div_mod::{lemma_add_mod_noop_right, lemma_mod_bound};
use crate::Error;
use crate::codec;
use crate::slot::{FrameSlot, FrameState};
use crate::storage::{PduStorage, PduTx};

verus! {

/// The slot probed on the `k`-th TX scan step when the cursor stands at
/// `cur` in a pool of `n` slots.
pub open spec fn tx_probe(cur: int, n: int, k: int) -> int {
    (cur + k) % n
}

/// A full TX sweep visits every slot.
proof fn lemma_tx_probe_coverage(cur: int, n: int, s: int)
    requires
        0 < n,
        0 <= cur < n,
        0 <= s < n,
    ensures
        exists|k: int| 0 <= k < n && #[trigger] tx_probe(cur, n, k) == s,
{
    let k = (s - cur) % n;
    lemma_mod_bound(s - cur, n);
    assert(tx_probe(cur, n, k) == s) by {
        lemma_add_mod_noop_right(cur, s - cur, n);
        vstd::arithmetic::div_mod::lemma_small_mod(s as nat, n as nat);
    }
}

/// An EtherCAT frame that is ready to be sent over the network, claimed
/// from the pool by the TX half. It carries the frame's wire image —
/// headers, PDUs, and zero padding up to the minimum Ethernet frame — and
/// the index of the slot it was claimed from.
#[derive(Debug)]
pub struct SendableFrame {
    /// Position of the claimed slot within the pool.
    pub slot_index: u8,
    /// The frame's bytes exactly as they go on the wire.
    pub bytes: Vec<u8>,
}

impl PduTx {
    /// Takes and clears the TX wake signal, which the pool raises whenever
    /// a frame becomes `Sendable`. The TX driver parks when this is clear
    /// and no frame is pending.
    pub fn take_wake_signal(&self, sto: &mut PduStorage) -> (r: bool)
        ensures
            r == old(sto).tx_signal,
            !final(sto).tx_signal,
            final(sto).slots@ == old(sto).slots@,
            final(sto).frame_data_len == old(sto).frame_data_len,
            final(sto).idx_counter == old(sto).idx_counter,
            final(sto).tx_cursor == old(sto).tx_cursor,
            final(sto).split == old(sto).split,
            final(sto).stale_frames == old(sto).stale_frames,
            final(sto).malformed_frames == old(sto).malformed_frames,
    {
        let r = sto.tx_signal;
        sto.tx_signal = false;
        r
    }

    /// Claims the next `Sendable` frame: scans from the rotating TX cursor,
    /// moves the first `Sendable` slot hit to `Sending`, advances the
    /// cursor past it, and hands back the frame's wire bytes. Returns
    /// nothing — and changes nothing — exactly when no slot is `Sendable`;
    /// the driver then parks on its wake signal.
    pub fn next_sendable_frame(&self, sto: &mut PduStorage) -> (r: Option<SendableFrame>)
        requires
            old(sto).wf(),
        ensures
            final(sto).wf(),
            final(sto).n() == old(sto).n(),
            final(sto).m() == old(sto).m(),
            final(sto).split == old(sto).split,
            final(sto).idx_counter == old(sto).idx_counter,
            final(sto).tx_signal == old(sto).tx_signal,
            final(sto).stale_frames == old(sto).stale_frames,
            final(sto).malformed_frames == old(sto).malformed_frames,
            match r {
                Some(f) => {
                    let os = old(sto).slots[f.slot_index as int];
                    &&& (f.slot_index as int) < old(sto).n()
                    &&& os.state == FrameState::Sendable
                    &&& final(sto).slots@ == old(sto).slots@.update(
                        f.slot_index as int,
                        (FrameSlot { state: FrameState::Sending, ..os }),
                    )
                    &&& f.bytes@ == os.wire_bytes()
                    &&& f.bytes@.len() == os.wire_len()
                    &&& final(sto).tx_cursor as int == (f.slot_index + 1) % (old(sto).n() as int)
                },
                None => {
                    &&& final(sto).slots@ == old(sto).slots@
                    &&& final(sto).tx_cursor == old(sto).tx_cursor
                    &&& forall|i: int|
                        0 <= i < old(sto).n() ==> (#[trigger] old(sto).slots[i]).state
                            != FrameState::Sendable
                },
            },
    {
        let n = sto.slots.len();
        let cur = sto.tx_cursor;
        proof {
            if n > 256 {
                vstd::arithmetic::div_mod::lemma_small_mod(256nat, n as nat);
            }
        }
        let mut k: usize = 0;
        while k < n
            invariant
                sto == old(sto),
                sto.wf(),
                n == sto.n(),
                n <= 256,
                cur == sto.tx_cursor,
                cur < n,
                k <= n,
                forall|j: int|
                    0 <= j < k ==> sto.slots[#[trigger] tx_probe(cur as int, n as int, j)].state
                        != FrameState::Sendable,
            decreases n - k,
        {
            let s: usize = if cur + k >= n {
                cur + k - n
            } else {
                cur + k
            };
            assert(s as int == tx_probe(cur as int, n as int, k as int)) by {
                if cur + k >= n {
                    vstd::arithmetic::div_mod::lemma_mod_sub_multiples_vanish(
                        cur as int + k as int,
                        n as int,
                    );
                    vstd::arithmetic::div_mod::lemma_small_mod(
                        (cur + k - n) as nat,
                        n as nat,
                    );
                } else {
                    vstd::arithmetic::div_mod::lemma_small_mod((cur + k) as nat, n as nat);
                }
            }
            if sto.slots[s].state == FrameState::Sendable {
                let fslot = &sto.slots[s];
                let wire_len = if codec::FRAME_DATA_OFFSET + fslot.pdu_payload_len
                    >= codec::MIN_WIRE_LEN {
                    codec::FRAME_DATA_OFFSET + fslot.pdu_payload_len
                } else {
                    codec::MIN_WIRE_LEN
                };
                let mut bytes: Vec<u8> = Vec::new();
                let mut i: usize = 0;
                while i < wire_len
                    invariant
                        sto == old(sto),
                        sto.wf(),
                        s < sto.n(),
                        fslot == &sto.slots[s as int],
                        wire_len == fslot.wire_len(),
                        wire_len <= fslot.buffer@.len(),
                        i <= wire_len,
                        bytes@.len() == i,
                        forall|j: int| 0 <= j < i ==> bytes@[j] == fslot.buffer@[j],
                    decreases wire_len - i,
                {
                    let b = fslot.buffer[i];
                    bytes.push(b);
                    i = i + 1;
                }
                proof {
                    assert(bytes@ =~= sto.slots[s as int].wire_bytes());
                }
                let claimed = sto.cas_state(s as u8, FrameState::Sendable, FrameState::Sending);
                assert(claimed);
                sto.tx_cursor = if s + 1 == n {
                    0
                } else {
                    s + 1
                };
                proof {
                    if s + 1 == n {
                        vstd::arithmetic::div_mod::lemma_mod_self_0(n as int);
                    } else {
                        vstd::arithmetic::div_mod::lemma_small_mod((s + 1) as nat, n as nat);
                    }
                }
                return Some(SendableFrame { slot_index: s as u8, bytes });
            }
            k = k + 1;
        }
        proof {
            assert forall|i: int| 0 <= i < sto.n() implies (#[trigger] sto.slots[i]).state
                != FrameState::Sendable by {
                lemma_tx_probe_coverage(cur as int, n as int, i);
                let kk = choose|kk: int|
                    0 <= kk < n && #[trigger] tx_probe(cur as int, n as int, kk) == i;
                assert(sto.slots[tx_probe(cur as int, n as int, kk)].state
                    != FrameState::Sendable);
            }
        }
        None
    }
}

impl SendableFrame {
    /// Position of the claimed slot within the pool.
    pub fn storage_slot_index(&self) -> (r: u8)
        ensures
            r == self.slot_index,
    {
        self.slot_index
    }

    /// The frame's bytes exactly as they go on the wire.
    pub fn as_bytes(&self) -> (r: &[u8])
        ensures
            r@ == self.bytes@,
    {
        self.bytes.as_slice()
    }

    /// The Ethernet frame length of this frame.
    pub fn len(&self) -> (r: usize)
        ensures
            r == self.bytes@.len(),
    {
        self.bytes.len()
    }

    /// Records that the network driver has sent the frame: `Sending`
    /// becomes `Sent`. On a slot in any other state this changes nothing.
    pub fn mark_sent(&self, sto: &mut PduStorage)
        requires
            old(sto).wf(),
            (self.slot_index as int) < old(sto).n(),
        ensures
            final(sto).wf(),
            old(sto).slots[self.slot_index as int].state == FrameState::Sending
                ==> final(sto).slots@ == old(sto).slots@.update(
                self.slot_index as int,
                (FrameSlot { state: FrameState::Sent, ..old(sto).slots[self.slot_index as int] }),
            ),
            old(sto).slots[self.slot_index as int].state != FrameState::Sending
                ==> final(sto).slots@ == old(sto).slots@,
            final(sto).n() == old(sto).n(),
            final(sto).m() == old(sto).m(),
            final(sto).split == old(sto).split,
            final(sto).idx_counter == old(sto).idx_counter,
            final(sto).tx_cursor == old(sto).tx_cursor,
            final(sto).tx_signal == old(sto).tx_signal,
            final(sto).stale_frames == old(sto).stale_frames,
            final(sto).malformed_frames == old(sto).malformed_frames,
    {
        let _ = sto.cas_state(self.slot_index, FrameState::Sending, FrameState::Sent);
    }

    /// Releases the sending claim after a failed send: `Sending` returns to
    /// `Sendable` so the frame can be retried or reclaimed. On a slot in
    /// any other state this changes nothing.
    pub fn release_sending_claim(&self, sto: &mut PduStorage)
        requires
            old(sto).wf(),
            (self.slot_index as int) < old(sto).n(),
        ensures
            final(sto).wf(),
            old(sto).slots[self.slot_index as int].state == FrameState::Sending
                ==> final(sto).slots@ == old(sto).slots@.update(
                self.slot_index as int,
                (FrameSlot {
                    state: FrameState::Sendable,
                    ..old(sto).slots[self.slot_index as int]
                }),
            ),
            old(sto).slots[self.slot_index as int].state != FrameState::Sending
                ==> final(sto).slots@ == old(sto).slots@,
            final(sto).n() == old(sto).n(),
            final(sto).m() == old(sto).m(),
            final(sto).split == old(sto).split,
            final(sto).idx_counter == old(sto).idx_counter,
            final(sto).tx_cursor == old(sto).tx_cursor,
            final(sto).tx_signal == old(sto).tx_signal,
            final(sto).stale_frames == old(sto).stale_frames,
            final(sto).malformed_frames == old(sto).malformed_frames,
    {
        let _ = sto.cas_state(self.slot_index, FrameState::Sending, FrameState::Sendable);
    }

    /// Sends the frame through a blocking callback, which must report how
    /// many bytes it wrote. When the whole frame went out the slot moves
    /// to `Sent`, ready for response matching. When the callback reports a
    /// short write the slot returns to `Sendable` and the mismatch is
    /// surfaced as `PartialSend`; when it fails outright the slot returns
    /// to `Sendable` and its error is passed through. Retrying is the
    /// caller's choice either way.
    pub fn send_blocking<F: FnOnce(&[u8]) -> Result<usize, Error>>(
        self,
        sto: &mut PduStorage,
        send: F,
    ) -> (r: Result<usize, Error>)
        requires
            old(sto).wf(),
            (self.slot_index as int) < old(sto).n(),
            old(sto).slots[self.slot_index as int].state == FrameState::Sending,
            forall|b: &[u8]| b@ == self.bytes@ ==> #[trigger] call_requires(send, (b,)),
        ensures
            final(sto).wf(),
            final(sto).n() == old(sto).n(),
            final(sto).m() == old(sto).m(),
            final(sto).split == old(sto).split,
            final(sto).idx_counter == old(sto).idx_counter,
            final(sto).tx_cursor == old(sto).tx_cursor,
            final(sto).tx_signal == old(sto).tx_signal,
            final(sto).stale_frames == old(sto).stale_frames,
            final(sto).malformed_frames == old(sto).malformed_frames,
            match r {
                Ok(sent) => {
                    &&& sent == self.bytes@.len()
                    &&& final(sto).slots@ == old(sto).slots@.update(
                        self.slot_index as int,
                        (FrameSlot {
                            state: FrameState::Sent,
                            ..old(sto).slots[self.slot_index as int]
                        }),
                    )
                    &&& exists|b: &[u8]|
                        b@ == self.bytes@ && #[trigger] call_ensures(send, (b,), Ok(sent))
                },
                Err(e) => {
                    &&& final(sto).slots@ == old(sto).slots@.update(
                        self.slot_index as int,
                        (FrameSlot {
                            state: FrameState::Sendable,
                            ..old(sto).slots[self.slot_index as int]
                        }),
                    )
                    &&& match e {
                        Error::PartialSend { len, sent } => (len == self.bytes@.len() && sent
                            != len && exists|b: &[u8]|
                            b@ == self.bytes@ && #[trigger] call_ensures(send, (b,), Ok(sent)))
                            || exists|b: &[u8]|
                            b@ == self.bytes@ && #[trigger] call_ensures(send, (b,), Err(e)),
                        _ => exists|b: &[u8]|
                            b@ == self.bytes@ && #[trigger] call_ensures(send, (b,), Err(e)),
                    }
                },
            },
    {
        let len = self.bytes.len();
        let data = self.bytes.as_slice();
        let res = send(data);
        match res {
            Ok(bytes_sent) => {
                if bytes_sent == len {
                    self.mark_sent(sto);
                    proof {
                        assert(call_ensures(send, (data,), Ok(bytes_sent)));
                    }
                    Ok(bytes_sent)
                } else {
                    self.release_sending_claim(sto);
                    proof {
                        assert(exists|b: &[u8]|
                            b@ == self.bytes@ && #[trigger] call_ensures(
                                send,
                                (b,),
                                Ok(bytes_sent),
                            )) by {
                            assert(data@ == self.bytes@ && call_ensures(
                                send,
                                (data,),
                                Ok(bytes_sent),
                            ));
                        }
                    }
                    Err(Error::PartialSend { len, sent: bytes_sent })
                }
            },
            Err(e) => {
                self.release_sending_claim(sto);
                proof {
                    assert(exists|b: &[u8]|
                        b@ == self.bytes@ && #[trigger] call_ensures(send, (b,), Err(e))) by {
                        assert(data@ == self.bytes@ && call_ensures(send, (data,), Err(e)));
                    }
                }
                Err(e)
            },
        }
    }
}

} // verus!
