//! A lock-step model of an EtherCAT MainDevice PDU loop: a fixed pool of
//! frame slots shared by submitters, one TX driver and one RX driver, with a
//! byte-exact wire codec for EtherCAT frames and their PDUs.
//!
//! The pool is a statically sized set of slots, each holding one outbound
//! Ethernet frame under construction, in flight, or carrying its response.
//! A slot moves through a fixed state machine; every transition checks the
//! current state first, so each slot is owned by at most one role at a time.

use vstd::prelude::*;

pub mod codec;
pub mod rx;
pub mod tx;
pub mod slot;
pub mod storage;

verus! {

/// Errors surfaced by the PDU loop core.
#[derive(Clone, Copy, Debug, PartialEq, Eq, Structural)]
pub enum Error {
    /// No free slot was available for a new frame.
    PoolExhausted,
    /// Appending a PDU would overflow the slot buffer or the 11-bit length field.
    FrameFull,
    /// All 256 identifying indices are in flight. The pool never holds
    /// more slots than the index space, so allocation reaches its own
    /// `PoolExhausted` bound first and this is never the tighter limit.
    IndexSpaceExhausted,
    /// The transport callback reported a byte count different from the frame length.
    PartialSend { len: usize, sent: usize },
    /// The transport callback failed outright.
    Transport,
    /// The submitter's deadline elapsed before the response arrived.
    Timeout,
    /// The response's working counter differed from the expected value.
    WorkingCounterMismatch { expected: u16, got: u16 },
}

} // verus!
