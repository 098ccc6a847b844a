//! Edge cases: the byte codec, idempotent transitions, frame-size limits,
//! and the RX half's silent handling of malformed and stale frames.

use pdu_loop::Error;
use pdu_loop::codec;
use pdu_loop::slot::FrameState;
use pdu_loop::storage::{PduLoop, PduRx, PduStorage, PduTx};
use pdu_loop::tx::SendableFrame;

fn make_pool(n: usize, m: usize) -> (PduStorage, PduTx, PduRx, PduLoop) {
    let mut sto = PduStorage::new(n, m);
    let (tx, rx, submitter) = sto.try_split().expect("first split must succeed");
    (sto, tx, rx, submitter)
}

#[test]
fn u16_and_u32_round_trip_through_bytes() {
    let mut buf: Vec<u8> = vec![0u8; 8];
    codec::write_u16_le(&mut buf, 0, 0xbeef);
    assert_eq!(buf[0], 0xef);
    assert_eq!(buf[1], 0xbe);
    assert_eq!(codec::read_u16_le(&buf, 0), 0xbeef);

    codec::write_u32_le(&mut buf, 2, 0x1234_5678);
    assert_eq!(&buf[2..6], &[0x78, 0x56, 0x34, 0x12]);
    assert_eq!(codec::read_u32_le(&buf, 2), 0x1234_5678);
}

#[test]
fn release_twice_is_a_no_op() {
    let (mut sto, _tx, _rx, submitter) = make_pool(2, 64);
    let slot = submitter.alloc_frame(&mut sto).expect("alloc");
    submitter.release(&mut sto, slot);
    assert_eq!(sto.slots[slot as usize].state, FrameState::Free);
    let before = sto.slots[slot as usize].first_pdu_index;
    submitter.release(&mut sto, slot);
    assert_eq!(sto.slots[slot as usize].state, FrameState::Free);
    assert_eq!(sto.slots[slot as usize].first_pdu_index, before);
}

#[test]
fn mark_sent_on_non_sending_slot_changes_nothing() {
    let (mut sto, _tx, _rx, submitter) = make_pool(2, 64);
    let slot = submitter.alloc_frame(&mut sto).expect("alloc");
    assert_eq!(sto.slots[slot as usize].state, FrameState::Created);
    let frame = SendableFrame { slot_index: slot, bytes: Vec::new() };
    frame.mark_sent(&mut sto);
    assert_eq!(sto.slots[slot as usize].state, FrameState::Created);
    frame.release_sending_claim(&mut sto);
    assert_eq!(sto.slots[slot as usize].state, FrameState::Created);
}

#[test]
fn frame_full_when_payload_does_not_fit() {
    let (mut sto, _tx, _rx, submitter) = make_pool(2, 64);
    let slot = submitter.alloc_frame(&mut sto).expect("alloc");
    // 64-byte buffers leave 48 bytes for PDUs; header and trailer take 12.
    let too_big = [0u8; 37];
    assert_eq!(
        submitter.push_pdu(&mut sto, slot, 0x07, 0, &too_big),
        Err(Error::FrameFull)
    );
    // A 36-byte payload fits exactly; nothing more does.
    let exact = [0u8; 36];
    submitter.push_pdu(&mut sto, slot, 0x07, 0, &exact).expect("exact fit");
    assert_eq!(
        submitter.push_pdu(&mut sto, slot, 0x07, 0, &[]),
        Err(Error::FrameFull)
    );
}

#[test]
fn working_counter_mismatch_reports_both_values() {
    let (mut sto, tx, rx, submitter) = make_pool(2, 64);
    let slot = submitter.alloc_frame(&mut sto).expect("alloc");
    submitter.push_pdu(&mut sto, slot, 0x07, 0, &[0u8; 4]).expect("push");
    submitter.mark_sendable(&mut sto, slot);
    let frame = tx.next_sendable_frame(&mut sto).expect("frame");
    let reply = frame.as_bytes().to_vec();
    frame.send_blocking(&mut sto, |data: &[u8]| Ok(data.len())).expect("send");
    rx.receive_frame(&mut sto, &reply);
    let responses = submitter
        .poll_completion(&sto, slot, false)
        .expect("no timeout")
        .expect("ready");
    assert_eq!(
        responses[0].check_working_counter(3),
        Err(Error::WorkingCounterMismatch { expected: 3, got: 0 })
    );
}

#[test]
fn short_frame_is_counted_malformed() {
    let (mut sto, _tx, rx, _submitter) = make_pool(2, 64);
    rx.receive_frame(&mut sto, &[0u8; 10]);
    assert_eq!(sto.malformed_frames, 1);
    assert_eq!(sto.stale_frames, 0);
}

#[test]
fn wrong_ethertype_is_counted_malformed() {
    let (mut sto, _tx, rx, _submitter) = make_pool(2, 64);
    let mut frame = vec![0u8; 60];
    frame[12] = 0x08;
    frame[13] = 0x00;
    rx.receive_frame(&mut sto, &frame);
    assert_eq!(sto.malformed_frames, 1);
}

#[test]
fn wrong_protocol_type_is_counted_malformed() {
    let (mut sto, _tx, rx, _submitter) = make_pool(2, 64);
    let mut frame = vec![0u8; 60];
    frame[12] = 0x88;
    frame[13] = 0xa4;
    // 16 bytes of PDU area, protocol type 2 instead of DLPDU.
    frame[14] = 0x10;
    frame[15] = 0x20;
    rx.receive_frame(&mut sto, &frame);
    assert_eq!(sto.malformed_frames, 1);
    assert_eq!(sto.stale_frames, 0);
}

#[test]
fn reply_for_unclaimed_slot_is_stale() {
    let (mut sto, _tx, rx, _submitter) = make_pool(2, 64);
    let mut frame = vec![0u8; 60];
    frame[12] = 0x88;
    frame[13] = 0xa4;
    frame[14] = 0x10;
    frame[15] = 0x10;
    frame[16] = 0x07;
    frame[22] = 0x04;
    rx.receive_frame(&mut sto, &frame);
    assert_eq!(sto.stale_frames, 1);
    assert_eq!(sto.malformed_frames, 0);
    assert_eq!(sto.slots[0].state, FrameState::Free);
}

#[test]
fn reply_with_wrong_index_is_stale() {
    let (mut sto, tx, rx, submitter) = make_pool(2, 64);
    let slot = submitter.alloc_frame(&mut sto).expect("alloc");
    submitter.push_pdu(&mut sto, slot, 0x07, 0, &[0u8; 4]).expect("push");
    submitter.mark_sendable(&mut sto, slot);
    let frame = tx.next_sendable_frame(&mut sto).expect("frame");
    let mut reply = frame.as_bytes().to_vec();
    frame.send_blocking(&mut sto, |data: &[u8]| Ok(data.len())).expect("send");
    // An index two ahead maps back to the same slot but is not the one
    // the slot carries: dropped as stale, slot untouched.
    reply[17] = reply[17].wrapping_add(2);
    rx.receive_frame(&mut sto, &reply);
    assert_eq!(sto.stale_frames, 1);
    assert_eq!(sto.slots[slot as usize].state, FrameState::Sent);
}
