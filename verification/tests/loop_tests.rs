//! End-to-end scenarios for the PDU loop: staging frames, driving the TX
//! and RX halves, and reading responses back.

use pdu_loop::Error;
use pdu_loop::slot::FrameState;
use pdu_loop::storage::{PduLoop, PduRx, PduStorage, PduTx};

fn make_pool(n: usize, m: usize) -> (PduStorage, PduTx, PduRx, PduLoop) {
    let mut sto = PduStorage::new(n, m);
    let (tx, rx, submitter) = sto.try_split().expect("first split must succeed");
    (sto, tx, rx, submitter)
}

#[test]
fn split_is_one_shot() {
    let mut sto = PduStorage::new(2, 64);
    assert!(sto.try_split().is_some());
    assert!(sto.try_split().is_none());
}

#[test]
fn single_brd_pdu_wire_bytes_and_loopback() {
    let (mut sto, tx, rx, submitter) = make_pool(2, 64);

    let slot = submitter.alloc_frame(&mut sto).expect("alloc");
    assert_eq!(slot, 0);
    let idx = submitter
        .push_pdu(&mut sto, slot, 0x07, 0, &[0u8, 0, 0, 0])
        .expect("push");
    assert_eq!(idx, 0);
    submitter.mark_sendable(&mut sto, slot);

    let frame = tx.next_sendable_frame(&mut sto).expect("sendable frame");
    assert_eq!(frame.storage_slot_index(), 0);
    assert_eq!(frame.len(), 60);

    let mut expected: Vec<u8> = vec![
        0xff, 0xff, 0xff, 0xff, 0xff, 0xff, 0x00, 0x00, 0x00, 0x00, 0x00, 0x00, 0x88, 0xa4,
        0x10, 0x10, 0x07, 0x00, 0x00, 0x00, 0x00, 0x00, 0x04, 0x00, 0x00, 0x00, 0x00, 0x00,
        0x00, 0x00, 0x00, 0x00,
    ];
    while expected.len() < 60 {
        expected.push(0);
    }
    assert_eq!(frame.as_bytes(), expected.as_slice());

    // Loopback: echo the frame with the working counter bumped to 1.
    let mut reply = frame.as_bytes().to_vec();
    reply[30] = 0x01;

    let sent = frame
        .send_blocking(&mut sto, |data: &[u8]| Ok(data.len()))
        .expect("send");
    assert_eq!(sent, 60);
    assert_eq!(sto.slots[0].state, FrameState::Sent);

    rx.receive_frame(&mut sto, &reply);
    assert_eq!(sto.slots[0].state, FrameState::Received);

    let responses = submitter
        .poll_completion(&sto, slot, false)
        .expect("no timeout")
        .expect("responses ready");
    assert_eq!(responses.len(), 1);
    assert_eq!(responses[0].command, 0x07);
    assert_eq!(responses[0].index, 0);
    assert_eq!(responses[0].payload, vec![0u8, 0, 0, 0]);
    assert_eq!(responses[0].working_counter, 1);
    assert!(responses[0].check_working_counter(1).is_ok());

    submitter.release(&mut sto, slot);
    assert_eq!(sto.slots[0].state, FrameState::Free);
}

#[test]
fn two_pdus_more_follows_and_ordered_responses() {
    let (mut sto, tx, rx, submitter) = make_pool(2, 64);

    let slot = submitter.alloc_frame(&mut sto).expect("alloc");
    let first = submitter
        .push_pdu(&mut sto, slot, 0x07, 0, &[1u8, 2])
        .expect("first push");
    let second = submitter
        .push_pdu(&mut sto, slot, 0x04, 0x0010_0000, &[3u8, 4, 5])
        .expect("second push");
    assert_eq!(first, 0);
    assert_eq!(second, 1);
    submitter.mark_sendable(&mut sto, slot);

    let frame = tx.next_sendable_frame(&mut sto).expect("sendable frame");
    let bytes = frame.as_bytes().to_vec();
    // First PDU header at 16: its flags high byte carries more-follows.
    assert_eq!(bytes[22], 0x02);
    assert_eq!(bytes[23], 0x80);
    // Second PDU header at 16 + 10 + 2 + 2 = 30: more-follows clear.
    assert_eq!(bytes[30], 0x04);
    assert_eq!(bytes[31], 0x01);
    assert_eq!(bytes[37], 0x00);

    frame
        .send_blocking(&mut sto, |data: &[u8]| Ok(data.len()))
        .expect("send");
    rx.receive_frame(&mut sto, &bytes);

    let responses = submitter
        .poll_completion(&sto, slot, false)
        .expect("no timeout")
        .expect("responses ready");
    assert_eq!(responses.len(), 2);
    assert_eq!(responses[0].index, 0);
    assert_eq!(responses[0].payload, vec![1u8, 2]);
    assert_eq!(responses[1].index, 1);
    assert_eq!(responses[1].command, 0x04);
    assert_eq!(responses[1].address, 0x0010_0000);
    assert_eq!(responses[1].payload, vec![3u8, 4, 5]);
}

#[test]
fn pool_exhausted_when_every_slot_claimed() {
    let (mut sto, _tx, _rx, submitter) = make_pool(2, 64);
    submitter.alloc_frame(&mut sto).expect("first alloc");
    submitter.alloc_frame(&mut sto).expect("second alloc");
    assert_eq!(submitter.alloc_frame(&mut sto), Err(Error::PoolExhausted));
}

#[test]
fn release_frees_and_allows_reuse() {
    let (mut sto, _tx, _rx, submitter) = make_pool(2, 64);
    let a = submitter.alloc_frame(&mut sto).expect("alloc a");
    let b = submitter.alloc_frame(&mut sto).expect("alloc b");
    assert_ne!(a, b);
    submitter.release(&mut sto, a);
    let c = submitter.alloc_frame(&mut sto).expect("alloc after release");
    assert_eq!(c, a);
}

#[test]
fn partial_send_returns_frame_for_retry() {
    let (mut sto, tx, _rx, submitter) = make_pool(2, 64);
    let slot = submitter.alloc_frame(&mut sto).expect("alloc");
    submitter
        .push_pdu(&mut sto, slot, 0x07, 0, &[0u8; 4])
        .expect("push");
    submitter.mark_sendable(&mut sto, slot);

    let frame = tx.next_sendable_frame(&mut sto).expect("sendable frame");
    let len = frame.len();
    let err = frame
        .send_blocking(&mut sto, |data: &[u8]| Ok(data.len() - 1))
        .expect_err("short write must fail");
    assert_eq!(err, Error::PartialSend { len, sent: len - 1 });
    assert_eq!(sto.slots[slot as usize].state, FrameState::Sendable);

    // The frame is claimable again and a full write succeeds.
    let retry = tx.next_sendable_frame(&mut sto).expect("retry frame");
    assert_eq!(retry.storage_slot_index(), slot);
    let sent = retry
        .send_blocking(&mut sto, |data: &[u8]| Ok(data.len()))
        .expect("retry send");
    assert_eq!(sent, len);
    assert_eq!(sto.slots[slot as usize].state, FrameState::Sent);
}

#[test]
fn transport_error_releases_claim() {
    let (mut sto, tx, _rx, submitter) = make_pool(2, 64);
    let slot = submitter.alloc_frame(&mut sto).expect("alloc");
    submitter
        .push_pdu(&mut sto, slot, 0x07, 0, &[0u8; 4])
        .expect("push");
    submitter.mark_sendable(&mut sto, slot);

    let frame = tx.next_sendable_frame(&mut sto).expect("sendable frame");
    let err = frame
        .send_blocking(&mut sto, |_data: &[u8]| Err(Error::Transport))
        .expect_err("transport failure");
    assert_eq!(err, Error::Transport);
    assert_eq!(sto.slots[slot as usize].state, FrameState::Sendable);
}

#[test]
fn timeout_then_late_reply_is_stale() {
    let (mut sto, tx, rx, submitter) = make_pool(2, 64);
    let slot = submitter.alloc_frame(&mut sto).expect("alloc");
    submitter
        .push_pdu(&mut sto, slot, 0x07, 0, &[0u8; 4])
        .expect("push");
    submitter.mark_sendable(&mut sto, slot);
    let frame = tx.next_sendable_frame(&mut sto).expect("sendable frame");
    let reply = frame.as_bytes().to_vec();
    frame
        .send_blocking(&mut sto, |data: &[u8]| Ok(data.len()))
        .expect("send");

    // Never feed RX: pending until the deadline, then Timeout.
    assert!(matches!(submitter.poll_completion(&sto, slot, false), Ok(None)));
    assert!(matches!(
        submitter.poll_completion(&sto, slot, true),
        Err(Error::Timeout)
    ));

    // The submitter gives up and releases; the late reply is dropped as
    // stale and wakes nobody.
    submitter.release(&mut sto, slot);
    rx.receive_frame(&mut sto, &reply);
    assert_eq!(sto.stale_frames, 1);
    assert_eq!(sto.slots[slot as usize].state, FrameState::Free);
}

#[test]
fn full_pool_of_256_frames_then_exhausted() {
    let (mut sto, _tx, _rx, submitter) = make_pool(256, 64);
    for i in 0..256usize {
        let slot = submitter.alloc_frame(&mut sto).expect("alloc within capacity");
        assert_eq!(slot as usize, i);
    }
    assert_eq!(submitter.alloc_frame(&mut sto), Err(Error::PoolExhausted));

    // The 256th frame took the last index; the counter wraps, and after a
    // release the next frame starts over at index 0.
    let idx = submitter
        .push_pdu(&mut sto, 255, 0x07, 0, &[0u8; 4])
        .expect("push on last slot");
    assert_eq!(idx, 255);
    submitter.release(&mut sto, 0);
    let slot = submitter.alloc_frame(&mut sto).expect("alloc after wrap");
    assert_eq!(slot, 0);
    let idx = submitter.push_pdu(&mut sto, 0, 0x07, 0, &[0u8; 4]).expect("push after wrap");
    assert_eq!(idx, 0);
}

#[test]
fn tx_wake_signal_follows_mark_sendable() {
    let (mut sto, tx, _rx, submitter) = make_pool(2, 64);
    assert!(!tx.take_wake_signal(&mut sto));
    let slot = submitter.alloc_frame(&mut sto).expect("alloc");
    submitter
        .push_pdu(&mut sto, slot, 0x07, 0, &[0u8; 4])
        .expect("push");
    submitter.mark_sendable(&mut sto, slot);
    assert!(tx.take_wake_signal(&mut sto));
    assert!(!tx.take_wake_signal(&mut sto));
}

#[test]
fn no_sendable_frame_returns_nothing() {
    let (mut sto, tx, _rx, _submitter) = make_pool(2, 64);
    assert!(tx.next_sendable_frame(&mut sto).is_none());
}
