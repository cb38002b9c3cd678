//! The two handshake state machines, driven byte by byte.

use farcri::error::LinkError;
use farcri::handshake::{
    end_magic, fresh_nonce, sync_magic, InitEvent, Initiator, Responder, HANDSHAKE_NONCE_LEN,
};

fn test_nonce() -> Vec<u8> {
    (0..HANDSHAKE_NONCE_LEN as u8).map(|i| 0x40 + i).collect()
}

fn sync_packet(nonce: &[u8]) -> Vec<u8> {
    let mut p = sync_magic();
    p.extend_from_slice(nonce);
    p
}

/// Feeds bytes to a responder, collecting its replies.
fn feed(r: &mut Responder, bytes: &[u8]) -> Result<Vec<Vec<u8>>, LinkError> {
    let mut replies = Vec::new();
    for &b in bytes {
        if let Some(reply) = r.step(b)? {
            replies.push(reply);
        }
    }
    Ok(replies)
}

#[test]
fn responder_echoes_sync_and_acknowledges_end() {
    let nonce = test_nonce();
    let packet = sync_packet(&nonce);
    let mut r = Responder::new();
    let replies = feed(&mut r, &packet).unwrap();
    assert_eq!(replies, vec![packet.clone()]);
    assert!(!r.is_done());
    let replies = feed(&mut r, &end_magic()).unwrap();
    assert_eq!(replies, vec![end_magic()]);
    assert!(r.is_done());
}

#[test]
fn responder_converges_over_duplicates() {
    // The synthetic duplicate-but-not-corrupted stream: three identical
    // sync packets, then the end marker.
    let nonce = test_nonce();
    let packet = sync_packet(&nonce);
    let mut stream = Vec::new();
    for _ in 0..3 {
        stream.extend_from_slice(&packet);
    }
    stream.extend_from_slice(&end_magic());
    let mut r = Responder::new();
    let replies = feed(&mut r, &stream).unwrap();
    assert_eq!(replies, vec![packet.clone(), packet.clone(), packet.clone(), end_magic()]);
    assert!(r.is_done());
}

#[test]
fn responder_skips_garbage_before_first_sync() {
    let nonce = test_nonce();
    let packet = sync_packet(&nonce);
    let mut stream = vec![0x55, 0xaa, 0x00];
    stream.extend_from_slice(&packet);
    let mut r = Responder::new();
    let replies = feed(&mut r, &stream).unwrap();
    assert_eq!(replies, vec![packet]);
}

#[test]
fn responder_rejects_stray_byte_after_echo() {
    let nonce = test_nonce();
    let packet = sync_packet(&nonce);
    let mut r = Responder::new();
    feed(&mut r, &packet).unwrap();
    assert_eq!(feed(&mut r, &[0x7f]), Err(LinkError::BadHandshake));
}

#[test]
fn initiator_converges_over_duplicate_echoes() {
    let nonce = test_nonce();
    let packet = sync_packet(&nonce);
    let mut init = Initiator::new(nonce);
    assert_eq!(init.sync_packet(), packet);
    // Two duplicate echoes of its own packet, then the end-marker reply.
    let mut stream = Vec::new();
    stream.extend_from_slice(&packet);
    stream.extend_from_slice(&packet);
    stream.extend_from_slice(&end_magic());
    init.feed(&stream);
    assert_eq!(init.process().unwrap(), InitEvent::SyncConfirmed);
    assert_eq!(init.process().unwrap(), InitEvent::Progress);
    assert_eq!(init.process().unwrap(), InitEvent::Complete);
    assert!(init.is_done());
    assert_eq!(init.take_rest(), Vec::<u8>::new());
}

#[test]
fn initiator_needs_more_data_on_partial_echo() {
    let nonce = test_nonce();
    let packet = sync_packet(&nonce);
    let mut init = Initiator::new(nonce);
    init.feed(&packet[..10].to_vec());
    assert_eq!(init.process().unwrap(), InitEvent::NeedData);
    init.feed(&packet[10..].to_vec());
    assert_eq!(init.process().unwrap(), InitEvent::SyncConfirmed);
}

#[test]
fn initiator_rejects_unknown_marker_while_draining() {
    let nonce = test_nonce();
    let packet = sync_packet(&nonce);
    let mut init = Initiator::new(nonce);
    init.feed(&packet);
    assert_eq!(init.process().unwrap(), InitEvent::SyncConfirmed);
    init.feed(&vec![0x33]);
    assert_eq!(init.process(), Err(LinkError::BadHandshake));
}

#[test]
fn initiator_keeps_bytes_after_the_handshake() {
    let nonce = test_nonce();
    let packet = sync_packet(&nonce);
    let mut init = Initiator::new(nonce);
    let mut stream = Vec::new();
    stream.extend_from_slice(&packet);
    stream.extend_from_slice(&end_magic());
    stream.extend_from_slice(&[0xc0, 0x42]);
    init.feed(&stream);
    assert_eq!(init.process().unwrap(), InitEvent::SyncConfirmed);
    assert_eq!(init.process().unwrap(), InitEvent::Complete);
    assert_eq!(init.take_rest(), vec![0xc0, 0x42]);
}

#[test]
fn fresh_nonce_avoids_marker_bytes() {
    for _ in 0..32 {
        let nonce = fresh_nonce();
        assert_eq!(nonce.len(), HANDSHAKE_NONCE_LEN);
        assert!(nonce.iter().all(|&b| b != 0x01 && b != 0x02));
    }
}
