use notify_relay_core::audio_codec::jitter::JitterBuffer;
use notify_relay_core::audio_stream::{
    audio_control_payload, decoder_frame_size, encode_chunk_len, pcm_samples, push_pcm, receive_datagram,
    AudioSender, AudioStats, PCM_QUEUE_CAP,
};

#[test]
fn sent_packets_are_numbered_and_read_back() {
    let mut sender = AudioSender::new(0);
    sender.ssrc = 0x01020304;
    let p1 = sender.packetize(&[9, 8, 7], 960);
    assert_eq!(p1, vec![0x80, 97, 0, 0, 0, 0, 0, 0, 1, 2, 3, 4, 9, 8, 7]);
    let p2 = sender.packetize(&[6], 960);
    assert_eq!(&p2[..8], &[0x80, 97, 0, 1, 0, 0, 0x03, 0xC0]);
    assert_eq!(sender.seq, 2);
    assert_eq!(sender.ts, 1920);

    let mut jitter = JitterBuffer::new();
    let mut stats = AudioStats::new(0);
    assert!(receive_datagram(&mut jitter, &mut stats, &p2, 10));
    assert!(receive_datagram(&mut jitter, &mut stats, &p1, 10));
    assert_eq!(stats.packets_received, 2);
    assert_eq!(stats.bytes_received, (p1.len() + p2.len()) as u64);
    assert_eq!(jitter.pop_at(20), Some(vec![9, 8, 7]));
    assert_eq!(jitter.pop_at(20), Some(vec![6]));
}

#[test]
fn numbering_wraps() {
    let mut sender = AudioSender::new(0);
    sender.seq = u16::MAX;
    sender.ts = u32::MAX - 100;
    let _ = sender.packetize(&[1], 960);
    assert_eq!(sender.seq, 0);
    assert_eq!(sender.ts, 859);
}

#[test]
fn non_rtp_datagrams_change_nothing() {
    let mut jitter = JitterBuffer::new();
    let mut stats = AudioStats::new(0);
    assert!(!receive_datagram(&mut jitter, &mut stats, &[1, 2, 3], 0));
    // One-byte extension whose element runs past the end of the packet: refused.
    assert!(!receive_datagram(&mut jitter, &mut stats, &[0x90, 97, 0, 5, 0, 0, 0, 0, 0, 0, 0, 0, 0xBE, 0xDE, 0, 1, 0x1F, 0, 0, 0], 0));
    // Extension announced but its header is cut off: refused.
    assert!(!receive_datagram(&mut jitter, &mut stats, &[0x90, 97, 0, 5, 0, 0, 0, 0, 0, 0, 0, 0, 0xBE, 0xDE], 0));
    // Padding larger than the payload: refused.
    assert!(!receive_datagram(&mut jitter, &mut stats, &[0xA0, 97, 0, 0, 0, 0, 0, 0, 0, 0, 0, 0, 5], 0));
    assert_eq!(stats.packets_received, 0);
    assert!(jitter.is_empty());
}

#[test]
fn playback_queue_keeps_the_newest_frames() {
    let mut q: Vec<Vec<i16>> = Vec::new();
    for i in 0..(PCM_QUEUE_CAP as i16 + 3) {
        push_pcm(&mut q, vec![i]);
    }
    assert_eq!(q.len(), PCM_QUEUE_CAP);
    assert_eq!(q[0], vec![3]);
    assert_eq!(q[PCM_QUEUE_CAP - 1], vec![PCM_QUEUE_CAP as i16 + 2]);
}

#[test]
fn pcm_bytes_are_little_endian_samples() {
    assert_eq!(pcm_samples(&[0x01, 0x00, 0xFF, 0xFF, 0x00, 0x80, 0x07]), vec![1, -1, -32768]);
}

#[test]
fn control_payloads_and_frame_sizes() {
    assert_eq!(
        audio_control_payload("audioStart", 48000, 2),
        r#"{"type":"MEDIA_CONTROL","action":"audioStart","sampleRate":48000,"channels":2,"codec":"opus"}"#
    );
    assert_eq!(audio_control_payload("audioStop", 0, 0), r#"{"type":"MEDIA_CONTROL","action":"audioStop"}"#);
    assert_eq!(decoder_frame_size(48000), 960);
    assert_eq!(encode_chunk_len(5000, 960, 2), 1920);
    assert_eq!(encode_chunk_len(100, 960, 2), 100);
}

#[test]
fn extension_packets_are_read_past_their_extension() {
    let mut jitter = JitterBuffer::new();
    let mut stats = AudioStats::new(0);
    // One-byte profile, one word: element id 1 of one byte, then padding; payload 1 2 3.
    let one_byte = [0x90, 97, 0, 7, 0, 0, 0, 0, 0, 0, 0, 0, 0xBE, 0xDE, 0, 1, 0x10, 0xAA, 0, 0, 1, 2, 3];
    assert!(receive_datagram(&mut jitter, &mut stats, &one_byte, 0));
    // Two-byte profile, one word: element id 5 of one byte, then padding; payload 4.
    let two_byte = [0x90, 97, 0, 8, 0, 0, 0, 0, 0, 0, 0, 0, 0x10, 0x00, 0, 1, 5, 1, 0xAB, 0, 4];
    assert!(receive_datagram(&mut jitter, &mut stats, &two_byte, 0));
    // Another profile: the declared words are skipped; payload 6.
    let plain = [0x90, 97, 0, 9, 0, 0, 0, 0, 0, 0, 0, 0, 0x12, 0x34, 0, 1, 9, 9, 9, 9, 6];
    assert!(receive_datagram(&mut jitter, &mut stats, &plain, 0));
    assert_eq!(stats.packets_received, 3);
    assert_eq!(jitter.pop_at(1), Some(vec![1, 2, 3]));
    assert_eq!(jitter.pop_at(1), Some(vec![4]));
    assert_eq!(jitter.pop_at(1), Some(vec![6]));
}
