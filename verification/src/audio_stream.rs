//! An Opus audio stream over RTP/UDP: the counters, the sending side's numbering and
//! framing, the receiving side's intake into the jitter buffer, and the playback queue. The
//! codec and the sockets are the caller's.
use vstd::prelude::*;
use crate::audio_codec::jitter::{fresh_at, placed, JitterBuffer};
use rand::Rng;
use webrtc_util::marshal::{Marshal, Unmarshal};

verus! {

/// Packets and bytes of an audio stream since `start_ms`.
#[derive(Debug, Clone, Copy)]
pub struct AudioStats {
    pub packets_sent: u64,
    pub packets_received: u64,
    pub packets_lost: u64,
    pub bytes_sent: u64,
    pub bytes_received: u64,
    pub opus_bytes_sent: u64,
    /// When (ms) counting started.
    pub start_ms: u64,
}

impl AudioStats {
    /// All counters at zero, counting from `now_ms`.
    pub fn new(now_ms: u64) -> (r: AudioStats)
        ensures
            r.packets_sent == 0 && r.packets_received == 0 && r.packets_lost == 0,
            r.bytes_sent == 0 && r.bytes_received == 0 && r.opus_bytes_sent == 0,
            r.start_ms == now_ms,
    {
        AudioStats {
            packets_sent: 0,
            packets_received: 0,
            packets_lost: 0,
            bytes_sent: 0,
            bytes_received: 0,
            opus_bytes_sent: 0,
            start_ms: now_ms,
        }
    }

    /// A packet of `wire_bytes` bytes, holding `opus_bytes` bytes of audio, was sent.
    pub fn record_sent(&mut self, wire_bytes: u64, opus_bytes: u64)
        requires
            old(self).packets_sent < u64::MAX,
            old(self).bytes_sent + wire_bytes <= u64::MAX,
            old(self).opus_bytes_sent + opus_bytes <= u64::MAX,
        ensures
            final(self).packets_sent == old(self).packets_sent + 1,
            final(self).bytes_sent == old(self).bytes_sent + wire_bytes,
            final(self).opus_bytes_sent == old(self).opus_bytes_sent + opus_bytes,
            final(self).packets_received == old(self).packets_received,
            final(self).packets_lost == old(self).packets_lost,
            final(self).bytes_received == old(self).bytes_received,
            final(self).start_ms == old(self).start_ms,
    {
        self.packets_sent = self.packets_sent + 1;
        self.bytes_sent = self.bytes_sent + wire_bytes;
        self.opus_bytes_sent = self.opus_bytes_sent + opus_bytes;
    }

    /// A packet of `wire_bytes` bytes was received.
    pub fn record_received(&mut self, wire_bytes: u64)
        requires
            old(self).packets_received < u64::MAX,
            old(self).bytes_received + wire_bytes <= u64::MAX,
        ensures
            final(self).packets_received == old(self).packets_received + 1,
            final(self).bytes_received == old(self).bytes_received + wire_bytes,
            final(self).packets_sent == old(self).packets_sent,
            final(self).packets_lost == old(self).packets_lost,
            final(self).bytes_sent == old(self).bytes_sent,
            final(self).opus_bytes_sent == old(self).opus_bytes_sent,
            final(self).start_ms == old(self).start_ms,
    {
        self.packets_received = self.packets_received + 1;
        self.bytes_received = self.bytes_received + wire_bytes;
    }

    /// `lost` packets were found missing.
    pub fn record_lost(&mut self, lost: u64)
        requires
            old(self).packets_lost + lost <= u64::MAX,
        ensures
            final(self).packets_lost == old(self).packets_lost + lost,
            final(self).packets_sent == old(self).packets_sent,
            final(self).packets_received == old(self).packets_received,
            final(self).bytes_sent == old(self).bytes_sent,
            final(self).bytes_received == old(self).bytes_received,
            final(self).opus_bytes_sent == old(self).opus_bytes_sent,
            final(self).start_ms == old(self).start_ms,
    {
        self.packets_lost = self.packets_lost + lost;
    }
}

/// RTP version of the stream's packets.
pub const RTP_VERSION: u8 = 2;

/// RTP payload type of the Opus frames.
pub const RTP_PAYLOAD_TYPE: u8 = 97;

/// Largest number of decoded frames waiting for playback.
pub const PCM_QUEUE_CAP: usize = 50;

/// Big-endian bytes of a `u16`.
pub open spec fn be16(x: u16) -> Seq<u8> {
    seq![(x / 256) as u8, (x % 256) as u8]
}

/// Big-endian bytes of a `u32`.
pub open spec fn be32(x: u32) -> Seq<u8> {
    seq![(x / 16777216) as u8, ((x / 65536) % 256) as u8, ((x / 256) % 256) as u8, (x % 256) as u8]
}

/// An RTP packet with version `version`, no padding, extension or contributing sources,
/// marker clear, payload type `pt`, sequence number `seq`, timestamp `ts`, source `ssrc`.
pub open spec fn rtp_bytes(version: u8, pt: u8, seq: u16, ts: u32, ssrc: u32, payload: Seq<u8>) -> Seq<u8> {
    seq![(version * 64) as u8, pt] + be16(seq) + be32(ts) + be32(ssrc) + payload
}

/// The header of `data` announces an extension (bit 4 of the first byte, when the packet is
/// long enough to be read).
pub open spec fn has_extension(data: Seq<u8>) -> bool {
    data.len() >= 4 && (data[0] / 16) % 2 == 1
}

/// Where the elements of a one-byte (`two_byte` false, RFC 8285 profile `0xBEDE`) or
/// two-byte (profile `0x1000`) header extension stop being read, starting at `pos`, for an
/// extension ending at `end`: padding bytes (0) are skipped, each element is its header and
/// its bytes, and a one-byte element with id 15 ends the reading right after its header
/// byte. The reading stops at the first position at or beyond `end`. `None` when an element
/// runs past the end of `data`.
pub open spec fn ext_elements_end(data: Seq<u8>, pos: int, end: int, two_byte: bool) -> Option<int>
    decreases data.len() - pos,
{
    if pos >= end || pos < 0 || pos >= data.len() {
        if pos >= end { Some(pos) } else { None }
    } else if data[pos] == 0 {
        ext_elements_end(data, pos + 1, end, two_byte)
    } else if !two_byte {
        let len = (data[pos] % 16) as int + 1;
        if data[pos] / 16 == 15 {
            Some(pos + 1)
        } else if pos + 1 + len > data.len() {
            None
        } else {
            ext_elements_end(data, pos + 1 + len, end, two_byte)
        }
    } else if pos + 1 >= data.len() {
        None
    } else {
        let len = data[pos + 1] as int;
        if pos + 2 + len > data.len() {
            None
        } else {
            ext_elements_end(data, pos + 2 + len, end, two_byte)
        }
    }
}

/// Offset of the first byte after the contributing sources.
pub open spec fn rtp_csrc_end(data: Seq<u8>) -> int {
    12 + 4 * ((data[0] % 16) as int)
}

/// The extension header of `data` (present and complete): its profile, and the offset where
/// its declared length ends.
pub open spec fn rtp_ext_profile(data: Seq<u8>) -> int {
    data[rtp_csrc_end(data)] as int * 256 + data[rtp_csrc_end(data) + 1] as int
}

/// Offset where the declared extension of `data` ends.
pub open spec fn rtp_ext_end(data: Seq<u8>) -> int {
    rtp_csrc_end(data) + 4 + 4 * (data[rtp_csrc_end(data) + 2] as int * 256 + data[rtp_csrc_end(data) + 3] as int)
}

/// The header of `data` announces an extension whose fixed part and declared length fit the
/// packet.
pub open spec fn rtp_ext_fits(data: Seq<u8>) -> bool {
    &&& has_extension(data)
    &&& rtp_csrc_end(data) + 4 <= data.len()
    &&& rtp_ext_end(data) <= data.len()
}

/// A one-byte or two-byte header extension whose elements run past the end of the packet
/// (the rtp crate panics reading such a packet).
pub open spec fn rtp_ext_overruns(data: Seq<u8>) -> bool {
    &&& rtp_ext_fits(data)
    &&& (rtp_ext_profile(data) == 0xBEDE || rtp_ext_profile(data) == 0x1000)
    &&& ext_elements_end(data, rtp_csrc_end(data) + 4, rtp_ext_end(data), rtp_ext_profile(data) == 0x1000) is None
}

/// Where the payload of an RTP packet starts: after the 12-byte header, the contributing
/// sources and, when announced, the header extension (for the one-byte and two-byte profiles,
/// where its elements stop being read); `None` when the packet is too short for them.
pub open spec fn rtp_payload_start(data: Seq<u8>) -> Option<int> {
    if data.len() < 4 || data.len() < rtp_csrc_end(data) {
        None
    } else if !has_extension(data) {
        Some(rtp_csrc_end(data))
    } else if !rtp_ext_fits(data) {
        None
    } else if rtp_ext_profile(data) == 0xBEDE {
        ext_elements_end(data, rtp_csrc_end(data) + 4, rtp_ext_end(data), false)
    } else if rtp_ext_profile(data) == 0x1000 {
        ext_elements_end(data, rtp_csrc_end(data) + 4, rtp_ext_end(data), true)
    } else {
        Some(rtp_ext_end(data))
    }
}

/// What reading an RTP packet gives: its sequence number and its payload (from
/// `rtp_payload_start`, without the padding the last byte counts when the padding bit is
/// set); `None` when it is too short or the padding count is larger than the payload.
pub open spec fn rtp_read_spec(data: Seq<u8>) -> Option<(u16, Seq<u8>)> {
    match rtp_payload_start(data) {
        None => None,
        Some(start) => {
            let seq = (data[2] as int * 256 + data[3] as int) as u16;
            let body = data.subrange(start, data.len() as int);
            if (data[0] / 32) % 2 == 1 {
                if body.len() > 0 && (body.last() as int) <= body.len() {
                    Some((seq, body.take(body.len() - body.last() as int)))
                } else {
                    None
                }
            } else {
                Some((seq, body))
            }
        },
    }
}

/// The elements of a one-byte or two-byte extension from `pos` stay within the packet.
fn ext_elements_fit(data: &[u8], pos: usize, end: usize, two_byte: bool) -> (r: bool)
    requires
        pos <= end <= data@.len(),
    ensures
        r == (ext_elements_end(data@, pos as int, end as int, two_byte) is Some),
{
    let mut p: usize = pos;
    while p < end
        invariant
            end <= data@.len(),
            p <= data@.len(),
            ext_elements_end(data@, p as int, end as int, two_byte) == ext_elements_end(data@, pos as int, end as int, two_byte),
        decreases data@.len() - p,
    {
        let b = data[p];
        if b == 0 {
            p = p + 1;
        } else if !two_byte {
            let len: usize = (b % 16) as usize + 1;
            if b / 16 == 15 {
                return true;
            }
            if len + 1 > data.len() - p {
                return false;
            }
            p = p + 1 + len;
        } else {
            if p + 1 >= data.len() {
                return false;
            }
            let len: usize = data[p + 1] as usize;
            if len + 2 > data.len() - p {
                return false;
            }
            p = p + 2 + len;
        }
    }
    true
}

/// Whether the rtp crate would run past the end of `data` reading its header extension.
fn rtp_overruns(data: &[u8]) -> (r: bool)
    ensures
        r == rtp_ext_overruns(data@),
{
    if data.len() < 4 || (data[0] / 16) % 2 == 0 {
        return false;
    }
    let start: usize = 12 + 4 * ((data[0] % 16) as usize);
    if data.len() < start + 4 {
        return false;
    }
    let profile: u32 = data[start] as u32 * 256 + data[start + 1] as u32;
    let end: usize = start + 4 + 4 * (data[start + 2] as usize * 256 + data[start + 3] as usize);
    if data.len() < end {
        return false;
    }
    if profile == 0xBEDE {
        !ext_elements_fit(data, start + 4, end, false)
    } else if profile == 0x1000 {
        !ext_elements_fit(data, start + 4, end, true)
    } else {
        false
    }
}

/// Wraps `rtp::packet::Packet::marshal` (`webrtc_util::Marshal`) on a packet whose header
/// has the given version and payload type and default values otherwise (no padding,
/// extension or contributing sources, marker clear). The crate writes the 12-byte header
/// big-endian and then the payload, and does not fail on such a packet.
#[verifier::external_body]
fn rtp_marshal(version: u8, pt: u8, seq: u16, ts: u32, ssrc: u32, payload: &[u8]) -> (r: Result<Vec<u8>, String>)
    requires
        version <= 3,
        pt <= 127,
    ensures
        r is Ok,
        r matches Ok(b) ==> b@ == rtp_bytes(version, pt, seq, ts, ssrc, payload@),
{
    let header = rtp::header::Header {
        version,
        payload_type: pt,
        sequence_number: seq,
        timestamp: ts,
        ssrc,
        ..Default::default()
    };
    let pkt = rtp::packet::Packet { header, payload: bytes::Bytes::copy_from_slice(payload) };
    pkt.marshal().map(|b| b.to_vec()).map_err(|e| format!("{}", e))
}

/// Wraps `rtp::packet::Packet::unmarshal` (`webrtc_util::Unmarshal`): the sequence number
/// and payload, as `rtp_read_spec` reads them (`Header::unmarshal` reads the extension
/// elements and leaves the reader where they stop). Packets whose extension elements run
/// past the end are left out: there the crate's reads (`get_u8`, `copy_to_bytes`) panic.
#[verifier::external_body]
fn rtp_unmarshal(data: &[u8]) -> (r: Option<(u16, Vec<u8>)>)
    requires
        !rtp_ext_overruns(data@),
    ensures
        match r {
            Some((s, p)) => rtp_read_spec(data@) == Some((s, p@)),
            None => rtp_read_spec(data@) is None,
        },
{
    let mut buf = data;
    rtp::packet::Packet::unmarshal(&mut buf).ok().map(|p| (p.header.sequence_number, p.payload.to_vec()))
}

/// A source id from `rand::random`; nothing is promised of it.
#[verifier::external_body]
fn random_ssrc() -> (r: u32) {
    rand::thread_rng().gen()
}

/// The sending side of a stream: the next sequence number and timestamp, the source id and
/// the counters.
pub struct AudioSender {
    pub seq: u16,
    pub ts: u32,
    pub ssrc: u32,
    pub stats: AudioStats,
}

impl AudioSender {
    /// Numbering from 0, a random source id, counters at zero from `now_ms`.
    pub fn new(now_ms: u64) -> (r: AudioSender)
        ensures
            r.seq == 0,
            r.ts == 0,
            r.stats == AudioStats::new_spec(now_ms),
    {
        AudioSender { seq: 0, ts: 0, ssrc: random_ssrc(), stats: AudioStats::new(now_ms) }
    }

    /// The RTP packet carrying the encoded frame `opus` of `frame_size` samples: it takes the
    /// current sequence number and timestamp, which then advance by one and by `frame_size`
    /// (both wrapping).
    pub fn packetize(&mut self, opus: &[u8], frame_size: u32) -> (r: Vec<u8>)
        ensures
            r@ == rtp_bytes(RTP_VERSION, RTP_PAYLOAD_TYPE, old(self).seq, old(self).ts, old(self).ssrc, opus@),
            final(self).seq == (old(self).seq + 1) % 65536,
            final(self).ts == (old(self).ts + frame_size) % 4294967296,
            final(self).ssrc == old(self).ssrc,
            final(self).stats == old(self).stats,
    {
        let r = match rtp_marshal(RTP_VERSION, RTP_PAYLOAD_TYPE, self.seq, self.ts, self.ssrc, opus) {
            Ok(b) => b,
            Err(_) => Vec::new(),
        };
        self.seq = self.seq.wrapping_add(1);
        self.ts = self.ts.wrapping_add(frame_size);
        r
    }
}

impl AudioStats {
    /// All counters at zero, counting from `now_ms`.
    pub open spec fn new_spec(now_ms: u64) -> AudioStats {
        AudioStats {
            packets_sent: 0,
            packets_received: 0,
            packets_lost: 0,
            bytes_sent: 0,
            bytes_received: 0,
            opus_bytes_sent: 0,
            start_ms: now_ms,
        }
    }
}

/// A datagram arrived at `now` (ns on the jitter buffer's clock). An RTP packet is counted
/// and its payload enters the jitter buffer under its sequence number; anything else
/// (including a packet whose header extension elements run past its end) changes nothing and
/// answers `false`.
pub fn receive_datagram(jitter: &mut JitterBuffer, stats: &mut AudioStats, datagram: &[u8], now: u64) -> (r: bool)
    requires
        old(jitter).wf(),
        old(stats).packets_received < u64::MAX,
        old(stats).bytes_received + datagram@.len() <= u64::MAX,
    ensures
        final(jitter).wf(),
        r == (!rtp_ext_overruns(datagram@) && rtp_read_spec(datagram@) is Some),
        !r ==> *final(jitter) == *old(jitter) && *final(stats) == *old(stats),
        r ==> ({
            let (seq, payload) = rtp_read_spec(datagram@)->0;
            &&& exists|d: Vec<u8>| d@ == payload && final(jitter).packets_spec()
                == #[trigger] placed(old(jitter).packets_spec(), seq, d, now).filter(fresh_at(now, old(jitter).depth_spec()))
            &&& final(jitter).last_spec() == old(jitter).last_spec()
            &&& final(jitter).depth_spec() == old(jitter).depth_spec()
            &&& *final(stats) == AudioStats {
                    packets_received: (old(stats).packets_received + 1) as u64,
                    bytes_received: (old(stats).bytes_received + datagram@.len()) as u64,
                    ..*old(stats)
                }
        }),
{
    if rtp_overruns(datagram) {
        return false;
    }
    let (seq, payload) = match rtp_unmarshal(datagram) {
        Some(p) => p,
        None => return false,
    };
    let ghost d = payload;
    let ghost before = jitter.packets_spec();
    let ghost depth = jitter.depth_spec();
    jitter.push_at(seq, payload, now);
    stats.record_received(datagram.len() as u64);
    let ghost read = rtp_read_spec(datagram@)->0;
    assert(d@ == read.1);
    assert(jitter.packets_spec() == placed(before, seq, d, now).filter(fresh_at(now, depth)));
    assert(seq == read.0);
    assert(exists|d2: Vec<u8>| d2@ == read.1 && jitter.packets_spec() == #[trigger] placed(before, read.0, d2, now).filter(fresh_at(now, depth)));
    assert(*stats == AudioStats {
        packets_received: (old(stats).packets_received + 1) as u64,
        bytes_received: (old(stats).bytes_received + datagram@.len()) as u64,
        ..*old(stats)
    });
    true
}

/// Appends decoded samples to the playback queue; beyond `PCM_QUEUE_CAP` frames the oldest
/// is dropped.
pub fn push_pcm(queue: &mut Vec<Vec<i16>>, pcm: Vec<i16>)
    ensures
        final(queue)@ == (if old(queue)@.len() + 1 > PCM_QUEUE_CAP {
            old(queue)@.push(pcm).drop_first()
        } else {
            old(queue)@.push(pcm)
        }),
{
    queue.push(pcm);
    if queue.len() > PCM_QUEUE_CAP {
        let ghost before = queue@;
        queue.remove(0);
        assert(queue@ =~= before.drop_first());
    }
}

/// The signed 16-bit sample whose little-endian bytes are `lo`, `hi`.
pub open spec fn le_i16(lo: u8, hi: u8) -> i16 {
    let v = lo as int + 256 * hi as int;
    if v >= 32768 { (v - 65536) as i16 } else { v as i16 }
}

/// Samples of little-endian 16-bit PCM; a trailing odd byte is ignored.
pub fn pcm_samples(bytes: &[u8]) -> (r: Vec<i16>)
    ensures
        r@.len() == bytes@.len() / 2,
        forall|i: int| 0 <= i < r@.len() ==> #[trigger] r@[i] == le_i16(bytes@[2 * i], bytes@[2 * i + 1]),
{
    let mut out: Vec<i16> = Vec::new();
    let n = bytes.len() / 2;
    let mut i: usize = 0;
    while i < n
        invariant
            n == bytes.len() / 2,
            i <= n,
            out@.len() == i,
            forall|j: int| 0 <= j < i ==> #[trigger] out@[j] == le_i16(bytes@[2 * j], bytes@[2 * j + 1]),
        decreases n - i,
    {
        assert(2 * i + 1 < bytes.len());
        let k: usize = i + i;
        let lo = bytes[k];
        let hi = bytes[k + 1];
        let v: i32 = lo as i32 + 256 * hi as i32;
        let s: i16 = if v >= 32768 { (v - 65536) as i16 } else { v as i16 };
        out.push(s);
        i = i + 1;
    }
    out
}

/// The `DATA_MEDIA_CONTROL` payload that starts (`audioStart`, with the stream's format) or
/// ends an audio stream.
pub open spec fn audio_control_text(action: Seq<char>, sample_rate: i32, channels: i32) -> Seq<char> {
    if action == "audioStart"@ {
        "{\"type\":\"MEDIA_CONTROL\",\"action\":\""@ + action + "\",\"sampleRate\":"@
            + crate::text::dec_int(sample_rate as int) + ",\"channels\":"@ + crate::text::dec_int(channels as int)
            + ",\"codec\":\"opus\"}"@
    } else {
        "{\"type\":\"MEDIA_CONTROL\",\"action\":\""@ + action + "\"}"@
    }
}

/// The control payload for `action`.
pub fn audio_control_payload(action: &str, sample_rate: i32, channels: i32) -> (r: String)
    ensures
        r@ == audio_control_text(action@, sample_rate, channels),
{
    let mut out = crate::text::owned("{\"type\":\"MEDIA_CONTROL\",\"action\":\"");
    crate::text::push_str(&mut out, action);
    if crate::text::str_eq(action, "audioStart") {
        crate::text::push_str(&mut out, "\",\"sampleRate\":");
        crate::text::push_int(&mut out, sample_rate as i64);
        crate::text::push_str(&mut out, ",\"channels\":");
        crate::text::push_int(&mut out, channels as i64);
        crate::text::push_str(&mut out, ",\"codec\":\"opus\"}");
    } else {
        crate::text::push_str(&mut out, "\"}");
    }
    out
}

/// Target bit rate (bit/s) of the Opus encoder.
pub const OPUS_BITRATE: i32 = 64000;

/// Samples per channel in one encoded frame (20 ms at 48 kHz).
pub const OPUS_FRAME_SIZE: i32 = 960;

/// Complexity setting of the Opus encoder.
pub const OPUS_COMPLEXITY: i32 = 5;

/// Samples per channel in one decoded 20 ms frame at `sample_rate` (the product with 20
/// divided by 1000, rounded toward zero); `requires` keeps the product within `i32`.
pub fn decoder_frame_size(sample_rate: i32) -> (r: i32)
    requires
        -107_374_182 <= sample_rate <= 107_374_182,
    ensures
        r == (if sample_rate >= 0 { sample_rate * 20 / 1000 } else { -((-sample_rate * 20) / 1000) }),
{
    let p: i32 = sample_rate * 20;
    if p >= 0 {
        p / 1000
    } else {
        let q: i32 = -p;
        -(q / 1000)
    }
}

/// How many of `pcm_len` interleaved samples one encoder call takes: a whole frame of
/// `frame_size` samples on each of `channels` channels when there are that many, else all.
/// `requires` keeps the frame's sample count within `usize`.
pub fn encode_chunk_len(pcm_len: usize, frame_size: i32, channels: i32) -> (r: usize)
    requires
        0 <= frame_size,
        0 <= channels,
        frame_size * channels <= usize::MAX,
    ensures
        r == (if pcm_len >= frame_size * channels { (frame_size * channels) as usize } else { pcm_len }),
{
    let f: usize = frame_size as usize;
    let c: usize = channels as usize;
    let frame_samples: usize = f * c;
    if pcm_len >= frame_samples { frame_samples } else { pcm_len }
}

/// Law: a packet the stream sends reads back as its sequence number and payload.
pub proof fn law_rtp_roundtrip(seq: u16, ts: u32, ssrc: u32, payload: Seq<u8>)
    ensures
        !has_extension(rtp_bytes(RTP_VERSION, RTP_PAYLOAD_TYPE, seq, ts, ssrc, payload)),
        rtp_read_spec(rtp_bytes(RTP_VERSION, RTP_PAYLOAD_TYPE, seq, ts, ssrc, payload)) == Some((seq, payload)),
{
    let b = rtp_bytes(RTP_VERSION, RTP_PAYLOAD_TYPE, seq, ts, ssrc, payload);
    assert(b[0] == 128u8);
    assert(b[2] == (seq / 256) as u8);
    assert(b[3] == (seq % 256) as u8);
    assert(b.subrange(12, b.len() as int) =~= payload);
}

/// Law: the playback queue never holds more than `PCM_QUEUE_CAP` frames once it is within
/// that bound, and the newest frame is always kept.
pub proof fn law_pcm_queue_bounded(q: Seq<Vec<i16>>, pcm: Vec<i16>)
    requires
        q.len() <= PCM_QUEUE_CAP,
    ensures
        ({
            let after = if q.len() + 1 > PCM_QUEUE_CAP { q.push(pcm).drop_first() } else { q.push(pcm) };
            &&& after.len() <= PCM_QUEUE_CAP
            &&& after.last() == pcm
        }),
{
}

} // verus!
