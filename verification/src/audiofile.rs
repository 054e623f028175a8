//! Recognising an uploaded audio file by its bytes, and re-framing the AAC inside an
//! MP4 (fragmented ones included) as a self-framing ADTS stream.
//!
//! The container is sniffed from the bytes, never the file name: voice notes often
//! arrive with a bogus `.jpg` or `.dat` name while the bytes are still Opus.
use vstd::prelude::*;
use std::io::Cursor;
use ogg::PacketReader;

verus! {

/// Whether `b` holds the bytes `p` from index `at` on.
pub open spec fn has_at(b: Seq<u8>, at: int, p: Seq<u8>) -> bool {
    0 <= at && at + p.len() <= b.len() && b.subrange(at, at + p.len()) == p
}

/// Whether `b` starts with `p`.
pub open spec fn starts(b: Seq<u8>, p: Seq<u8>) -> bool {
    has_at(b, 0, p)
}

/// Checks `has_at(b, at, p)`.
fn bytes_at(b: &[u8], at: usize, p: &[u8]) -> (r: bool)
    ensures
        r == has_at(b@, at as int, p@),
{
    if at > b.len() || p.len() > b.len() - at {
        return false;
    }
    let bl = b.len();
    let mut i: usize = 0;
    while i < p.len()
        invariant
            bl == b@.len(),
            at + p@.len() <= b@.len(),
            i <= p@.len(),
            forall|j: int| 0 <= j < i ==> b@[at + j] == p@[j],
        decreases p@.len() - i,
    {
        assert(at + i < bl);
        if b[at + i] != p[i] {
            assert(b@.subrange(at as int, at + p@.len())[i as int] != p@[i as int]);
            return false;
        }
        i = i + 1;
    }
    assert(b@.subrange(at as int, at + p@.len()) =~= p@);
    true
}

pub open spec fn jpeg_magic() -> Seq<u8> {
    seq![0xFFu8, 0xD8, 0xFF]
}

/// `\x89PNG\r\n\x1a\n`.
pub open spec fn png_magic() -> Seq<u8> {
    seq![0x89u8, 0x50, 0x4E, 0x47, 0x0D, 0x0A, 0x1A, 0x0A]
}

/// `GIF87a`.
pub open spec fn gif87_magic() -> Seq<u8> {
    seq![0x47u8, 0x49, 0x46, 0x38, 0x37, 0x61]
}

/// `GIF89a`.
pub open spec fn gif89_magic() -> Seq<u8> {
    seq![0x47u8, 0x49, 0x46, 0x38, 0x39, 0x61]
}

/// `RIFF`.
pub open spec fn riff_magic() -> Seq<u8> {
    seq![0x52u8, 0x49, 0x46, 0x46]
}

/// `WEBP`.
pub open spec fn webp_magic() -> Seq<u8> {
    seq![0x57u8, 0x45, 0x42, 0x50]
}

/// The header of a Windows icon.
pub open spec fn icon_magic() -> Seq<u8> {
    seq![0x00u8, 0x00, 0x01, 0x00]
}

/// `OggS`.
pub open spec fn ogg_magic() -> Seq<u8> {
    seq![0x4Fu8, 0x67, 0x67, 0x53]
}

/// `OpusHead`.
pub open spec fn opus_head_magic() -> Seq<u8> {
    seq![0x4Fu8, 0x70, 0x75, 0x73, 0x48, 0x65, 0x61, 0x64]
}

/// `OpusTags`.
pub open spec fn opus_tags_magic() -> Seq<u8> {
    seq![0x4Fu8, 0x70, 0x75, 0x73, 0x54, 0x61, 0x67, 0x73]
}

/// `ftyp`.
pub open spec fn ftyp_magic() -> Seq<u8> {
    seq![0x66u8, 0x74, 0x79, 0x70]
}

/// The image format that `b` starts like, as named to the user, if any.
pub open spec fn image_kind_spec(b: Seq<u8>) -> Option<Seq<char>> {
    if starts(b, jpeg_magic()) {
        Some("a JPEG image"@)
    } else if starts(b, png_magic()) {
        Some("a PNG image"@)
    } else if starts(b, gif87_magic()) || starts(b, gif89_magic()) {
        Some("a GIF image"@)
    } else if b.len() >= 12 && has_at(b, 0, riff_magic()) && has_at(b, 8, webp_magic()) {
        Some("a WebP image"@)
    } else if starts(b, icon_magic()) {
        Some("an icon"@)
    } else {
        None
    }
}

pub open spec fn opt_static_view(o: Option<&'static str>) -> Option<Seq<char>> {
    match o {
        Some(s) => Some(s@),
        None => None,
    }
}

/// The kind of image `b` holds (JPEG, PNG, GIF, WebP or icon), so that a picture gets
/// a helpful message rather than a decode failure.
pub fn image_kind(b: &[u8]) -> (r: Option<&'static str>)
    ensures
        opt_static_view(r) == image_kind_spec(b@),
{
    let jpeg: [u8; 3] = [0xFF, 0xD8, 0xFF];
    let png: [u8; 8] = [0x89, 0x50, 0x4E, 0x47, 0x0D, 0x0A, 0x1A, 0x0A];
    let gif87: [u8; 6] = [0x47, 0x49, 0x46, 0x38, 0x37, 0x61];
    let gif89: [u8; 6] = [0x47, 0x49, 0x46, 0x38, 0x39, 0x61];
    let riff: [u8; 4] = [0x52, 0x49, 0x46, 0x46];
    let webp: [u8; 4] = [0x57, 0x45, 0x42, 0x50];
    let icon: [u8; 4] = [0x00, 0x00, 0x01, 0x00];
    assert(jpeg@ =~= jpeg_magic());
    assert(png@ =~= png_magic());
    assert(gif87@ =~= gif87_magic());
    assert(gif89@ =~= gif89_magic());
    assert(riff@ =~= riff_magic());
    assert(webp@ =~= webp_magic());
    assert(icon@ =~= icon_magic());
    if bytes_at(b, 0, &jpeg) {
        Some("a JPEG image")
    } else if bytes_at(b, 0, &png) {
        Some("a PNG image")
    } else if bytes_at(b, 0, &gif87) || bytes_at(b, 0, &gif89) {
        Some("a GIF image")
    } else if b.len() >= 12 && bytes_at(b, 0, &riff) && bytes_at(b, 8, &webp) {
        Some("a WebP image")
    } else if bytes_at(b, 0, &icon) {
        Some("an icon")
    } else {
        None
    }
}

/// Ogg-Opus: an `OggS` page whose first packet, `OpusHead`, starts within the first
/// 128 positions.
pub open spec fn is_ogg_opus_spec(b: Seq<u8>) -> bool {
    &&& starts(b, ogg_magic())
    &&& exists|i: int| 0 <= i < 128 && #[trigger] has_at(b, i, opus_head_magic())
}

/// Whether `b` is an Ogg stream carrying Opus.
pub fn is_ogg_opus(b: &[u8]) -> (r: bool)
    ensures
        r == is_ogg_opus_spec(b@),
{
    let ogg: [u8; 4] = [0x4F, 0x67, 0x67, 0x53];
    let head: [u8; 8] = [0x4F, 0x70, 0x75, 0x73, 0x48, 0x65, 0x61, 0x64];
    assert(ogg@ =~= ogg_magic());
    assert(head@ =~= opus_head_magic());
    if !bytes_at(b, 0, &ogg) {
        return false;
    }
    let mut i: usize = 0;
    while i < 128
        invariant
            i <= 128,
            head@ == opus_head_magic(),
            starts(b@, ogg_magic()),
            forall|j: int| 0 <= j < i ==> !#[trigger] has_at(b@, j, opus_head_magic()),
        decreases 128 - i,
    {
        if bytes_at(b, i, &head) {
            assert(has_at(b@, i as int, opus_head_magic()));
            return true;
        }
        i = i + 1;
    }
    false
}

/// MP4 / ISO-BMFF: an `ftyp` box right at the start.
pub open spec fn is_mp4_spec(b: Seq<u8>) -> bool {
    b.len() >= 12 && has_at(b, 4, ftyp_magic())
}

/// Whether `b` is an MP4 (ISO base media) file.
pub fn is_mp4(b: &[u8]) -> (r: bool)
    ensures
        r == is_mp4_spec(b@),
{
    let ftyp: [u8; 4] = [0x66, 0x74, 0x79, 0x70];
    assert(ftyp@ =~= ftyp_magic());
    b.len() >= 12 && bytes_at(b, 4, &ftyp)
}


/// The 4-bit ADTS sampling-frequency index of a rate in Hz (44.1 kHz's index for a rate
/// that has none).
pub open spec fn adts_freq_index_spec(hz: u32) -> u8 {
    if hz == 96000 {
        0
    } else if hz == 88200 {
        1
    } else if hz == 64000 {
        2
    } else if hz == 48000 {
        3
    } else if hz == 44100 {
        4
    } else if hz == 32000 {
        5
    } else if hz == 24000 {
        6
    } else if hz == 22050 {
        7
    } else if hz == 16000 {
        8
    } else if hz == 12000 {
        9
    } else if hz == 11025 {
        10
    } else if hz == 8000 {
        11
    } else if hz == 7350 {
        12
    } else {
        4
    }
}

/// The ADTS sampling-frequency index for a rate in Hz.
pub fn adts_freq_index(hz: u32) -> (r: u8)
    ensures
        r == adts_freq_index_spec(hz),
        r <= 12,
{
    match hz {
        96000 => 0,
        88200 => 1,
        64000 => 2,
        48000 => 3,
        44100 => 4,
        32000 => 5,
        24000 => 6,
        22050 => 7,
        16000 => 8,
        12000 => 9,
        11025 => 10,
        8000 => 11,
        7350 => 12,
        _ => 4,
    }
}

/// The rate in Hz of an MPEG-4 sampling-frequency index (`SampleFreqIndex::freq`).
pub open spec fn index_freq_spec(idx: u8) -> u32 {
    if idx == 0 {
        96000
    } else if idx == 1 {
        88200
    } else if idx == 2 {
        64000
    } else if idx == 3 {
        48000
    } else if idx == 4 {
        44100
    } else if idx == 5 {
        32000
    } else if idx == 6 {
        24000
    } else if idx == 7 {
        22050
    } else if idx == 8 {
        16000
    } else if idx == 9 {
        12000
    } else if idx == 10 {
        11025
    } else if idx == 11 {
        8000
    } else {
        7350
    }
}

/// The rate in Hz of a sampling-frequency index (0 to 12).
pub fn index_freq(idx: u8) -> (r: u32)
    requires
        idx <= 12,
    ensures
        r == index_freq_spec(idx),
{
    match idx {
        0 => 96000,
        1 => 88200,
        2 => 64000,
        3 => 48000,
        4 => 44100,
        5 => 32000,
        6 => 24000,
        7 => 22050,
        8 => 16000,
        9 => 12000,
        10 => 11025,
        11 => 8000,
        _ => 7350,
    }
}

/// The two-bit ADTS profile of an MPEG-4 audio object type: the type less one, AAC-LC
/// (type 2) when the type is unknown.
pub open spec fn profile_bits_spec(object_type: Option<u8>) -> u8 {
    let o: u8 = match object_type {
        Some(t) => t,
        None => 2,
    };
    (if o > 0 {
        (o - 1) as u8
    } else {
        0u8
    }) & 3
}

/// The ADTS profile bits for an audio object type.
pub fn profile_bits(object_type: Option<u8>) -> (r: u8)
    ensures
        r == profile_bits_spec(object_type),
        r <= 3,
{
    let o: u8 = match object_type {
        Some(t) => t,
        None => 2,
    };
    let r = o.saturating_sub(1) & 3;
    assert(r <= 3) by (bit_vector)
        requires
            r == o.saturating_sub(1) & 3,
    ;
    r
}

/// The seven bytes of an ADTS header without CRC: sync word, MPEG-4 layer 0, the
/// profile, frequency index and channel configuration, the frame length (header
/// included) over 13 bits, buffer fullness 0x7FF and one raw data block.
pub open spec fn adts_header_spec(profile: u8, freq: u8, chan: u8, frame_len: usize) -> Seq<u8> {
    seq![
        0xFFu8,
        0xF1u8,
        (profile << 6u8) | ((freq & 0xFu8) << 2u8) | ((chan >> 2u8) & 0x1u8),
        ((chan & 0x3u8) << 6u8) | (((frame_len >> 11usize) as u8) & 0x3u8),
        (frame_len >> 3usize) as u8,
        (((frame_len as u8) & 0x7u8) << 5u8) | 0x1Fu8,
        0xFCu8,
    ]
}

/// The ADTS header of a frame of `frame_len` bytes.
pub fn adts_header(profile: u8, freq: u8, chan: u8, frame_len: usize) -> (r: Vec<u8>)
    ensures
        r@ == adts_header_spec(profile, freq, chan, frame_len),
{
    let mut r: Vec<u8> = Vec::new();
    r.push(0xFF);
    r.push(0xF1);
    r.push((profile << 6) | ((freq & 0xF) << 2) | ((chan >> 2) & 0x1));
    r.push(((chan & 0x3) << 6) | ((frame_len >> 11) as u8 & 0x3));
    r.push((frame_len >> 3) as u8);
    r.push(((frame_len as u8 & 0x7) << 5) | 0x1F);
    r.push(0xFC);
    assert(r@ =~= adts_header_spec(profile, freq, chan, frame_len));
    r
}

/// An ADTS header reads back what it was written with: the sync word and layer, the
/// profile, the frequency index, the low three bits of the channel configuration, the
/// frame length, full buffer and a single raw data block.
pub proof fn law_adts_header_fields(profile: u8, freq: u8, chan: u8, frame_len: usize)
    requires
        profile <= 3,
        freq <= 15,
        frame_len < 8192,
    ensures
        ({
            let h = adts_header_spec(profile, freq, chan, frame_len);
            &&& h.len() == 7
            &&& h[0] == 0xFF
            &&& h[1] & 0xF6 == 0xF0
            &&& h[1] & 1 == 1
            &&& h[2] >> 6u8 == profile
            &&& (h[2] >> 2u8) & 0xF == freq
            &&& ((h[2] & 1) << 2u8) | (h[3] >> 6u8) == chan & 7
            &&& (((h[3] & 3) as usize) << 11usize) | ((h[4] as usize) << 3usize) | ((h[5]
                >> 5u8) as usize) == frame_len
            &&& (((h[5] & 0x1F) as u16) << 6u16) | ((h[6] >> 2u8) as u16) == 0x7FF
            &&& h[6] & 3 == 0
        }),
{
    let h = adts_header_spec(profile, freq, chan, frame_len);
    let b2 = h[2];
    let b3 = h[3];
    let b4 = h[4];
    let b5 = h[5];
    assert(b2 >> 6u8 == profile && (b2 >> 2u8) & 0xF == freq) by (bit_vector)
        requires
            profile <= 3,
            freq <= 15,
            b2 == (profile << 6u8) | ((freq & 0xFu8) << 2u8) | ((chan >> 2u8) & 0x1u8),
    ;
    assert(((b2 & 1) << 2u8) | (b3 >> 6u8) == chan & 7) by (bit_vector)
        requires
            b2 == (profile << 6u8) | ((freq & 0xFu8) << 2u8) | ((chan >> 2u8) & 0x1u8),
            b3 == ((chan & 0x3u8) << 6u8) | (((frame_len >> 11usize) as u8) & 0x3u8),
    ;
    assert((((b3 & 3) as usize) << 11usize) | ((b4 as usize) << 3usize) | ((b5 >> 5u8) as usize)
        == frame_len) by (bit_vector)
        requires
            frame_len < 8192,
            b3 == ((chan & 0x3u8) << 6u8) | (((frame_len >> 11usize) as u8) & 0x3u8),
            b4 == (frame_len >> 3usize) as u8,
            b5 == (((frame_len as u8) & 0x7u8) << 5u8) | 0x1Fu8,
    ;
    assert((((b5 & 0x1F) as u16) << 6u16) | ((0xFCu8 >> 2u8) as u16) == 0x7FF) by (bit_vector)
        requires
            b5 == (((frame_len as u8) & 0x7u8) << 5u8) | 0x1Fu8,
    ;
    assert(0xF1u8 & 0xF6 == 0xF0 && 0xF1u8 & 1 == 1 && 0xFCu8 & 3 == 0) by (bit_vector);
}

/// The ADTS frame of one raw AAC access unit: header and payload, or nothing when the
/// frame would not fit the 13-bit length field.
pub open spec fn adts_frame(payload: Seq<u8>, profile: u8, freq: u8, chan: u8) -> Seq<u8> {
    if payload.len() + 7 < 8192 {
        adts_header_spec(profile, freq, chan, (payload.len() + 7) as usize) + payload
    } else {
        seq![]
    }
}

/// The ADTS stream of a run of access units, in order.
pub open spec fn adts_stream(payloads: Seq<Seq<u8>>, profile: u8, freq: u8, chan: u8) -> Seq<u8>
    decreases payloads.len(),
{
    if payloads.len() == 0 {
        seq![]
    } else {
        adts_stream(payloads.drop_last(), profile, freq, chan) + adts_frame(
            payloads.last(),
            profile,
            freq,
            chan,
        )
    }
}

/// Appends the ADTS frame of `payload` to `out`.
pub fn push_adts_frame(out: &mut Vec<u8>, payload: &[u8], profile: u8, freq: u8, chan: u8)
    ensures
        final(out)@ == old(out)@ + adts_frame(payload@, profile, freq, chan),
{
    if payload.len() >= 8192 - 7 {
        assert(adts_frame(payload@, profile, freq, chan) =~= seq![]);
        assert(old(out)@ + seq![] =~= old(out)@);
        return;
    }
    let header = adts_header(profile, freq, chan, payload.len() + 7);
    let ghost start = out@;
    let mut i: usize = 0;
    while i < header.len()
        invariant
            i <= header@.len(),
            out@ == start + header@.take(i as int),
        decreases header@.len() - i,
    {
        out.push(header[i]);
        assert(header@.take(i + 1) =~= header@.take(i as int).push(header@[i as int]));
        i = i + 1;
    }
    let ghost mid = out@;
    let mut j: usize = 0;
    while j < payload.len()
        invariant
            j <= payload@.len(),
            out@ == mid + payload@.take(j as int),
        decreases payload@.len() - j,
    {
        out.push(payload[j]);
        assert(payload@.take(j + 1) =~= payload@.take(j as int).push(payload@[j as int]));
        j = j + 1;
    }
    assert(header@.take(header@.len() as int) =~= header@);
    assert(payload@.take(payload@.len() as int) =~= payload@);
    assert(out@ =~= old(out)@ + adts_frame(payload@, profile, freq, chan));
}


/// The packets of an Ogg stream, read one at a time (an `ogg::PacketReader` over the
/// stream's bytes; Verus does not take a declaration of that type, whose parameter is
/// bounded by `Read + Seek`).
#[verifier::external_body]
pub struct OggPackets {
    reader: PacketReader<Cursor<Vec<u8>>>,
}

/// What the call of `PacketReader::read_packet` that follows `k` earlier ones gives on a
/// reader over the bytes `b`: the data of the packet, `None` at the end of the stream, or
/// the reader's error as text.
pub uninterp spec fn ogg_packet(b: Seq<u8>, k: nat) -> Result<Option<Seq<u8>>, Seq<char>>;

/// A reader of the packets of the Ogg stream `bytes`, and how many it has read. Only
/// `open_ogg` makes one, with the bytes it handed the reader and none read yet.
struct OggStream {
    packets: OggPackets,
    bytes: Ghost<Seq<u8>>,
    read: Ghost<nat>,
}

impl View for OggStream {
    type V = (Seq<u8>, nat);

    closed spec fn view(&self) -> (Seq<u8>, nat) {
        (self.bytes@, self.read@)
    }
}

/// `PacketReader::new` over the whole of `bytes`.
#[verifier::external_body]
fn ogg_packets(bytes: &[u8]) -> (r: OggPackets) {
    OggPackets { reader: PacketReader::new(Cursor::new(bytes.to_vec())) }
}

/// A packet reader over `bytes` that has read nothing yet.
fn open_ogg(bytes: &[u8]) -> (r: OggStream)
    ensures
        r@ == (bytes@, 0nat),
{
    OggStream { packets: ogg_packets(bytes), bytes: Ghost(bytes@), read: Ghost(0) }
}

pub open spec fn packet_view(r: Result<Option<Vec<u8>>, String>) -> Result<Option<Seq<u8>>, Seq<char>> {
    match r {
        Ok(Some(p)) => Ok(Some(p@)),
        Ok(None) => Ok(None),
        Err(e) => Err(e@),
    }
}

/// Whether each of the first `k` reads of the Ogg stream `b` gave a packet.
pub open spec fn all_packets(b: Seq<u8>, k: nat) -> bool {
    forall|j: nat| j < k ==> (#[trigger] ogg_packet(b, j)) matches Ok(Some(_))
}

/// `PacketReader::read_packet`: the next packet's data, `None` at the end of the stream,
/// or the reader's error as text, as `ogg_packet` names it; the reader has then read one
/// more. The reader ends a packet where a page's segment table holds a lacing value
/// below 255, a byte of the stream that ends no other packet; so when every read so far
/// gave a packet, a read that gives one more has had fewer reads before it than the
/// stream has bytes.
#[verifier::external_body]
fn ogg_next_packet(s: &mut OggStream) -> (r: Result<Option<Vec<u8>>, String>)
    ensures
        final(s)@ == (old(s)@.0, old(s)@.1 + 1),
        packet_view(r) == ogg_packet(old(s)@.0, old(s)@.1),
        (all_packets(old(s)@.0, old(s)@.1) && (packet_view(r) matches Ok(Some(_)))) ==> old(s)@.1
            < old(s)@.0.len(),
{
    match s.packets.reader.read_packet() {
        Ok(Some(p)) => Ok(Some(p.data)),
        Ok(None) => Ok(None),
        Err(e) => Err(e.to_string()),
    }
}

/// How the access units of an MP4 audio track are framed as ADTS.
pub struct AacParams {
    /// The track's rate in Hz.
    pub sample_rate: u32,
    /// The ADTS frequency index of that rate.
    pub freq: u8,
    /// The ADTS profile bits.
    pub profile: u8,
    /// The channel configuration written into each header.
    pub chan: u8,
    /// The channel count to fall back on when the decoder reports none.
    pub channels: u16,
}

/// The ADTS framing of a track with the given sampling-frequency index, audio object
/// type and channel configuration, as read from the file. Without a frequency index of
/// the MPEG-4 table (0 to 12) there is no rate to decode at.
pub fn aac_params(freq_index: Option<u8>, object_type: Option<u8>, channel_config: Option<u8>) -> (r:
    Result<AacParams, String>)
    ensures
        !(freq_index matches Some(i) && i <= 12) ==> (r matches Err(e) && e@
            == "unsupported AAC sample rate in this file"@),
        freq_index matches Some(i) ==> (i <= 12 ==> (r matches Ok(p) && {
            let chan: u8 = match channel_config {
                Some(c) => c,
                None => 1,
            };
            &&& p.sample_rate == index_freq_spec(i)
            &&& p.freq == adts_freq_index_spec(p.sample_rate)
            &&& p.profile == profile_bits_spec(object_type)
            &&& p.profile <= 3
            &&& p.chan == chan
            &&& p.channels == if chan >= 1 {
                chan as u16
            } else {
                1u16
            }
        })),
{
    let idx = match freq_index {
        Some(i) if i <= 12 => i,
        _ => {
            return Err(String::from_str("unsupported AAC sample rate in this file"));
        },
    };
    let sample_rate = index_freq(idx);
    let freq = adts_freq_index(sample_rate);
    let profile = profile_bits(object_type);
    let chan: u8 = match channel_config {
        Some(c) => c,
        None => 1,
    };
    let channels: u16 = if chan >= 1 {
        chan as u16
    } else {
        1
    };
    Ok(AacParams { sample_rate, freq, profile, chan, channels })
}

/// An AAC track re-framed as ADTS, with the rate and channel count to fall back on.
pub struct AdtsStream {
    pub bytes: Vec<u8>,
    pub sample_rate: u32,
    pub channels: u16,
}

impl AdtsStream {
    /// The rate and channel count of the decoded audio: what the decoder reported,
    /// or the track's own where it reported zero.
    pub fn format_after_decode(&self, rate: u32, channels: u16) -> (r: (u32, u16))
        ensures
            r.0 == if rate > 0 {
                rate
            } else {
                self.sample_rate
            },
            r.1 == if channels > 0 {
                channels
            } else {
                self.channels
            },
    {
        (if rate > 0 {
            rate
        } else {
            self.sample_rate
        }, if channels > 0 {
            channels
        } else {
            self.channels
        })
    }
}

/// What the MP4 reader gives of the audio track to re-frame: its sampling-frequency
/// index, MPEG-4 audio object type and channel configuration, each as far as it can be
/// read, and the access units of its samples that can be read, in order.
pub struct Mp4AudioTrack {
    pub freq_index: Option<u8>,
    pub object_type: Option<u8>,
    pub channel_config: Option<u8>,
    pub units: Vec<Vec<u8>>,
}

/// An audio track re-framed as ADTS: the stream, the track's rate and its channel count;
/// or why there is none (no usable rate, or no frame at all).
pub open spec fn track_adts(
    freq_index: Option<u8>,
    object_type: Option<u8>,
    channel_config: Option<u8>,
    units: Seq<Seq<u8>>,
) -> Result<(Seq<u8>, u32, u16), Seq<char>> {
    match freq_index {
        Some(i) if i <= 12 => {
            let rate = index_freq_spec(i);
            let chan: u8 = match channel_config {
                Some(c) => c,
                None => 1,
            };
            let channels: u16 = if chan >= 1 {
                chan as u16
            } else {
                1
            };
            let adts = adts_stream(
                units,
                profile_bits_spec(object_type),
                adts_freq_index_spec(rate),
                chan,
            );
            if adts.len() == 0 {
                Err("no AAC audio frames found in this file"@)
            } else {
                Ok((adts, rate, channels))
            }
        },
        _ => Err("unsupported AAC sample rate in this file"@),
    }
}

pub open spec fn adts_view(r: Result<AdtsStream, String>) -> Result<(Seq<u8>, u32, u16), Seq<char>> {
    match r {
        Ok(s) => Ok((s.bytes@, s.sample_rate, s.channels)),
        Err(e) => Err(e@),
    }
}

/// Re-frames the AAC of an MP4 audio track (fragmented files too) as an ADTS stream,
/// which an AAC decoder reads without the MP4 index: each access unit behind a header
/// with the track's profile, rate and channels; units too large for an ADTS frame are
/// left out.
pub fn adts_from_track(track: &Mp4AudioTrack) -> (r: Result<AdtsStream, String>)
    ensures
        adts_view(r) == track_adts(
            track.freq_index,
            track.object_type,
            track.channel_config,
            track.units@.map_values(|u: Vec<u8>| u@),
        ),
{
    let ghost units = track.units@.map_values(|u: Vec<u8>| u@);
    let params = match aac_params(track.freq_index, track.object_type, track.channel_config) {
        Ok(p) => p,
        Err(e) => {
            return Err(e);
        },
    };
    let mut adts: Vec<u8> = Vec::new();
    let mut n: usize = 0;
    while n < track.units.len()
        invariant
            n <= track.units@.len(),
            units == track.units@.map_values(|u: Vec<u8>| u@),
            params.profile <= 3,
            adts@ == adts_stream(units.take(n as int), params.profile, params.freq, params.chan),
        decreases track.units.len() - n,
    {
        push_adts_frame(&mut adts, track.units[n].as_slice(), params.profile, params.freq, params.chan);
        assert(units.take(n + 1).drop_last() =~= units.take(n as int));
        assert(units.take(n + 1).last() == track.units@[n as int]@);
        n = n + 1;
    }
    assert(units.take(n as int) =~= units);
    if adts.len() == 0 {
        return Err(String::from_str("no AAC audio frames found in this file"));
    }
    Ok(AdtsStream { bytes: adts, sample_rate: params.sample_rate, channels: params.channels })
}

/// The channel count that Opus decoding uses for a stream with `OpusHead` packet
/// `head`: stereo when the header's channel byte (index 9) says two or more, else mono
/// (also when the header is too short to say).
pub open spec fn opus_channels_spec(head: Seq<u8>) -> u16 {
    if head.len() > 9 && head[9] >= 2 {
        2
    } else {
        1
    }
}

/// The decoding channel count of an `OpusHead` packet.
pub fn opus_channels(head: &[u8]) -> (r: u16)
    ensures
        r == opus_channels_spec(head@),
{
    if head.len() > 9 && head[9] >= 2 {
        2
    } else {
        1
    }
}

/// The packets of an Ogg-Opus stream to decode, and the channel count to decode them with.
pub struct OpusStream {
    pub channels: u16,
    pub packets: Vec<Vec<u8>>,
}

/// Reading packets `k`, `k + 1`, ... of the Ogg stream `b`: the position and data of the
/// first `OpusHead` packet; an error when the stream ends before one, or the reader fails.
/// (No read at or past the stream's length gives a packet: see `ogg_next_packet`.)
pub open spec fn find_head(b: Seq<u8>, k: nat) -> Result<(nat, Seq<u8>), Seq<char>>
    decreases b.len() - k,
{
    match ogg_packet(b, k) {
        Err(e) => Err(e),
        Ok(None) => Err("not a valid Opus stream"@),
        Ok(Some(p)) => if starts(p, opus_head_magic()) {
            Ok((k, p))
        } else if k < b.len() {
            find_head(b, k + 1)
        } else {
            Err("not a valid Opus stream"@)
        },
    }
}

/// Reading packets `k`, `k + 1`, ... of the Ogg stream `b` to its end: the packets but the
/// `OpusTags` ones, in order; an error when the reader fails.
pub open spec fn audio_packets(b: Seq<u8>, k: nat) -> Result<Seq<Seq<u8>>, Seq<char>>
    decreases b.len() - k,
{
    match ogg_packet(b, k) {
        Err(e) => Err(e),
        Ok(None) => Ok(seq![]),
        Ok(Some(p)) => {
            let rest = if k < b.len() {
                audio_packets(b, k + 1)
            } else {
                Ok(seq![])
            };
            match rest {
                Err(e) => Err(e),
                Ok(r) => Ok(
                    if starts(p, opus_tags_magic()) {
                        r
                    } else {
                        seq![p] + r
                    },
                ),
            }
        },
    }
}

/// What demuxing the Ogg-Opus stream `b` gives: the channel count its `OpusHead` gives
/// and the audio packets after it, or why it fails.
pub open spec fn opus_demux(b: Seq<u8>) -> Result<(u16, Seq<Seq<u8>>), Seq<char>> {
    match find_head(b, 0) {
        Err(e) => Err(e),
        Ok((k, head)) => match audio_packets(b, k + 1) {
            Err(e) => Err(e),
            Ok(ps) => Ok((opus_channels_spec(head), ps)),
        },
    }
}

pub open spec fn opus_view(r: Result<OpusStream, String>) -> Result<(u16, Seq<Seq<u8>>), Seq<char>> {
    match r {
        Ok(s) => Ok((s.channels, s.packets@.map_values(|p: Vec<u8>| p@))),
        Err(e) => Err(e@),
    }
}

/// Demuxes an Ogg-Opus stream: skips to the `OpusHead` packet, takes the channel count
/// from it, then keeps every later packet but the `OpusTags` comment header. Fails when
/// the stream ends before an `OpusHead`, or the reader fails.
pub fn opus_stream(bytes: &[u8]) -> (r: Result<OpusStream, String>)
    ensures
        opus_view(r) == opus_demux(bytes@),
{
    let head_tag: [u8; 8] = [0x4F, 0x70, 0x75, 0x73, 0x48, 0x65, 0x61, 0x64];
    let tags_tag: [u8; 8] = [0x4F, 0x70, 0x75, 0x73, 0x54, 0x61, 0x67, 0x73];
    assert(head_tag@ =~= opus_head_magic());
    assert(tags_tag@ =~= opus_tags_magic());
    let ghost b = bytes@;
    let limit = bytes.len();
    let mut reader = open_ogg(bytes);
    let mut head: Option<Vec<u8>> = None;
    let mut k: usize = 0;
    loop
        invariant_except_break
            k <= limit == b.len(),
            b == bytes@,
            head_tag@ == opus_head_magic(),
            reader@ == (b, k as nat),
            all_packets(b, k as nat),
            find_head(b, 0) == find_head(b, k as nat),
            head is None,
        ensures
            limit == b.len(),
            b == bytes@,
            head matches Some(h) && k < limit && reader@ == (b, (k + 1) as nat) && all_packets(
                b,
                (k + 1) as nat,
            ) && find_head(b, 0) == Ok::<(nat, Seq<u8>), Seq<char>>((k as nat, h@)),
        decreases limit - k,
    {
        let p = ogg_next_packet(&mut reader);
        assert(packet_view(p) == ogg_packet(b, k as nat));
        match p {
            Ok(Some(p)) => {
                assert(k < limit);
                assert forall|j: nat| j < (k + 1) as nat implies (#[trigger] ogg_packet(b, j)) matches Ok(
                    Some(_),
                ) by {
                    if j < k as nat {
                        assert(all_packets(b, k as nat));
                    }
                }
                if bytes_at(p.as_slice(), 0, &head_tag) {
                    head = Some(p);
                    break;
                }
                k = k + 1;
            },
            Ok(None) => {
                return Err(String::from_str("not a valid Opus stream"));
            },
            Err(e) => {
                return Err(e);
            },
        }
    }
    let channels = match &head {
        Some(h) => opus_channels(h.as_slice()),
        None => {
            return Err(String::from_str("not a valid Opus stream"));
        },
    };
    let ghost k0: nat = (k + 1) as nat;
    let ghost hv = head->0@;
    let mut pos: usize = k + 1;
    let mut packets: Vec<Vec<u8>> = Vec::new();
    loop
        invariant_except_break
            pos <= limit == b.len(),
            b == bytes@,
            tags_tag@ == opus_tags_magic(),
            reader@ == (b, pos as nat),
            all_packets(b, pos as nat),
            k0 >= 1,
            find_head(b, 0) == Ok::<(nat, Seq<u8>), Seq<char>>(((k0 - 1) as nat, hv)),
            channels == opus_channels_spec(hv),
            audio_packets(b, k0) == match audio_packets(b, pos as nat) {
                Err(e) => Err(e),
                Ok(rest) => Ok(packets@.map_values(|p: Vec<u8>| p@) + rest),
            },
        ensures
            b == bytes@,
            k0 >= 1,
            find_head(b, 0) == Ok::<(nat, Seq<u8>), Seq<char>>(((k0 - 1) as nat, hv)),
            channels == opus_channels_spec(hv),
            audio_packets(b, k0) == Ok::<Seq<Seq<u8>>, Seq<char>>(
                packets@.map_values(|p: Vec<u8>| p@),
            ),
        decreases limit - pos,
    {
        let ghost before = packets@.map_values(|p: Vec<u8>| p@);
        let p = ogg_next_packet(&mut reader);
        assert(packet_view(p) == ogg_packet(b, pos as nat));
        match p {
            Ok(Some(p)) => {
                assert(pos < limit);
                let ghost pv = p@;
                if !bytes_at(p.as_slice(), 0, &tags_tag) {
                    packets.push(p);
                    assert(packets@.map_values(|p: Vec<u8>| p@) =~= before.push(pv));
                }
                proof {
                    assert forall|j: nat| j < (pos + 1) as nat implies (#[trigger] ogg_packet(b, j)) matches Ok(
                        Some(_),
                    ) by {
                        if j < pos as nat {
                            assert(all_packets(b, pos as nat));
                        }
                    }
                    match audio_packets(b, (pos + 1) as nat) {
                        Err(e) => {},
                        Ok(rest) => {
                            if !starts(pv, opus_tags_magic()) {
                                assert(before + (seq![pv] + rest) =~= before.push(pv) + rest);
                            }
                        },
                    }
                }
                pos = pos + 1;
            },
            Ok(None) => {
                assert(before + Seq::<Seq<u8>>::empty() =~= before);
                break;
            },
            Err(e) => {
                assert(((k0 - 1) as nat + 1) as nat == k0);
                return Err(e);
            },
        }
    }
    assert(((k0 - 1) as nat + 1) as nat == k0);
    Ok(OpusStream { channels, packets })
}

/// The container an upload is to be decoded as.
#[derive(PartialEq, Eq, Structural, Clone, Copy, Debug)]
pub enum Container {
    /// Ogg-Opus: demuxed here and decoded with libopus.
    OggOpus,
    /// MP4: the general decoder first, the ADTS re-framing when that fails.
    Mp4,
    /// Anything else: left to the general decoder.
    Other,
}

/// How an upload of bytes `b` is decoded, or why it is refused.
pub open spec fn sniff_spec(b: Seq<u8>) -> Result<Container, Seq<char>> {
    if b.len() < 16 {
        Err("file is empty or too small to be audio"@)
    } else if let Some(kind) = image_kind_spec(b) {
        Err("this looks like "@ + kind + ", not audio — pick an audio file or voice note"@)
    } else if is_ogg_opus_spec(b) {
        Ok(Container::OggOpus)
    } else if is_mp4_spec(b) {
        Ok(Container::Mp4)
    } else {
        Ok(Container::Other)
    }
}

pub open spec fn sniff_view(r: Result<Container, String>) -> Result<Container, Seq<char>> {
    match r {
        Ok(c) => Ok(c),
        Err(e) => Err(e@),
    }
}

/// Decides how to decode an uploaded file from its bytes: too small to be audio and
/// images are refused with a message; Ogg-Opus and MP4 are recognised; anything else
/// goes to the general decoder.
pub fn sniff_container(b: &[u8]) -> (r: Result<Container, String>)
    ensures
        sniff_view(r) == sniff_spec(b@),
{
    if b.len() < 16 {
        return Err(String::from_str("file is empty or too small to be audio"));
    }
    match image_kind(b) {
        Some(kind) => {
            let mut msg = String::from_str("this looks like ");
            msg.append(kind);
            msg.append(", not audio — pick an audio file or voice note");
            return Err(msg);
        },
        None => {},
    }
    if is_ogg_opus(b) {
        Ok(Container::OggOpus)
    } else if is_mp4(b) {
        Ok(Container::Mp4)
    } else {
        Ok(Container::Other)
    }
}

/// The MPEG-4 sampling-frequency table (ISO/IEC 14496-3): indexes 0 to 12 stand for
/// 96000, 88200, 64000, 48000, 44100, 32000, 24000, 22050, 16000, 12000, 11025, 8000 and
/// 7350 Hz; and the ADTS index written for a track's rate is the track's own index, so a
/// re-framed track plays at the rate it was recorded at.
pub proof fn law_rate_index_round_trip(i: u8)
    requires
        i <= 12,
    ensures
        index_freq_spec(i) == seq![
            96000u32,
            88200,
            64000,
            48000,
            44100,
            32000,
            24000,
            22050,
            16000,
            12000,
            11025,
            8000,
            7350,
        ][i as int],
        adts_freq_index_spec(index_freq_spec(i)) == i,
{
}

/// A re-framed track keeps its own sampling-frequency index, its profile and its channel
/// configuration: when re-framing succeeds, the stream is the ADTS frames of the track's
/// units with index `i` in every header, and the rate reported is the table's rate for
/// `i`.
pub proof fn law_track_keeps_its_index(
    i: u8,
    object_type: Option<u8>,
    channel_config: Option<u8>,
    units: Seq<Seq<u8>>,
)
    requires
        i <= 12,
    ensures
        track_adts(Some(i), object_type, channel_config, units) matches Ok((s, rate, _)) ==> {
            &&& s == adts_stream(
                units,
                profile_bits_spec(object_type),
                i,
                match channel_config {
                    Some(c) => c,
                    None => 1u8,
                },
            )
            &&& rate == index_freq_spec(i)
        },
{
    law_rate_index_round_trip(i);
}

proof fn lemma_audio_packets_have_no_tags(b: Seq<u8>, k: nat)
    ensures
        audio_packets(b, k) matches Ok(ps) ==> forall|i: int|
            0 <= i < ps.len() ==> !starts(#[trigger] ps[i], opus_tags_magic()),
    decreases b.len() - k,
{
    if k < b.len() {
        lemma_audio_packets_have_no_tags(b, k + 1);
    }
    if let Ok(Some(p)) = ogg_packet(b, k) {
        if let Ok(ps) = audio_packets(b, k) {
            let rest = if k < b.len() {
                audio_packets(b, k + 1)
            } else {
                Ok(seq![])
            };
            if let Ok(r) = rest {
                if !starts(p, opus_tags_magic()) {
                    assert forall|i: int| 0 <= i < ps.len() implies !starts(#[trigger] ps[i], opus_tags_magic()) by {
                        if i > 0 {
                            assert(ps[i] == r[i - 1]);
                        }
                    }
                }
            }
        }
    }
}

/// A demuxed Opus stream is decoded mono or stereo, and none of its audio packets is the
/// `OpusTags` comment header.
pub proof fn law_opus_packets_are_audio(b: Seq<u8>)
    ensures
        opus_demux(b) matches Ok((c, ps)) ==> (c == 1 || c == 2) && forall|i: int|
            0 <= i < ps.len() ==> !starts(#[trigger] ps[i], opus_tags_magic()),
{
    if let Ok((k, h)) = find_head(b, 0) {
        lemma_audio_packets_have_no_tags(b, k + 1);
    }
}

} // verus!
