use unsound::audiofile::{
    aac_params, adts_freq_index, adts_header, image_kind, index_freq, is_mp4, is_ogg_opus,
    opus_channels, opus_stream, profile_bits, push_adts_frame, sniff_container, adts_from_track,
    Container, Mp4AudioTrack,
};

use mp4::{
    AacConfig, AudioObjectType, ChannelConfig, FourCC, MediaConfig, Mp4Config, Mp4Reader,
    Mp4Sample, Mp4Writer, SampleFreqIndex, TrackConfig, TrackType,
};

fn padded(prefix: &[u8], len: usize) -> Vec<u8> {
    let mut v = prefix.to_vec();
    v.resize(len, 0x11);
    v
}

fn ogg_stream(packets: &[&[u8]]) -> Vec<u8> {
    let mut w = ogg::PacketWriter::new(std::io::Cursor::new(Vec::new()));
    for (i, p) in packets.iter().enumerate() {
        let end = if i + 1 == packets.len() {
            ogg::PacketWriteEndInfo::EndStream
        } else if i < 2 {
            ogg::PacketWriteEndInfo::EndPage
        } else {
            ogg::PacketWriteEndInfo::NormalPacket
        };
        w.write_packet(p.to_vec(), 7, end, i as u64).unwrap();
    }
    w.into_inner().into_inner()
}

fn opus_head(channels: u8) -> Vec<u8> {
    let mut h = b"OpusHead".to_vec();
    h.extend_from_slice(&[1, channels, 0x38, 0x01, 0x80, 0xBB, 0, 0, 0, 0]);
    h
}

#[test]
fn recognises_images() {
    assert_eq!(image_kind(&padded(&[0xFF, 0xD8, 0xFF], 20)), Some("a JPEG image"));
    assert_eq!(image_kind(&padded(b"\x89PNG\r\n\x1a\n", 20)), Some("a PNG image"));
    assert_eq!(image_kind(&padded(b"GIF89a", 20)), Some("a GIF image"));
    assert_eq!(image_kind(&padded(b"GIF87a", 20)), Some("a GIF image"));
    let mut webp = padded(b"RIFF", 20);
    webp[8..12].copy_from_slice(b"WEBP");
    assert_eq!(image_kind(&webp), Some("a WebP image"));
    assert_eq!(image_kind(&padded(&[0, 0, 1, 0], 20)), Some("an icon"));
    let mut wav = padded(b"RIFF", 20);
    wav[8..12].copy_from_slice(b"WAVE");
    assert_eq!(image_kind(&wav), None);
    assert_eq!(image_kind(&[0xFF, 0xD8]), None);
}

#[test]
fn recognises_ogg_opus_and_mp4() {
    let mut ogg = padded(b"OggS", 60);
    assert!(!is_ogg_opus(&ogg));
    ogg[28..36].copy_from_slice(b"OpusHead");
    assert!(is_ogg_opus(&ogg));
    let mut late = padded(b"OggS", 200);
    late[128..136].copy_from_slice(b"OpusHead");
    assert!(!is_ogg_opus(&late));
    late[127..135].copy_from_slice(b"OpusHead");
    assert!(is_ogg_opus(&late));
    let mut m = padded(&[0, 0, 0, 0x20], 16);
    m[4..8].copy_from_slice(b"ftyp");
    assert!(is_mp4(&m));
    assert!(!is_mp4(&m[..11]));
}

#[test]
fn sniffing_refuses_small_files_and_images() {
    assert_eq!(
        sniff_container(&[1, 2, 3]),
        Err("file is empty or too small to be audio".to_string())
    );
    assert_eq!(
        sniff_container(&padded(b"\x89PNG\r\n\x1a\n", 32)),
        Err("this looks like a PNG image, not audio — pick an audio file or voice note".to_string())
    );
    let mut ogg = padded(b"OggS", 64);
    ogg[28..36].copy_from_slice(b"OpusHead");
    assert_eq!(sniff_container(&ogg), Ok(Container::OggOpus));
    let mut m = padded(&[0, 0, 0, 0x20], 32);
    m[4..8].copy_from_slice(b"ftyp");
    assert_eq!(sniff_container(&m), Ok(Container::Mp4));
    assert_eq!(sniff_container(&padded(b"ID3", 32)), Ok(Container::Other));
}

#[test]
fn a_voice_note_named_like_a_picture_is_still_opus() {
    let bytes = ogg_stream(&[&opus_head(1), b"OpusTags\x00\x00", &[1, 2, 3]]);
    assert_eq!(sniff_container(&bytes), Ok(Container::OggOpus));
}

#[test]
fn adts_tables() {
    assert_eq!(adts_freq_index(48_000), 3);
    assert_eq!(adts_freq_index(16_000), 8);
    assert_eq!(adts_freq_index(7_350), 12);
    assert_eq!(adts_freq_index(12_345), 4);
    assert_eq!(index_freq(8), 16_000);
    assert_eq!(index_freq(4), 44_100);
    assert_eq!(profile_bits(None), 1);
    assert_eq!(profile_bits(Some(2)), 1);
    assert_eq!(profile_bits(Some(5)), 0);
    assert_eq!(profile_bits(Some(0)), 0);
}

#[test]
fn adts_header_bits() {
    // AAC-LC (profile 1), 44.1 kHz (index 4), stereo, 100-byte frame.
    let h = adts_header(1, 4, 2, 100);
    assert_eq!(h, vec![0xFF, 0xF1, 0x50, 0x80, 0x0C, 0x9F, 0xFC]);
    let len = (((h[3] & 3) as usize) << 11) | ((h[4] as usize) << 3) | ((h[5] >> 5) as usize);
    assert_eq!(len, 100);
}

#[test]
fn adts_frames_skip_oversized_units() {
    let mut out = Vec::new();
    push_adts_frame(&mut out, &[9, 8], 1, 8, 1);
    assert_eq!(out.len(), 9);
    assert_eq!(&out[7..], &[9, 8]);
    let big = vec![0u8; 8185];
    push_adts_frame(&mut out, &big, 1, 8, 1);
    assert_eq!(out.len(), 9);
    let fits = vec![0u8; 8184];
    push_adts_frame(&mut out, &fits, 1, 8, 1);
    assert_eq!(out.len(), 9 + 7 + 8184);
}

#[test]
fn aac_params_from_track() {
    assert_eq!(
        aac_params(None, Some(2), Some(2)).err(),
        Some("unsupported AAC sample rate in this file".to_string())
    );
    let p = aac_params(Some(3), None, None).ok().unwrap();
    assert_eq!(p.sample_rate, 48_000);
    assert_eq!(p.freq, 3);
    assert_eq!(p.profile, 1);
    assert_eq!(p.chan, 1);
    assert_eq!(p.channels, 1);
    let q = aac_params(Some(8), Some(5), Some(2)).ok().unwrap();
    assert_eq!((q.sample_rate, q.freq, q.profile, q.chan, q.channels), (16_000, 8, 0, 2, 2));
}

#[test]
fn opus_stream_keeps_audio_packets() {
    let bytes = ogg_stream(&[b"junk", &opus_head(2), b"OpusTags\x00\x00", &[1, 2, 3], &[4]]);
    let s = opus_stream(&bytes).ok().unwrap();
    assert_eq!(s.channels, 2);
    assert_eq!(s.packets, vec![vec![1u8, 2, 3], vec![4u8]]);
    let mono = ogg_stream(&[&opus_head(1), b"OpusTags", &[7]]);
    assert_eq!(opus_stream(&mono).ok().unwrap().channels, 1);
    let no_head = ogg_stream(&[b"hello", &[1]]);
    assert_eq!(opus_stream(&no_head).err(), Some("not a valid Opus stream".to_string()));
    assert_eq!(opus_channels(b"OpusHead"), 1);
}

fn aac_mp4(units: &[&[u8]]) -> Vec<u8> {
    let config = Mp4Config {
        major_brand: FourCC::from(*b"isom"),
        minor_version: 512,
        compatible_brands: vec![FourCC::from(*b"isom"), FourCC::from(*b"mp41")],
        timescale: 1000,
    };
    let mut w = Mp4Writer::write_start(std::io::Cursor::new(Vec::new()), &config).unwrap();
    w.add_track(&TrackConfig {
        track_type: TrackType::Audio,
        timescale: 16_000,
        language: "und".to_string(),
        media_conf: MediaConfig::AacConfig(AacConfig {
            bitrate: 0,
            profile: AudioObjectType::AacLowComplexity,
            freq_index: SampleFreqIndex::Freq16000,
            chan_conf: ChannelConfig::Mono,
        }),
    })
    .unwrap();
    for (i, u) in units.iter().enumerate() {
        w.write_sample(
            1,
            &Mp4Sample {
                start_time: 1024 * i as u64,
                duration: 1024,
                rendering_offset: 0,
                is_sync: true,
                bytes: mp4::Bytes::from(u.to_vec()),
            },
        )
        .unwrap();
    }
    w.write_end().unwrap();
    w.into_writer().into_inner()
}

/// The audio track of an MP4 file as the MP4 reader gives it.
fn read_track(file: &[u8]) -> Mp4AudioTrack {
    let mut r = Mp4Reader::read_header(std::io::Cursor::new(file.to_vec()), file.len() as u64).unwrap();
    let (id, t) = r.tracks().iter().find(|(_, t)| t.track_type().ok() == Some(TrackType::Audio)).unwrap();
    let id = *id;
    let freq_index = t.sample_freq_index().ok().map(|f| f as u8);
    let object_type = t.audio_profile().ok().map(|o| o as u8);
    let channel_config = t.channel_config().ok().map(|c| c as u8);
    let count = r.sample_count(id).unwrap();
    let units = (1..=count).filter_map(|n| r.read_sample(id, n).ok().flatten()).map(|s| s.bytes.to_vec()).collect();
    Mp4AudioTrack { freq_index, object_type, channel_config, units }
}

#[test]
fn remuxes_mp4_aac_as_adts() {
    let file = aac_mp4(&[&[1, 2, 3], &[4, 5]]);
    assert_eq!(sniff_container(&file), Ok(Container::Mp4));
    let s = adts_from_track(&read_track(&file)).ok().unwrap();
    assert_eq!(s.sample_rate, 16_000);
    assert_eq!(s.channels, 1);
    let mut expected = adts_header(1, 8, 1, 10);
    expected.extend_from_slice(&[1, 2, 3]);
    expected.extend(adts_header(1, 8, 1, 9));
    expected.extend_from_slice(&[4, 5]);
    assert_eq!(s.bytes, expected);
    assert_eq!(s.format_after_decode(0, 0), (16_000, 1));
    assert_eq!(s.format_after_decode(44_100, 2), (44_100, 2));
}

#[test]
fn remux_reports_tracks_without_rate_or_frames() {
    let no_rate = Mp4AudioTrack { freq_index: None, object_type: Some(2), channel_config: Some(1), units: vec![vec![1]] };
    assert_eq!(adts_from_track(&no_rate).err(), Some("unsupported AAC sample rate in this file".to_string()));
    let odd_rate = Mp4AudioTrack { freq_index: Some(13), object_type: None, channel_config: None, units: vec![vec![1]] };
    assert_eq!(adts_from_track(&odd_rate).err(), Some("unsupported AAC sample rate in this file".to_string()));
    let empty = Mp4AudioTrack { freq_index: Some(3), object_type: None, channel_config: None, units: vec![] };
    assert_eq!(adts_from_track(&empty).err(), Some("no AAC audio frames found in this file".to_string()));
    let stereo = Mp4AudioTrack { freq_index: Some(3), object_type: None, channel_config: Some(2), units: vec![vec![9]] };
    let s = adts_from_track(&stereo).ok().unwrap();
    assert_eq!((s.sample_rate, s.channels), (48_000, 2));
    let mut expected = adts_header(1, 3, 2, 8);
    expected.push(9);
    assert_eq!(s.bytes, expected);
}
