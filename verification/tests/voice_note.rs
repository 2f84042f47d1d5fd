use opus_pure::{
    Application, OggOpusWriter, OpusDecoder, OpusEncoder, OpusHead, OpusTags, MAX_PACKET_BYTES,
};
use sender::audio::{
    block_range, encode_plan, last_duration, open_voice_note, play_window, voice_note, OggFile,
    OggPart, PlayWindow,
};

const GRANULE_RATE: u32 = 48_000;
const MAX_PACKET_SAMPLES: usize = 5760;

/// Two seconds of a tone, as a recorder writes them.
fn voice_ogg() -> Vec<u8> {
    let rate: u32 = 48_000;
    let pcm: Vec<f32> = (0..rate * 2)
        .map(|i| (i as f32 * 440.0 * std::f32::consts::TAU / rate as f32).sin() * 0.5)
        .collect();
    let mut encoder = OpusEncoder::new(rate as i32, 1, Application::Audio).unwrap();
    let head = OpusHead::for_encoder(&encoder, rate);
    let plan = encode_plan(pcm.len(), rate, 1, head.pre_skip);
    let mut writer = OggOpusWriter::with_tags(Vec::new(), head, OpusTags::new()).unwrap();
    let mut packet = vec![0u8; MAX_PACKET_BYTES];
    let mut block = vec![0.0f32; plan.per_frame as usize];
    for i in 0..plan.frames {
        let (start, end) = block_range(&plan, i);
        let used = (end - start) as usize;
        block[..used].copy_from_slice(&pcm[start as usize..end as usize]);
        block[used..].fill(0.0);
        let n = encoder.encode(&block, plan.frame as usize, &mut packet).unwrap();
        if i + 1 == plan.frames {
            let duration = last_duration(&plan, writer.granule() as u64);
            writer.write_packet_with_duration(&packet[..n], duration as u32).unwrap();
        } else {
            writer.write_packet(&packet[..n]).unwrap();
        }
    }
    writer.finish().unwrap()
}

/// Decodes a voice note from where its window begins, and counts the samples.
fn samples(file: &OggFile, mut window: PlayWindow) -> i64 {
    let channels = usize::from(file.channels);
    let mut decoder = OpusDecoder::new(GRANULE_RATE as i32, channels).unwrap();
    let mut scratch = vec![0.0f32; MAX_PACKET_SAMPLES * channels];
    let mut count = 0;
    for packet in &file.packets {
        if window.is_done() {
            break;
        }
        let frames = decoder.decode(&packet.data, MAX_PACKET_SAMPLES, &mut scratch).unwrap();
        if let Some(slice) = window.advance(frames as u64) {
            count += slice.take as i64 * channels as i64;
        }
    }
    count
}

#[test]
fn decodes_opus_fixture() {
    let (file, window) = voice_note(&voice_ogg()).unwrap();
    assert_eq!(file.channels, 1);
    let duration = window.playable() as f64 / f64::from(GRANULE_RATE);
    assert!((duration - 2.0).abs() < 0.1, "unexpected opus duration {duration:?}");

    let samples = samples(&file, window);
    let expected = (2.0 * f64::from(GRANULE_RATE)) as i64;
    assert!((samples - expected).abs() < 600, "expected ~{expected} samples, got {samples}");
}

#[test]
fn opus_seek_resumes_at_position() {
    let (file, mut window) = voice_note(&voice_ogg()).unwrap();
    window.seek_to(750 * u64::from(GRANULE_RATE) / 1000);

    let samples = samples(&file, window);
    let expected = (1.25 * f64::from(GRANULE_RATE)) as i64;
    assert!(
        (samples - expected).abs() < 600,
        "expected ~{expected} samples after seeking, got {samples}"
    );
}

#[test]
fn seek_window_is_trimmed_at_both_ends() {
    let (_, unseeked) = open_voice_note(&voice_ogg()).unwrap();
    assert_eq!(unseeked.playable(), 96000);
    let (file, mut seeked) = open_voice_note(&voice_ogg()).unwrap();
    seeked.seek_to(750 * u64::from(GRANULE_RATE) / 1000);
    // From 0.75s to the (pre-skip trimmed) end; the seek window keeps the
    // front pre-skip out, so allow one interleaved frame of slack.
    let count = samples(&file, seeked);
    let expected = (1.25 * f64::from(GRANULE_RATE)) as i64;
    assert!(
        (count - expected).abs() < 1000,
        "expected ~{expected} samples after seeking, got {count}"
    );
}

#[test]
fn a_window_of_two_seconds_is_seeked() {
    let mut window = PlayWindow::new(312, 96_312);
    assert_eq!(window.playable(), 96000);
    window.seek_to(36_000);
    let mut left = 0;
    while !window.is_done() {
        left += window.advance(960).map_or(0, |slice| slice.take);
    }
    assert_eq!(left, 60_000);
}

#[test]
fn the_header_and_the_packets_come_out_as_written() {
    let mut head = OpusHead::new(2, 48_000).unwrap();
    head.pre_skip = 312;
    head.output_gain_q8 = 256;
    let mut writer = OggOpusWriter::with_tags(Vec::new(), head, OpusTags::new()).unwrap();
    writer.write_packet_with_duration(&[0xfc, 1, 2], 960).unwrap();
    writer.write_packet_with_duration(&[0xfc, 3], 500).unwrap();
    let (file, window) = open_voice_note(&writer.finish().unwrap()).unwrap();
    assert_eq!((file.channels, file.pre_skip, file.gain, file.mapping_family), (2, 312, 256, 0));
    let data: Vec<&[u8]> = file.packets.iter().map(|p| p.data.as_slice()).collect();
    assert_eq!(data, [&[0xfc, 1, 2][..], &[0xfc, 3][..]]);
    assert_eq!(file.packets[1].page_granule, 1460);
    assert_eq!(window, PlayWindow { pre_skip: 312, emit_lo: 312, emit_hi: 1460, cursor: 0 });
    assert_eq!(window.playable(), 1148);
}

#[test]
fn several_streams_in_one_file_are_refused() {
    let file = OggFile {
        channels: 6,
        pre_skip: 312,
        gain: 0,
        mapping_family: 1,
        packets: vec![OggPart { data: vec![1], page_granule: 960 }],
    };
    assert_eq!(
        play_window(&file).unwrap_err(),
        "invalid argument: mapping family is not 0; a surround stream needs an OpusMSDecoder"
    );
    let plain = OggFile { channels: 2, mapping_family: 0, ..file };
    assert_eq!(
        play_window(&plain).unwrap(),
        PlayWindow { pre_skip: 312, emit_lo: 312, emit_hi: 960, cursor: 0 }
    );
}

#[test]
fn a_surround_header_is_read_and_refused() {
    let mut head = OpusHead::new(2, 48_000).unwrap();
    head.mapping_family = 255;
    head.stream_count = 2;
    head.coupled_count = 0;
    head.channel_mapping = vec![0, 1];
    let mut writer = OggOpusWriter::with_tags(Vec::new(), head, OpusTags::new()).unwrap();
    writer.write_packet_with_duration(&[0xfc, 1], 960).unwrap();
    let bytes = writer.finish().unwrap();
    assert_eq!(
        open_voice_note(&bytes).unwrap_err(),
        "invalid argument: mapping family is not 0; a surround stream needs an OpusMSDecoder"
    );
    assert!(voice_note(&bytes).is_none());
}

#[test]
fn other_bytes_are_no_voice_note() {
    let mut shifted = voice_ogg();
    shifted.insert(0, 0);
    assert!(voice_note(&shifted).is_none());
    assert!(voice_note(&b"Ogg".to_vec()).is_none());
    assert!(voice_note(&b"OggS and nothing more".to_vec()).is_none());
    assert!(!open_voice_note(&b"OggS and nothing more".to_vec()).unwrap_err().is_empty());
}
