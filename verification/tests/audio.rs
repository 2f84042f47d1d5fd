use sender::audio::{
    block_range, bucket_range, check_pcm, encode_plan, end_granule, fallback_rate, frames_kept,
    last_duration, max_frames, pick_input_config, preferred_opus_rate, AudioFault, ConfigRange, PacketSlice, PlayWindow,
};

/// A sine tone: `channels`-wide interleaved f32 frames at `rate`.
fn tone(rate: u32, seconds: f32, channels: usize) -> Vec<f32> {
    let total = (rate as f32 * seconds) as usize;
    (0..total * channels)
        .map(|i| {
            let f = i / channels;
            (f as f32 * 440.0 * std::f32::consts::TAU / rate as f32).sin() * 0.5
        })
        .collect()
}

fn range(channels: u16, min_rate: u32, max_rate: u32, is_f32: bool) -> ConfigRange {
    ConfigRange { channels, min_rate, max_rate, is_f32 }
}

#[test]
fn rejects_non_opus_sample_rate() {
    assert!(matches!(
        check_pcm(tone(44_100, 0.1, 1).len(), 44_100, 1),
        Err(AudioFault::UnsupportedSampleRate(44_100))
    ));
}

#[test]
fn rejects_empty_pcm() {
    assert!(matches!(check_pcm(0, 48_000, 1), Err(AudioFault::EmptyRecording)));
}

#[test]
fn rejects_more_than_two_channels() {
    assert!(matches!(
        check_pcm(tone(48_000, 0.1, 3).len(), 48_000, 3),
        Err(AudioFault::UnsupportedChannels(3))
    ));
}

#[test]
fn rejects_partial_sample_frame() {
    let pcm = tone(48_000, 0.1, 2);
    assert!(matches!(
        check_pcm(pcm[..pcm.len() - 1].len(), 48_000, 2),
        Err(AudioFault::PartialFrame)
    ));
}

#[test]
fn prefers_highest_opus_rate_in_range() {
    assert_eq!(preferred_opus_rate(&range(2, 44_100, 48_000, true)), Some(48_000));
}

#[test]
fn falls_back_to_lowest_opus_rate() {
    assert_eq!(preferred_opus_rate(&range(1, 8_000, 8_000, true)), Some(8_000));
}

#[test]
fn rejects_rate_no_opus_value_covers() {
    assert_eq!(preferred_opus_rate(&range(1, 44_100, 44_100, true)), None);
}

#[test]
fn the_highest_rate_is_wanted_most() {
    let ranges = vec![range(1, 8_000, 8_000, true), range(2, 48_000, 48_000, true)];
    assert_eq!(pick_input_config(&ranges), Some((1, 48_000)));
    let ranges = vec![
        range(2, 8_000, 48_000, true),
        range(1, 44_100, 44_100, true),
        range(1, 8_000, 48_000, false),
        range(1, 16_000, 16_000, true),
    ];
    assert_eq!(pick_input_config(&ranges), Some((2, 48_000)));
    assert_eq!(pick_input_config(&ranges[..2].to_vec()), Some((0, 48_000)));
    assert_eq!(pick_input_config(&ranges[1..2].to_vec()), None);
}

#[test]
fn among_equal_rates_one_channel_of_floats_is_wanted_most() {
    let ranges = vec![
        range(4, 8_000, 48_000, true),
        range(2, 8_000, 48_000, true),
        range(1, 8_000, 48_000, false),
        range(1, 8_000, 48_000, true),
        range(1, 48_000, 48_000, true),
    ];
    assert_eq!(pick_input_config(&ranges), Some((3, 48_000)), "the first of equals");
    assert_eq!(pick_input_config(&ranges[..3].to_vec()), Some((2, 48_000)));
    assert_eq!(pick_input_config(&ranges[..2].to_vec()), Some((1, 48_000)));
}

#[test]
fn other_rates_of_a_device_are_refused() {
    assert_eq!(fallback_rate(24_000), Ok(24_000));
    let fault = fallback_rate(44_100).unwrap_err();
    assert_eq!(
        fault.message(),
        "sample rate 44100 Hz is not supported by Opus (8/12/16/24/48 kHz)"
    );
    assert_eq!(
        AudioFault::UnsupportedChannels(3).message(),
        "Opus supports only 1 or 2 channels, got 3"
    );
}

#[test]
fn a_quarter_second_ends_exactly() {
    let plan = encode_plan(12_000, 48_000, 1, 312);
    assert_eq!((plan.frame, plan.per_frame), (960, 960));
    assert_eq!(plan.frames, 13);
    assert_eq!(plan.final_granule - 312, 12_000);
    assert_eq!(block_range(&plan, 0), (0, 960));
    assert_eq!(block_range(&plan, 12), (11_520, 12_000));
    assert_eq!(last_duration(&plan, 12 * 960), 792);
}

#[test]
fn slow_rates_count_on_the_fast_clock() {
    let plan = encode_plan(1600, 8_000, 2, 312);
    assert_eq!((plan.frame, plan.per_frame), (160, 320));
    assert_eq!(plan.final_granule, 312 + 800 * 6);
    assert_eq!(max_frames(48_000), 5_760_000);
}

#[test]
fn bars_share_the_samples_evenly() {
    assert_eq!(bucket_range(48, 4, 0), (0, 12));
    assert_eq!(bucket_range(48, 4, 3), (36, 48));
    assert_eq!(bucket_range(2, 4, 1), (0, 1));
    assert_eq!(bucket_range(2, 4, 3), (1, 2));
}

#[test]
fn a_window_is_trimmed_at_both_ends() {
    let mut w = PlayWindow::new(312, 2000);
    assert_eq!(w.playable(), 1688);
    assert_eq!(w.advance(960), Some(PacketSlice { offset: 312, take: 648 }));
    assert_eq!(w.advance(960), Some(PacketSlice { offset: 0, take: 960 }));
    assert_eq!(w.advance(960), Some(PacketSlice { offset: 0, take: 80 }));
    assert!(w.is_done());
    w.seek_to(1000);
    assert_eq!(w.advance(960), None);
    assert_eq!(w.advance(960), Some(PacketSlice { offset: 352, take: 608 }));
    w.seek_to(9999);
    assert_eq!(w.emit_lo, 2000);
}

#[test]
fn a_stream_ends_at_its_furthest_packet() {
    assert_eq!(end_granule(&vec![-1, 960, 1920, -1]), 1920);
    assert_eq!(end_granule(&Vec::new()), 0);
    assert_eq!(frames_kept(10, 5, 12), 2);
    assert_eq!(frames_kept(10, 1, 12), 1);
}
