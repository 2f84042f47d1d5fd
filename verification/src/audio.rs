//! Voice notes: which rate to record at, how a recording is cut into packets,
//! and which part of a decoded stream is played.
use vstd::prelude::*;
use vstd::arithmetic::div_mod::{lemma_div_is_ordered, lemma_fundamental_div_mod};

use crate::text::{decimal, format_u64, joined3, owned};

verus! {

/// The longest recording, in seconds.
pub const MAX_CLIP_SECS: u32 = 120;

/// The rate that recordings are best made at.
pub const CAPTURE_RATE: u32 = 48_000;

/// Whether Opus can encode a sample rate.
pub open spec fn is_opus_rate(rate: u32) -> bool {
    rate == 48_000 || rate == 24_000 || rate == 16_000 || rate == 12_000 || rate == 8_000
}

/// Why a recording cannot be made or encoded.
#[derive(Clone, Copy, Debug, PartialEq, Eq, Structural)]
pub enum AudioFault {
    UnsupportedSampleRate(u32),
    UnsupportedChannels(u16),
    /// The length is not a whole number of sample frames.
    PartialFrame,
    EmptyRecording,
}

impl AudioFault {
    /// The fault in words.
    pub fn message(&self) -> (r: String)
        ensures
            r@ == match *self {
                AudioFault::UnsupportedSampleRate(n) => "sample rate "@ + decimal(n as nat)
                    + " Hz is not supported by Opus (8/12/16/24/48 kHz)"@,
                AudioFault::UnsupportedChannels(n) => "Opus supports only 1 or 2 channels, got "@
                    + decimal(n as nat) + ""@,
                AudioFault::PartialFrame => "pcm length is not a whole number of sample frames"@,
                AudioFault::EmptyRecording => "nothing was recorded"@,
            },
    {
        match self {
            AudioFault::UnsupportedSampleRate(n) => joined3(
                "sample rate ",
                format_u64(*n as u64).as_str(),
                " Hz is not supported by Opus (8/12/16/24/48 kHz)",
            ),
            AudioFault::UnsupportedChannels(n) => joined3(
                "Opus supports only 1 or 2 channels, got ",
                format_u64(*n as u64).as_str(),
                "",
            ),
            AudioFault::PartialFrame => owned("pcm length is not a whole number of sample frames"),
            AudioFault::EmptyRecording => owned("nothing was recorded"),
        }
    }
}

/// What an input device can deliver.
#[derive(Clone, Copy, Debug, PartialEq, Eq, Structural)]
pub struct ConfigRange {
    pub channels: u16,
    pub min_rate: u32,
    pub max_rate: u32,
    /// Whether samples come as floating point numbers.
    pub is_f32: bool,
}

/// Whether a device can deliver a rate.
pub open spec fn covers(r: ConfigRange, rate: u32) -> bool {
    r.min_rate <= rate <= r.max_rate
}

/// The best rate that a device can deliver and Opus can encode: the highest.
pub open spec fn best_rate(r: ConfigRange) -> Option<u32> {
    if covers(r, 48_000) {
        Some(48_000)
    } else if covers(r, 24_000) {
        Some(24_000)
    } else if covers(r, 16_000) {
        Some(16_000)
    } else if covers(r, 12_000) {
        Some(12_000)
    } else if covers(r, 8_000) {
        Some(8_000)
    } else {
        None
    }
}

/// The best rate that a device can deliver and Opus can encode.
pub fn preferred_opus_rate(range: &ConfigRange) -> (r: Option<u32>)
    ensures
        r == best_rate(*range),
{
    if range.min_rate <= 48_000 && 48_000 <= range.max_rate {
        Some(48_000)
    } else if range.min_rate <= 24_000 && 24_000 <= range.max_rate {
        Some(24_000)
    } else if range.min_rate <= 16_000 && 16_000 <= range.max_rate {
        Some(16_000)
    } else if range.min_rate <= 12_000 && 12_000 <= range.max_rate {
        Some(12_000)
    } else if range.min_rate <= 8_000 && 8_000 <= range.max_rate {
        Some(8_000)
    } else {
        None
    }
}

/// The best rate is one Opus can encode and the device can deliver, and no such
/// rate is higher.
pub proof fn preferred_rate_is_the_highest(range: ConfigRange, rate: u32)
    ensures
        match best_rate(range) {
            Some(b) => is_opus_rate(b) && covers(range, b) && (is_opus_rate(rate) && covers(
                range,
                rate,
            ) ==> rate <= b),
            None => !(is_opus_rate(rate) && covers(range, rate)),
        },
{
}

/// How little a configuration is wanted among those with the same rate: one
/// channel before more, floating point before other samples, fewer channels
/// before more.
pub open spec fn config_score(r: ConfigRange) -> int {
    (if r.channels != 1 { 0x4_0000int } else { 0 }) + (if r.is_f32 { 0int } else { 0x2_0000 })
        + r.channels
}

/// Whether a configuration with a usable rate is wanted more than another: the
/// higher rate decides, and only among equal rates the form of the samples.
pub open spec fn wanted_more(a: ConfigRange, b: ConfigRange) -> bool {
    let ra = best_rate(a).unwrap();
    let rb = best_rate(b).unwrap();
    ra > rb || (ra == rb && config_score(a) < config_score(b))
}

/// The position of the configuration to record with: the one wanted most, the
/// first of equals, among those with a usable rate.
pub open spec fn best_config(ranges: Seq<ConfigRange>) -> Option<int>
    decreases ranges.len(),
{
    if ranges.len() == 0 {
        None
    } else {
        let rest = best_config(ranges.drop_last());
        let r = ranges.last();
        if best_rate(r) is None {
            rest
        } else {
            match rest {
                Some(i) => if wanted_more(r, ranges[i]) {
                    Some(ranges.len() - 1)
                } else {
                    Some(i)
                },
                None => Some(ranges.len() - 1),
            }
        }
    }
}

/// Among the configurations with a usable rate, none has a higher rate than the
/// one picked, none with the same rate is better in form, and none before it is
/// as good; none is picked only where no rate is usable.
pub proof fn picked_config_is_the_best(ranges: Seq<ConfigRange>, j: int)
    requires
        0 <= j < ranges.len(),
        best_rate(ranges[j]) is Some,
    ensures
        best_config(ranges) is Some,
        ({
            let i = best_config(ranges).unwrap();
            &&& 0 <= i < ranges.len()
            &&& best_rate(ranges[i]) is Some
            &&& best_rate(ranges[j]).unwrap() <= best_rate(ranges[i]).unwrap()
            &&& best_rate(ranges[j]) == best_rate(ranges[i]) ==> config_score(ranges[i])
                <= config_score(ranges[j])
            &&& best_rate(ranges[j]) == best_rate(ranges[i]) && config_score(ranges[j])
                == config_score(ranges[i]) ==> i <= j
        }),
    decreases ranges.len(),
{
    best_config_bounds(ranges);
    let front = ranges.drop_last();
    best_config_bounds(front);
    if j < front.len() {
        assert(front[j] == ranges[j]);
        picked_config_is_the_best(front, j);
        assert(front[best_config(front).unwrap()] == ranges[best_config(front).unwrap()]);
    } else if best_config(front) is Some {
        assert(front[best_config(front).unwrap()] == ranges[best_config(front).unwrap()]);
    }
}

proof fn best_config_bounds(ranges: Seq<ConfigRange>)
    ensures
        match best_config(ranges) {
            Some(i) => 0 <= i < ranges.len() && best_rate(ranges[i]) is Some,
            None => true,
        },
    decreases ranges.len(),
{
    if ranges.len() > 0 {
        best_config_bounds(ranges.drop_last());
        match best_config(ranges.drop_last()) {
            Some(i) => {
                assert(ranges.drop_last()[i] == ranges[i]);
            },
            None => {},
        }
    }
}

fn score(r: &ConfigRange) -> (s: u32)
    ensures
        s == config_score(*r),
{
    (if r.channels != 1 { 0x4_0000u32 } else { 0u32 }) + (if r.is_f32 { 0u32 } else {
        0x2_0000u32
    }) + r.channels as u32
}

/// The position of the configuration to record with, and its rate.
pub fn pick_input_config(ranges: &Vec<ConfigRange>) -> (r: Option<(usize, u32)>)
    ensures
        match r {
            Some((i, rate)) => i < ranges@.len() && best_config(ranges@) == Some(i as int)
                && best_rate(ranges@[i as int]) == Some(rate),
            None => best_config(ranges@) is None,
        },
{
    let mut best: Option<(usize, u32)> = None;
    let mut i: usize = 0;
    assert(ranges@.take(0) =~= Seq::<ConfigRange>::empty());
    while i < ranges.len()
        invariant
            i <= ranges@.len(),
            match best {
                Some((b, rate)) => b < i && best_config(ranges@.take(i as int)) == Some(b as int)
                    && best_rate(ranges@[b as int]) == Some(rate),
                None => best_config(ranges@.take(i as int)) is None,
            },
        decreases ranges@.len() - i,
    {
        assert(ranges@.take(i as int + 1).drop_last() =~= ranges@.take(i as int));
        if let Some(rate) = preferred_opus_rate(&ranges[i]) {
            match best {
                Some((b, have)) => {
                    assert(ranges@.take(i as int + 1)[b as int] == ranges@[b as int]);
                    if rate > have || (rate == have && score(&ranges[i]) < score(&ranges[b])) {
                        best = Some((i, rate));
                    }
                },
                None => {
                    best = Some((i, rate));
                },
            }
        }
        i += 1;
    }
    assert(ranges@.take(i as int) =~= ranges@);
    best
}

/// The rate of the device's own configuration, where Opus can encode it.
pub fn fallback_rate(rate: u32) -> (r: Result<u32, AudioFault>)
    ensures
        r == if is_opus_rate(rate) {
            Ok::<u32, AudioFault>(rate)
        } else {
            Err(AudioFault::UnsupportedSampleRate(rate))
        },
{
    if rate == 48_000 || rate == 24_000 || rate == 16_000 || rate == 12_000 || rate == 8_000 {
        Ok(rate)
    } else {
        Err(AudioFault::UnsupportedSampleRate(rate))
    }
}

/// The most sample frames that a recording keeps.
pub fn max_frames(rate: u32) -> (r: u64)
    ensures
        r == MAX_CLIP_SECS * rate,
{
    proof {
        assert(120 * rate as int <= u64::MAX) by (nonlinear_arith)
            requires
                rate <= u32::MAX,
        ;
    }
    MAX_CLIP_SECS as u64 * rate as u64
}

/// How many frames of a captured buffer are kept: those that still fit.
pub fn frames_kept(have: u64, captured: u64, most: u64) -> (r: u64)
    requires
        have <= most,
    ensures
        r == lesser(captured as int, most - have),
        have + r <= most,
{
    if captured < most - have {
        captured
    } else {
        most - have
    }
}

/// Why a recording of `len` samples cannot be encoded; none where it can.
pub open spec fn pcm_fault(len: int, rate: u32, channels: u16) -> Option<AudioFault> {
    if channels != 1 && channels != 2 {
        Some(AudioFault::UnsupportedChannels(channels))
    } else if !is_opus_rate(rate) {
        Some(AudioFault::UnsupportedSampleRate(rate))
    } else if len == 0 {
        Some(AudioFault::EmptyRecording)
    } else if len % channels as int != 0 {
        Some(AudioFault::PartialFrame)
    } else {
        None
    }
}

/// Whether a recording of `len` samples can be encoded.
pub fn check_pcm(len: usize, rate: u32, channels: u16) -> (r: Result<(), AudioFault>)
    ensures
        match r {
            Ok(_) => pcm_fault(len as int, rate, channels) is None,
            Err(f) => pcm_fault(len as int, rate, channels) == Some(f),
        },
{
    if channels != 1 && channels != 2 {
        return Err(AudioFault::UnsupportedChannels(channels));
    }
    match fallback_rate(rate) {
        Ok(_) => {},
        Err(f) => {
            return Err(f);
        },
    }
    if len == 0 {
        return Err(AudioFault::EmptyRecording);
    }
    if len % channels as usize != 0 {
        return Err(AudioFault::PartialFrame);
    }
    Ok(())
}

/// How a recording is cut into packets.
#[derive(Clone, Copy, Debug, PartialEq, Eq, Structural)]
pub struct EncodePlan {
    /// Samples of the recording.
    pub len: u64,
    /// Sample frames per packet: twenty milliseconds.
    pub frame: u64,
    /// Samples per packet.
    pub per_frame: u64,
    /// Packets in all.
    pub frames: u64,
    /// Where the last packet ends, on a clock of 48 kHz.
    pub final_granule: u64,
}

/// `a / b`, rounded up.
pub open spec fn div_up(a: int, b: int) -> int {
    (a + b - 1) / b
}

/// How a recording is cut into packets: enough of them to flush the encoder's
/// delay of `pre_skip` ticks, the last one ending exactly where the recording
/// does.
pub open spec fn plan_of(len: int, rate: int, channels: int, pre_skip: int) -> (
    int,
    int,
    int,
    int,
) {
    let frame = rate / 50;
    let ticks = 48_000int / rate;
    let total = len / channels;
    let lookahead = div_up(pre_skip, ticks);
    (frame, frame * channels, div_up(total + lookahead, frame), pre_skip + total * ticks)
}

/// How a recording is cut into packets. A recording holds at most a quarter of
/// the bytes that memory can address.
pub fn encode_plan(len: usize, rate: u32, channels: u16, pre_skip: u16) -> (r: EncodePlan)
    requires
        pcm_fault(len as int, rate, channels) is None,
        len <= 0x1fff_ffff_ffff_ffff,
    ensures
        r.len == len,
        (r.frame as int, r.per_frame as int, r.frames as int, r.final_granule as int) == plan_of(
            len as int,
            rate as int,
            channels as int,
            pre_skip as int,
        ),
        r.frame > 0,
        r.per_frame == r.frame * channels,
{
    let frame: u64 = (rate / 50) as u64;
    let ticks: u64 = (48_000 / rate) as u64;
    let ch: u64 = channels as u64;
    let total: u64 = len as u64 / ch;
    proof {
        assert(1 <= ticks <= 6);
        assert(160 <= frame <= 960);
        assert(total <= len) by (nonlinear_arith)
            requires
                total == len as int / ch as int,
                ch >= 1,
                len >= 0,
        ;
        assert(total * ticks <= 0x1fff_ffff_ffff_ffff * 6) by (nonlinear_arith)
            requires
                total <= 0x1fff_ffff_ffff_ffff,
                ticks <= 6,
        ;
        assert(frame * ch <= 1920) by (nonlinear_arith)
            requires
                frame <= 960,
                ch <= 2,
        ;
    }
    let lookahead: u64 = (pre_skip as u64 + ticks - 1) / ticks;
    proof {
        assert(lookahead <= 65541) by (nonlinear_arith)
            requires
                lookahead == (pre_skip as int + ticks - 1) / ticks as int,
                1 <= ticks <= 6,
                pre_skip <= 65535,
        ;
    }
    let frames: u64 = (total + lookahead + frame - 1) / frame;
    EncodePlan {
        len: len as u64,
        frame,
        per_frame: frame * ch,
        frames,
        final_granule: pre_skip as u64 + total * ticks,
    }
}

pub open spec fn lesser(a: int, b: int) -> int {
    if a < b {
        a
    } else {
        b
    }
}

/// The samples of the recording that go into a packet; the rest of the packet
/// is silence.
pub open spec fn block_of(plan: EncodePlan, i: int) -> (int, int) {
    let start = lesser(i * plan.per_frame, plan.len as int);
    (start, lesser(start + plan.per_frame, plan.len as int))
}

/// The samples of the recording that go into a packet.
pub fn block_range(plan: &EncodePlan, i: u64) -> (r: (u64, u64))
    ensures
        (r.0 as int, r.1 as int) == block_of(*plan, i as int),
        r.0 <= r.1 <= plan.len,
{
    let wide: u128 = i as u128;
    proof {
        assert(i * plan.per_frame <= u128::MAX) by (nonlinear_arith)
            requires
                i <= u64::MAX,
                plan.per_frame <= u64::MAX,
        ;
        assert(0 <= i * plan.per_frame) by (nonlinear_arith)
            requires
                i >= 0,
                plan.per_frame >= 0,
        ;
    }
    let at: u128 = wide * plan.per_frame as u128;
    let start: u64 = if at < plan.len as u128 { at as u64 } else { plan.len };
    let end: u64 = if plan.per_frame < plan.len - start { start + plan.per_frame } else {
        plan.len
    };
    (start, end)
}

/// The packets take up the recording without a gap or an overlap: the first
/// begins with it, and each goes on where the one before ended.
pub proof fn packets_cover_the_recording(plan: EncodePlan, i: int)
    requires
        i >= 0,
        plan.per_frame > 0,
    ensures
        block_of(plan, 0).0 == 0,
        block_of(plan, i).1 == block_of(plan, i + 1).0,
        i * plan.per_frame >= plan.len ==> block_of(plan, i).0 == plan.len,
{
    assert(0 * plan.per_frame == 0) by (nonlinear_arith);
    assert((i + 1) * plan.per_frame == i * plan.per_frame + plan.per_frame) by (nonlinear_arith);
    assert(i * plan.per_frame >= 0) by (nonlinear_arith)
        requires
            i >= 0,
            plan.per_frame > 0,
    ;
}

/// What is played of an encoded recording is exactly the recording.
pub proof fn encoded_length_is_exact(len: int, rate: u32, channels: u16, pre_skip: u16)
    requires
        pcm_fault(len, rate, channels) is None,
        len >= 0,
    ensures
        plan_of(len, rate as int, channels as int, pre_skip as int).3 - pre_skip == (len
            / channels as int) * (48_000int / rate as int),
        (48_000int / rate as int) * rate == 48_000,
{
    assert((48_000int / rate as int) * rate == 48_000) by (nonlinear_arith)
        requires
            rate == 48_000 || rate == 24_000 || rate == 16_000 || rate == 12_000 || rate == 8_000,
    ;
}

/// The length of the last packet, so that the recording ends where it should.
pub fn last_duration(plan: &EncodePlan, granule: u64) -> (r: u64)
    requires
        granule <= plan.final_granule,
    ensures
        granule + r == plan.final_granule,
{
    plan.final_granule - granule
}

/// The samples that a bar of a waveform stands for: an even share, and at least
/// one.
pub open spec fn bucket_of(len: int, buckets: int, b: int) -> (int, int) {
    let start = b * len / buckets;
    let end = (b + 1) * len / buckets;
    (start, if end > start { end } else { start + 1 })
}

/// The samples that a bar of a waveform stands for.
pub fn bucket_range(len: usize, buckets: usize, b: usize) -> (r: (usize, usize))
    requires
        len > 0,
        b < buckets,
    ensures
        (r.0 as int, r.1 as int) == bucket_of(len as int, buckets as int, b as int),
        r.0 < r.1 <= len,
{
    let n: u128 = len as u128;
    let k: u128 = buckets as u128;
    let i: u128 = b as u128;
    proof {
        bucket_bounds(len as int, buckets as int, b as int);
        assert(b * len <= usize::MAX * usize::MAX) by (nonlinear_arith)
            requires
                0 <= b <= usize::MAX,
                0 <= len <= usize::MAX,
        ;
        assert((b + 1) * len <= usize::MAX * usize::MAX) by (nonlinear_arith)
            requires
                0 <= b + 1 <= usize::MAX,
                0 <= len <= usize::MAX,
        ;
        assert(usize::MAX * usize::MAX <= u128::MAX) by (nonlinear_arith)
            requires
                usize::MAX <= 0xffff_ffff_ffff_ffff,
        ;
    }
    let start: u128 = i * n / k;
    let end: u128 = (i + 1) * n / k;
    (start as usize, (if end > start { end } else { start + 1 }) as usize)
}

proof fn bucket_bounds(len: int, buckets: int, b: int)
    requires
        len > 0,
        0 <= b < buckets,
    ensures
        0 <= b * len / buckets < len,
        0 <= (b + 1) * len / buckets <= len,
        b * len / buckets <= (b + 1) * len / buckets,
{
    assert(0 <= b * len) by (nonlinear_arith)
        requires
            b >= 0,
            len > 0,
    ;
    assert(b * len < buckets * len) by (nonlinear_arith)
        requires
            b < buckets,
            len > 0,
    ;
    assert((b + 1) * len <= buckets * len) by (nonlinear_arith)
        requires
            b + 1 <= buckets,
            len > 0,
    ;
    assert((b + 1) * len == b * len + len) by (nonlinear_arith);
    let p = b * len;
    let q = (b + 1) * len;
    lemma_fundamental_div_mod(p, buckets);
    lemma_fundamental_div_mod(q, buckets);
    assert(0 <= p / buckets < len) by (nonlinear_arith)
        requires
            0 <= p < buckets * len,
            p == buckets * (p / buckets) + p % buckets,
            0 <= p % buckets < buckets,
            buckets > 0,
    ;
    assert(0 <= q / buckets <= len) by (nonlinear_arith)
        requires
            0 <= q <= buckets * len,
            q == buckets * (q / buckets) + q % buckets,
            0 <= q % buckets < buckets,
            buckets > 0,
    ;
    lemma_div_is_ordered(p, q, buckets);
}

/// Every bar of a waveform stands for at least one sample of the recording.
pub proof fn bars_are_never_empty(len: int, buckets: int, b: int)
    requires
        len > 0,
        0 <= b < buckets,
    ensures
        0 <= bucket_of(len, buckets, b).0 < bucket_of(len, buckets, b).1 <= len,
{
    bucket_bounds(len, buckets, b);
}

/// The part of a decoded stream that is played, and how far it was decoded. All
/// positions are sample frames from the start of the stream.
#[derive(Clone, Copy, Debug, PartialEq, Eq, Structural)]
pub struct PlayWindow {
    /// Padding before the recording.
    pub pre_skip: u64,
    /// The first frame that may be played.
    pub emit_lo: u64,
    /// One past the last frame that may be played.
    pub emit_hi: u64,
    /// Where the next packet begins.
    pub cursor: u64,
}

/// The end of a stream: the furthest position that any of its packets names;
/// a negative one names none.
pub open spec fn furthest(granules: Seq<i64>) -> int
    decreases granules.len(),
{
    if granules.len() == 0 {
        0
    } else if granules.last() > furthest(granules.drop_last()) {
        granules.last() as int
    } else {
        furthest(granules.drop_last())
    }
}

/// The end of a stream.
pub fn end_granule(granules: &Vec<i64>) -> (r: u64)
    ensures
        r == furthest(granules@),
{
    let mut end: u64 = 0;
    let mut i: usize = 0;
    assert(granules@.take(0) =~= Seq::<i64>::empty());
    while i < granules.len()
        invariant
            i <= granules@.len(),
            end == furthest(granules@.take(i as int)),
            end <= i64::MAX,
        decreases granules@.len() - i,
    {
        assert(granules@.take(i as int + 1).drop_last() =~= granules@.take(i as int));
        if granules[i] > end as i64 {
            end = granules[i] as u64;
        }
        i += 1;
    }
    assert(granules@.take(i as int) =~= granules@);
    end
}

/// A packet of an Ogg file, with the position that its page names.
#[derive(Debug)]
pub struct OggPart {
    pub data: Vec<u8>,
    pub page_granule: i64,
}

/// An Ogg Opus file: what its header says of the sound, and its packets in the
/// order in which they are played.
#[derive(Debug)]
pub struct OggFile {
    pub channels: u8,
    /// Frames of padding in front of the recording.
    pub pre_skip: u16,
    /// The output gain, in steps of a 256th of a decibel.
    pub gain: i16,
    pub mapping_family: u8,
    pub packets: Vec<OggPart>,
}

impl View for OggPart {
    type V = (Seq<u8>, i64);

    open spec fn view(&self) -> (Seq<u8>, i64) {
        (self.data@, self.page_granule)
    }
}

impl View for OggFile {
    type V = (u8, u16, i16, u8, Seq<(Seq<u8>, i64)>);

    open spec fn view(&self) -> (u8, u16, i16, u8, Seq<(Seq<u8>, i64)>) {
        (
            self.channels,
            self.pre_skip,
            self.gain,
            self.mapping_family,
            self.packets@.map_values(|p: OggPart| p@),
        )
    }
}

/// What an Ogg Opus file holds, as opus-pure reads it: the channels, the
/// padding, the gain, the mapping family and the packets; or why it is none.
pub uninterp spec fn ogg_of(bytes: Seq<u8>) -> Result<
    (u8, u16, i16, u8, Seq<(Seq<u8>, i64)>),
    Seq<char>,
>;

/// Calls `OggOpusReader::new` of opus-pure on the bytes, then collects
/// `OggOpusReader::packets`.
///
/// Believed of them: what comes out depends on the bytes alone, and a header
/// that is accepted names at least one channel, and at most two where its
/// mapping family is 0.
#[verifier::external_body]
fn read_ogg(bytes: &Vec<u8>) -> (r: Result<OggFile, String>)
    ensures
        match r {
            Ok(file) => ogg_of(bytes@) == Ok::<
                (u8, u16, i16, u8, Seq<(Seq<u8>, i64)>),
                Seq<char>,
            >(file@) && 1 <= file.channels && (file.mapping_family == 0 ==> file.channels <= 2),
            Err(e) => ogg_of(bytes@) == Err::<
                (u8, u16, i16, u8, Seq<(Seq<u8>, i64)>),
                Seq<char>,
            >(e@),
        },
{
    let source = std::io::Cursor::new(bytes.as_slice());
    let mut reader = opus_pure::OggOpusReader::new(source).map_err(|e| e.to_string())?;
    let head = reader.head().clone();
    let packets = reader
        .packets()
        .map(|read| read.map(|p| OggPart { data: p.data, page_granule: p.page_granule }))
        .collect::<Result<Vec<OggPart>, _>>()
        .map_err(|e| e.to_string())?;
    Ok(OggFile {
        channels: head.channel_count,
        pre_skip: head.pre_skip,
        gain: head.output_gain_q8,
        mapping_family: head.mapping_family,
        packets,
    })
}

/// The positions that the packets of a file name.
pub open spec fn granules_of(packets: Seq<(Seq<u8>, i64)>) -> Seq<i64> {
    packets.map_values(|p: (Seq<u8>, i64)| p.1)
}

/// What is said of a file whose channels are more than one stream.
pub open spec fn surround_text() -> Seq<char> {
    "invalid argument: mapping family is not 0; a surround stream needs an OpusMSDecoder"@
}

/// The window in which a file is played from its start, or why it cannot be
/// played: all that lies between the padding and the furthest position named.
pub open spec fn window_of(file: (u8, u16, i16, u8, Seq<(Seq<u8>, i64)>)) -> Result<
    PlayWindow,
    Seq<char>,
> {
    if file.3 != 0 {
        Err(surround_text())
    } else {
        Ok(
            PlayWindow {
                pre_skip: file.1 as u64,
                emit_lo: file.1 as u64,
                emit_hi: furthest(granules_of(file.4)) as u64,
                cursor: 0,
            },
        )
    }
}

/// The window in which a file is played from its start.
pub fn play_window(file: &OggFile) -> (r: Result<PlayWindow, String>)
    ensures
        match r {
            Ok(window) => window_of(file@) == Ok::<PlayWindow, Seq<char>>(window) && window.emit_hi
                == furthest(granules_of(file@.4)),
            Err(e) => window_of(file@) == Err::<PlayWindow, Seq<char>>(e@),
        },
{
    if file.mapping_family != 0 {
        return Err(
            owned(
                "invalid argument: mapping family is not 0; a surround stream needs an OpusMSDecoder",
            ),
        );
    }
    let mut granules: Vec<i64> = Vec::new();
    let mut i: usize = 0;
    while i < file.packets.len()
        invariant
            i <= file.packets@.len(),
            granules@ =~= granules_of(file@.4).take(i as int),
        decreases file.packets@.len() - i,
    {
        granules.push(file.packets[i].page_granule);
        i += 1;
    }
    assert(granules@ =~= granules_of(file@.4));
    Ok(PlayWindow::new(file.pre_skip, end_granule(&granules)))
}

/// No packet of a stream names a position beyond its end, and the end is a
/// position that some packet names, where any names one.
pub proof fn streams_end_at_a_named_position(granules: Seq<i64>)
    ensures
        0 <= furthest(granules) <= i64::MAX,
        forall|i: int| 0 <= i < granules.len() ==> #[trigger] granules[i] <= furthest(granules),
        furthest(granules) == 0 || exists|i: int|
            0 <= i < granules.len() && #[trigger] granules[i] == furthest(granules),
    decreases granules.len(),
{
    if granules.len() > 0 {
        let rest = granules.drop_last();
        streams_end_at_a_named_position(rest);
        assert forall|i: int| 0 <= i < granules.len() implies #[trigger] granules[i] <= furthest(
            granules,
        ) by {
            if i < rest.len() {
                assert(rest[i] == granules[i]);
            }
        }
        if furthest(granules) != 0 {
            if granules.last() > furthest(rest) {
                assert(granules[granules.len() - 1] == furthest(granules));
            } else {
                let i = choose|i: int| 0 <= i < rest.len() && #[trigger] rest[i] == furthest(rest);
                assert(granules[i] == furthest(granules));
            }
        }
    }
}

/// A file that ends where a recording was planned to end is played for exactly
/// as long as the recording lasted.
pub proof fn recordings_play_their_own_length(
    file: (u8, u16, i16, u8, Seq<(Seq<u8>, i64)>),
    len: int,
    rate: u32,
    channels: u16,
)
    requires
        len >= 0,
        pcm_fault(len, rate, channels) is None,
        file.3 == 0,
        furthest(granules_of(file.4)) == plan_of(len, rate as int, channels as int, file.1 as int).3,
    ensures
        window_of(file) is Ok,
        window_of(file)->Ok_0.length() == (len / channels as int) * (48_000int / rate as int),
{
    streams_end_at_a_named_position(granules_of(file.4));
    encoded_length_is_exact(len, rate, channels, file.1);
    assert((len / channels as int) * (48_000int / rate as int) >= 0) by (nonlinear_arith)
        requires
            len >= 0,
            channels >= 1,
            rate >= 1,
    ;
}

/// A voice note that can be played: the file and its window.
pub open spec fn opened(bytes: Seq<u8>) -> Result<
    ((u8, u16, i16, u8, Seq<(Seq<u8>, i64)>), PlayWindow),
    Seq<char>,
> {
    match ogg_of(bytes) {
        Ok(file) => match window_of(file) {
            Ok(window) => Ok((file, window)),
            Err(e) => Err(e),
        },
        Err(e) => Err(e),
    }
}

/// Opens an Ogg Opus file. One that is opened has one channel or two.
pub fn open_voice_note(bytes: &Vec<u8>) -> (r: Result<(OggFile, PlayWindow), String>)
    ensures
        match r {
            Ok(note) => opened(bytes@) == Ok::<
                ((u8, u16, i16, u8, Seq<(Seq<u8>, i64)>), PlayWindow),
                Seq<char>,
            >((note.0@, note.1)) && 1 <= note.0.channels <= 2,
            Err(e) => opened(bytes@) == Err::<
                ((u8, u16, i16, u8, Seq<(Seq<u8>, i64)>), PlayWindow),
                Seq<char>,
            >(e@),
        },
{
    match read_ogg(bytes) {
        Ok(file) => match play_window(&file) {
            Ok(window) => Ok((file, window)),
            Err(e) => Err(e),
        },
        Err(e) => Err(e),
    }
}

/// Whether bytes begin as every Ogg file does: with `OggS`.
pub open spec fn is_ogg(bytes: Seq<u8>) -> bool {
    bytes.len() >= 4 && bytes.take(4) =~= seq![0x4fu8, 0x67u8, 0x67u8, 0x53u8]
}

/// The voice note that bytes hold. Where there is none, the bytes are left to
/// the decoders of the other formats.
pub fn voice_note(bytes: &Vec<u8>) -> (r: Option<(OggFile, PlayWindow)>)
    ensures
        r is Some <==> is_ogg(bytes@) && opened(bytes@) is Ok,
        match r {
            Some(note) => opened(bytes@) == Ok::<
                ((u8, u16, i16, u8, Seq<(Seq<u8>, i64)>), PlayWindow),
                Seq<char>,
            >((note.0@, note.1)) && 1 <= note.0.channels <= 2,
            None => true,
        },
{
    if bytes.len() < 4 || bytes[0] != 0x4f || bytes[1] != 0x67 || bytes[2] != 0x67 || bytes[3]
        != 0x53 {
        assert(bytes@.len() >= 4 ==> bytes@.take(4)[0] == bytes@[0] && bytes@.take(4)[1] == bytes@[1]
            && bytes@.take(4)[2] == bytes@[2] && bytes@.take(4)[3] == bytes@[3]);
        return None;
    }
    match open_voice_note(bytes) {
        Ok(note) => Some(note),
        Err(_) => None,
    }
}

/// The slice of a packet that is played.
#[derive(Clone, Copy, Debug, PartialEq, Eq, Structural)]
pub struct PacketSlice {
    pub offset: u64,
    pub take: u64,
}

/// How many frames are played of a packet that begins at `start`: those that
/// lie in the window from `lo` to `hi`.
pub open spec fn played_of(start: int, frames: int, lo: int, hi: int) -> int {
    let from = if start > lo { start } else { lo };
    let to = lesser(start + frames, hi);
    if from < to {
        to - from
    } else {
        0
    }
}

/// The frames of packets, one after the other.
pub open spec fn frames_of(packets: Seq<u64>) -> int
    decreases packets.len(),
{
    if packets.len() == 0 {
        0
    } else {
        frames_of(packets.drop_last()) + packets.last()
    }
}

/// How many frames are played of packets that are decoded from the start, one
/// after the other.
pub open spec fn played_of_all(packets: Seq<u64>, lo: int, hi: int) -> int
    decreases packets.len(),
{
    if packets.len() == 0 {
        0
    } else {
        let before = packets.drop_last();
        played_of_all(before, lo, hi) + played_of(frames_of(before), packets.last() as int, lo, hi)
    }
}

/// Packet by packet, exactly the frames in the window are played: none twice,
/// and none left out.
pub proof fn packets_play_the_window(packets: Seq<u64>, lo: int, hi: int)
    requires
        0 <= lo,
    ensures
        frames_of(packets) >= 0,
        played_of_all(packets, lo, hi) == played_of(0, frames_of(packets), lo, hi),
    decreases packets.len(),
{
    if packets.len() > 0 {
        packets_play_the_window(packets.drop_last(), lo, hi);
    }
}

/// After a seek the rest of the recording is played, however its packets are
/// cut, where they reach to its end.
pub proof fn seeks_play_the_rest(window: PlayWindow, target: u64, packets: Seq<u64>)
    requires
        frames_of(packets) >= window.emit_hi,
    ensures
        played_of_all(
            packets,
            window.pre_skip + lesser(target as int, window.length()),
            window.emit_hi as int,
        ) == window.length() - lesser(target as int, window.length()),
{
    packets_play_the_window(
        packets,
        window.pre_skip + lesser(target as int, window.length()),
        window.emit_hi as int,
    );
}

impl PlayWindow {
    /// A stream that has not been played: all of it but the padding.
    pub fn new(pre_skip: u16, end_granule: u64) -> (r: Self)
        ensures
            r == (PlayWindow {
                pre_skip: pre_skip as u64,
                emit_lo: pre_skip as u64,
                emit_hi: end_granule,
                cursor: 0,
            }),
    {
        PlayWindow {
            pre_skip: pre_skip as u64,
            emit_lo: pre_skip as u64,
            emit_hi: end_granule,
            cursor: 0,
        }
    }

    /// The length of the recording.
    pub open spec fn length(&self) -> int {
        if self.emit_hi > self.pre_skip {
            self.emit_hi - self.pre_skip
        } else {
            0
        }
    }

    /// The length of the recording.
    pub fn playable(&self) -> (r: u64)
        ensures
            r == self.length(),
    {
        if self.emit_hi > self.pre_skip {
            self.emit_hi - self.pre_skip
        } else {
            0
        }
    }

    /// Goes to a position of the recording, at most its end; decoding starts
    /// over.
    pub fn seek_to(&mut self, target: u64)
        ensures
            final(self).emit_lo == old(self).pre_skip + lesser(target as int, old(self).length()),
            final(self).cursor == 0,
            final(self).pre_skip == old(self).pre_skip,
            final(self).emit_hi == old(self).emit_hi,
    {
        let length: u64 = self.playable();
        self.emit_lo = self.pre_skip + (if target < length { target } else { length });
        self.cursor = 0;
    }

    /// Whether nothing is left to decode.
    pub fn is_done(&self) -> (r: bool)
        ensures
            r == (self.cursor >= self.emit_hi),
    {
        self.cursor >= self.emit_hi
    }

    /// A packet of some frames was decoded: the slice of it that is played, if
    /// any.
    pub fn advance(&mut self, frames: u64) -> (r: Option<PacketSlice>)
        requires
            old(self).cursor + frames <= u64::MAX,
        ensures
            final(self).cursor == old(self).cursor + frames,
            final(self).emit_lo == old(self).emit_lo,
            final(self).emit_hi == old(self).emit_hi,
            final(self).pre_skip == old(self).pre_skip,
            ({
                let start = old(self).cursor as int;
                let lo = if start > old(self).emit_lo { start } else { old(self).emit_lo as int };
                let hi = lesser(start + frames, old(self).emit_hi as int);
                match r {
                    Some(s) => lo < hi && s.offset == lo - start && s.take == hi - lo && s.offset
                        + s.take <= frames,
                    None => lo >= hi,
                }
            }),
            (match r {
                Some(s) => s.take as int,
                None => 0,
            }) == played_of(
                old(self).cursor as int,
                frames as int,
                old(self).emit_lo as int,
                old(self).emit_hi as int,
            ),
    {
        let start: u64 = self.cursor;
        self.cursor = start + frames;
        let lo: u64 = if start > self.emit_lo { start } else { self.emit_lo };
        let hi: u64 = if start + frames < self.emit_hi { start + frames } else { self.emit_hi };
        if lo >= hi {
            None
        } else {
            Some(PacketSlice { offset: lo - start, take: hi - lo })
        }
    }
}

}
