//! Laws of what is shared by the screens and the providers: times and errors in
//! words, heights, labels, addresses, and the checks on a recording.
use vstd::prelude::*;

use crate::audio::{
    best_rate, bucket_of, is_ogg, pcm_fault, plan_of, wanted_more, AudioFault, ConfigRange,
};
use crate::backend::{
    client_error, error_text, id_text, media_label, switched_on, tag_of, BackendErrorV, ChatIdV,
    ClientFailure, MediaKindV, MessageAction, MessageV, Provider,
};
use crate::config::ProvidersConfig;
use crate::helpers::{actions_of, ago, broken_rows, popup_height, qr_text};
use crate::jid::{bare, canonical, jid_of, pn_address, user_base_of};
use crate::text::{blank, decimal, decimal_int, line_list};

verus! {

/// A time is named by whole minutes within the hour, by whole hours within the
/// day, and by whole days from then on; what is less than a minute ago, or still
/// to come, is just now.
pub proof fn times_are_told_in_whole_units(now: int, ts: int, n: int)
    requires
        now - ts <= i64::MAX,
    ensures
        now - ts < 60 ==> ago(now, ts) == "just now"@,
        1 <= n < 60 && n * 60 <= now - ts < (n + 1) * 60 ==> ago(now, ts) == decimal(n as nat)
            + "m ago"@,
        1 <= n < 24 && n * 3600 <= now - ts < (n + 1) * 3600 ==> ago(now, ts) == decimal(n as nat)
            + "h ago"@,
        1 <= n && n * 86400 <= now - ts < (n + 1) * 86400 ==> ago(now, ts) == decimal(n as nat)
            + "d ago"@,
{
}

/// Any confirmed message can be replied to, and the user's own can be edited and
/// deleted; nothing can be done with a message that is not confirmed.
pub proof fn own_messages_can_be_changed(m: MessageV)
    ensures
        actions_of(m).contains(MessageAction::Reply) <==> !m.pending && !m.failed,
        actions_of(m).contains(MessageAction::Edit) <==> !m.pending && !m.failed && m.from_me,
        actions_of(m).contains(MessageAction::Delete) <==> !m.pending && !m.failed && m.from_me,
        actions_of(m).len() > 0 ==> actions_of(m)[0] == MessageAction::Reply,
        forall|i: int, j: int|
            0 <= i < j < actions_of(m).len() ==> #[trigger] actions_of(m)[i]
                != #[trigger] actions_of(m)[j],
{
    let s = actions_of(m);
    if !m.pending && !m.failed {
        assert(s[0] == MessageAction::Reply);
        if m.from_me {
            assert(s[1] == MessageAction::Edit);
            assert(s[2] == MessageAction::Delete);
        }
    }
}

/// Each line takes a row for every full width, and at least one.
pub proof fn lines_take_their_rows(ls: Seq<Seq<char>>, line: Seq<char>, width: int)
    requires
        width > 0,
    ensures
        broken_rows(Seq::empty(), width) == 0,
        broken_rows(ls, width) >= ls.len(),
        ({
            let more = broken_rows(ls.push(line), width) - broken_rows(ls, width);
            &&& more >= 1
            &&& more > 1 ==> more * width <= line.len()
            &&& line.len() < (more + 1) * width
        }),
    decreases ls.len(),
{
    if ls.len() > 0 {
        lines_take_their_rows(ls.drop_last(), line, width);
    }
    let all = ls.push(line);
    assert(all.drop_last() =~= ls);
    let n = line.len() as int;
    let q = n / width;
    assert(q * width <= n < (q + 1) * width) by (nonlinear_arith)
        requires
            q == n / width,
            width > 0,
    ;
    if q < 1 {
        assert(n < (1 + 1) * width) by (nonlinear_arith)
            requires
                n < (q + 1) * width,
                q < 1,
                width > 0,
        ;
    }
}

/// A popup is no higher than the area without its margin, and where there is
/// room it holds every row, its frame, and its footer.
pub proof fn popups_hold_their_text(msg: Seq<char>, width: u16, area_height: u16, footer: bool)
    requires
        width > 4,
    ensures
        popup_height(msg, width, area_height, footer) + 4 <= area_height || popup_height(
            msg,
            width,
            area_height,
            footer,
        ) == 0,
        broken_rows(line_list(msg), width - 4) + 10 <= area_height ==> popup_height(
            msg,
            width,
            area_height,
            true,
        ) == broken_rows(line_list(msg), width - 4) + 6 && popup_height(
            msg,
            width,
            area_height,
            false,
        ) == broken_rows(line_list(msg), width - 4) + 4,
{
    lines_take_their_rows(line_list(msg), Seq::empty(), width - 4);
}

/// A pairing code is shown as its picture, or in words where it has none.
pub proof fn pairing_codes_are_shown(payload: Seq<char>, art: Seq<char>)
    ensures
        blank(payload) ==> qr_text(payload, Some(art)) == "Waiting for a QR code..."@ && qr_text(
            payload,
            None,
        ) == "Waiting for a QR code..."@,
        !blank(payload) ==> qr_text(payload, Some(art)) == art,
        !blank(payload) ==> payload.is_suffix_of(qr_text(payload, None)),
{
    if !blank(payload) {
        let t = qr_text(payload, None);
        assert(t.subrange(t.len() - payload.len(), t.len() as int) =~= payload);
    }
}

/// Each provider has its own switch.
pub proof fn providers_have_their_own_switch(c: ProvidersConfig)
    ensures
        switched_on(Provider::Telegram, c) == c.telegram.enabled,
        switched_on(Provider::WhatsApp, c) == c.whatsapp,
{
}

/// A chat's tag and the text of its id tell its provider.
pub proof fn chats_are_tagged_by_provider(n: i64, raw: Seq<char>)
    ensures
        tag_of(ChatIdV::Telegram(n)) == "TG"@,
        tag_of(ChatIdV::WhatsApp(raw)) == "WA"@,
        tag_of(ChatIdV::Myself) == "ME"@,
        id_text(ChatIdV::Telegram(n)) == "tg:"@ + decimal_int(n as int),
        id_text(ChatIdV::WhatsApp(raw)) == "wa:"@ + raw,
        id_text(ChatIdV::Myself) == "me"@,
{
}

/// Each kind of media has its own label.
pub proof fn media_are_labelled_by_kind(
    duration_secs: Option<u32>,
    is_voice: bool,
    waveform: Option<Seq<u8>>,
)
    ensures
        media_label(MediaKindV::Image) == "Image"@,
        media_label(MediaKindV::Audio { duration_secs, is_voice, waveform }) == "Audio"@,
        media_label(MediaKindV::Video) == "Video"@,
        media_label(MediaKindV::Document) == "Document"@,
        media_label(MediaKindV::Sticker) == "Sticker"@,
        media_label(MediaKindV::Unsupported) == "Media"@,
{
}

/// An error says what went wrong, and a wait for how long.
pub proof fn errors_say_what_went_wrong(n: u64, s: Seq<char>, text: String)
    ensures
        error_text(BackendErrorV::NotAuthenticated) == "not authenticated"@,
        error_text(BackendErrorV::FloodWait(n)) == "Telegram rate limited; retry after "@
            + decimal(n as nat) + " seconds"@,
        s.is_suffix_of(error_text(BackendErrorV::Other(s))),
        client_error(ClientFailure::NotLoggedIn) == BackendErrorV::NotAuthenticated,
        client_error(ClientFailure::NotConnected) == BackendErrorV::Other(
            "WhatsApp: not connected"@,
        ),
        client_error(ClientFailure::Other(text)) == BackendErrorV::Other("WhatsApp: "@ + text@),
{
    let t = error_text(BackendErrorV::Other(s));
    assert(t.subrange(t.len() - s.len(), t.len() as int) =~= s);
}

/// The bare form of an address is its user and its server around an at sign, and
/// the server alone without a user; a text that is no address is left as it is.
pub proof fn bare_addresses_have_two_parts(s: Seq<char>, user: Seq<char>, server: Seq<char>)
    ensures
        user.len() == 0 ==> bare(user, server) == server,
        user.len() > 0 ==> bare(user, server) == user + seq!['@'] + server,
        user.len() > 0 ==> pn_address(user) == user + seq!['@'] + "s.whatsapp.net"@,
        jid_of(s) is None ==> canonical(s) == s,
        jid_of(s) is Some && jid_of(s).unwrap().0 == user && jid_of(s).unwrap().1 == server
            && user.len() > 0 ==> canonical(s) == user + seq!['@'] + server,
{
    reveal_strlit("@");
    assert("@"@ =~= seq!['@']);
}

/// The base of a user part is what comes before the device: it begins the part,
/// has no colon, and all of the part is it where the part has none.
pub proof fn user_bases_have_no_device(user: Seq<char>)
    ensures
        user_base_of(user).is_prefix_of(user),
        !user_base_of(user).contains(':'),
        !user.contains(':') ==> user_base_of(user) == user,
        user.contains(':') ==> user_base_of(user).len() < user.len() && user[user_base_of(
            user,
        ).len() as int] == ':',
{
    let n = crate::text::next_of(user, ':', 0);
    crate::text::next_of_bounds(user, ':', 0);
    let b = user_base_of(user);
    assert(b =~= user.take(n));
    if b.contains(':') {
        let k = choose|k: int| 0 <= k < b.len() && b[k] == ':';
        assert(user[k] == ':');
    }
    if user.contains(':') {
        let k = choose|k: int| 0 <= k < user.len() && user[k] == ':';
        assert(user[k] == ':');
    }
}

/// A recording can be encoded exactly where it has whole frames of one channel
/// or two, at a rate that Opus knows.
pub proof fn recordings_are_checked(len: int, rate: u32, channels: u16)
    requires
        len >= 0,
    ensures
        pcm_fault(len, rate, channels) is None <==> (channels == 1 || (channels == 2 && len % 2
            == 0)) && len > 0 && (rate == 8_000 || rate == 12_000 || rate == 16_000 || rate
            == 24_000 || rate == 48_000),
        channels != 1 && channels != 2 ==> pcm_fault(len, rate, channels) == Some(
            AudioFault::UnsupportedChannels(channels),
        ),
        pcm_fault(len, rate, channels) matches Some(AudioFault::UnsupportedSampleRate(r)) ==> r
            == rate,
        len == 0 && pcm_fault(len, rate, channels) is Some && (channels == 1 || channels == 2) && (
        rate == 8_000 || rate == 12_000 || rate == 16_000 || rate == 24_000 || rate == 48_000)
            ==> pcm_fault(len, rate, channels) == Some(AudioFault::EmptyRecording),
{
}

/// Among configurations of one rate, a single channel goes before several, then
/// float samples before others, then fewer channels before more.
pub proof fn single_channels_are_preferred(a: ConfigRange, b: ConfigRange)
    requires
        best_rate(a) is Some,
        best_rate(b) is Some,
    ensures
        best_rate(a).unwrap() > best_rate(b).unwrap() ==> wanted_more(a, b) && !wanted_more(b, a),
        best_rate(a) == best_rate(b) && a.channels == 1 && b.channels != 1 ==> wanted_more(a, b),
        best_rate(a) == best_rate(b) && a.channels == b.channels && a.is_f32 && !b.is_f32
            ==> wanted_more(a, b),
        best_rate(a) == best_rate(b) && a.channels != 1 && b.channels != 1 && a.is_f32 && !b.is_f32
            ==> wanted_more(a, b),
        best_rate(a) == best_rate(b) && a.is_f32 == b.is_f32 && 1 < a.channels < b.channels
            ==> wanted_more(a, b),
        !wanted_more(a, a),
{
}

/// An Ogg file begins with its four letters.
pub proof fn ogg_files_begin_with_their_name(bytes: Seq<u8>)
    ensures
        is_ogg(bytes) <==> bytes.len() >= 4 && bytes[0] == 0x4f && bytes[1] == 0x67 && bytes[2]
            == 0x67 && bytes[3] == 0x53,
{
    if bytes.len() >= 4 {
        let t = bytes.take(4);
        assert(t[0] == bytes[0] && t[1] == bytes[1] && t[2] == bytes[2] && t[3] == bytes[3]);
        if bytes[0] == 0x4f && bytes[1] == 0x67 && bytes[2] == 0x67 && bytes[3] == 0x53 {
            assert(t =~= seq![0x4fu8, 0x67u8, 0x67u8, 0x53u8]);
        }
    }
}

/// The first bar of a waveform begins with the recording, the last one ends with
/// it, and each begins no later than the one before it ends.
pub proof fn bars_cover_the_recording(len: int, buckets: int, b: int)
    requires
        0 < len,
        0 <= b < buckets,
    ensures
        bucket_of(len, buckets, 0).0 == 0,
        buckets <= len ==> bucket_of(len, buckets, buckets - 1).1 == len,
        bucket_of(len, buckets, b + 1).0 <= bucket_of(len, buckets, b).1,
        buckets <= len ==> bucket_of(len, buckets, b + 1).0 == bucket_of(len, buckets, b).1,
{
    assert(0 * len / buckets == 0) by (nonlinear_arith)
        requires
            buckets > 0,
    ;
    assert(buckets * len / buckets == len) by (nonlinear_arith)
        requires
            buckets > 0,
    ;
    assert((b + 1) * len / buckets >= b * len / buckets) by (nonlinear_arith)
        requires
            buckets > 0,
            len > 0,
            b >= 0,
    ;
    if buckets <= len {
        full_bars(len, buckets, b);
        full_bars(len, buckets, buckets - 1);
    }
}

proof fn full_bars(len: int, buckets: int, b: int)
    requires
        0 < buckets <= len,
        0 <= b,
    ensures
        (b + 1) * len / buckets > b * len / buckets,
{
    let q = b * len / buckets;
    assert(q * buckets <= b * len) by (nonlinear_arith)
        requires
            q == b * len / buckets,
            buckets > 0,
    ;
    assert((b + 1) * len >= (q + 1) * buckets) by (nonlinear_arith)
        requires
            q * buckets <= b * len,
            buckets <= len,
    ;
    assert((b + 1) * len / buckets >= q + 1) by (nonlinear_arith)
        requires
            (b + 1) * len >= (q + 1) * buckets,
            buckets > 0,
    ;
}

proof fn rounded_up(a: int, b: int)
    requires
        0 <= a,
        0 < b,
    ensures
        crate::audio::div_up(a, b) >= 0,
        crate::audio::div_up(a, b) * b >= a,
        (crate::audio::div_up(a, b) - 1) * b < a,
{
    let q = crate::audio::div_up(a, b);
    assert(q * b <= a + b - 1 < (q + 1) * b && q >= 0) by (nonlinear_arith)
        requires
            q == (a + b - 1) / b,
            a >= 0,
            b > 0,
    ;
    assert((q - 1) * b == q * b - b && (q + 1) * b == q * b + b) by (nonlinear_arith);
}

/// Packets are twenty milliseconds long, at every rate, and there are enough of
/// them for the recording and the encoder's delay, and none to spare.
pub proof fn packets_are_twenty_milliseconds(
    len: int,
    rate: u32,
    channels: u16,
    pre_skip: int,
)
    requires
        pcm_fault(len, rate, channels) is None,
        len >= 0,
        0 <= pre_skip,
    ensures
        ({
            let (frame, per_frame, frames, granule) = plan_of(
                len,
                rate as int,
                channels as int,
                pre_skip,
            );
            let ticks = 48_000int / rate as int;
            &&& frame * 50 == rate
            &&& per_frame == frame * channels
            &&& granule * channels == pre_skip * channels + len * ticks
            &&& frames * frame >= len / channels as int
            &&& (frames * frame - len / channels as int) * ticks >= pre_skip
            &&& ((frames - 1) * frame - len / channels as int) * ticks < pre_skip
        }),
{
    let r = rate as int;
    let frame = r / 50;
    let ticks = 48_000int / r;
    let ch = channels as int;
    let total = len / ch;
    let ahead = crate::audio::div_up(pre_skip, ticks);
    let frames = crate::audio::div_up(total + ahead, frame);
    assert(total * ch == len && total >= 0);
    assert(ticks == 1 || ticks == 2 || ticks == 3 || ticks == 4 || ticks == 6);
    assert(frame == 160 || frame == 240 || frame == 320 || frame == 480 || frame == 960);
    assert((total * ticks) * ch == len * ticks) by (nonlinear_arith)
        requires
            total * ch == len,
    ;
    assert((pre_skip + total * ticks) * ch == pre_skip * ch + (total * ticks) * ch)
        by (nonlinear_arith);
    rounded_up(pre_skip, ticks);
    let n = total + ahead;
    rounded_up(n, frame);
    assert((frames * frame - total) * ticks >= ahead * ticks) by (nonlinear_arith)
        requires
            frames * frame - total >= ahead,
            ticks >= 0,
    ;
    assert(((frames - 1) * frame - total) * ticks <= (ahead - 1) * ticks) by (nonlinear_arith)
        requires
            (frames - 1) * frame - total <= ahead - 1,
            ticks >= 0,
    ;
}

}
