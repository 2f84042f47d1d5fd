//! The audio session: what the player reports, and when.
use vstd::prelude::*;
use vstd::std_specs::cmp::PartialEqSpecImpl;

use crate::backend::{ChatId, ChatIdV, MediaKind, MediaKindV, Message, MessageId, MessageV};

verus! {

/// Where an audio session stands.
#[derive(Clone, Copy, Debug, PartialEq, Eq, Structural)]
pub enum PlayState {
    /// Nothing is loaded.
    Stopped,
    /// The bytes of a message are being handed over.
    Loading,
    Playing,
    Paused,
    /// The media could not be loaded or decoded.
    Error,
}

/// The message that an audio session belongs to.
#[derive(Debug, Eq)]
pub struct PlayKey {
    pub chat: ChatId,
    pub message_id: MessageId,
}

impl View for PlayKey {
    type V = (ChatIdV, Seq<char>);

    open spec fn view(&self) -> (ChatIdV, Seq<char>) {
        (self.chat@, self.message_id@)
    }
}

impl Clone for PlayKey {
    fn clone(&self) -> (r: Self)
        ensures
            r == *self,
    {
        PlayKey { chat: self.chat.clone(), message_id: self.message_id.clone() }
    }
}

impl PartialEq for PlayKey {
    fn eq(&self, other: &PlayKey) -> (r: bool) {
        self.chat == other.chat && self.message_id == other.message_id
    }
}

impl PartialEqSpecImpl for PlayKey {
    open spec fn obeys_eq_spec() -> bool {
        true
    }

    open spec fn eq_spec(&self, other: &PlayKey) -> bool {
        self@ == other@
    }
}

/// The reporting side of the player: whose session it is, and what was last
/// reported of it.
#[derive(Debug)]
pub struct Worker {
    pub source: Option<PlayKey>,
    pub prev_status: PlayState,
}

impl Worker {
    /// No session.
    pub fn new() -> (r: Self)
        ensures
            r.source is None,
            r.prev_status == PlayState::Stopped,
    {
        Worker { source: None, prev_status: PlayState::Stopped }
    }

    /// A session begins: it is reported as loading.
    pub fn begin(&mut self, source: PlayKey) -> (r: Option<PlayKey>)
        ensures
            final(self).source == Some(source),
            final(self).prev_status == PlayState::Loading,
            r == Some(source),
    {
        self.source = Some(source);
        self.report(PlayState::Loading)
    }

    /// What is reported after a command or a change: the session it is of;
    /// nothing without a session.
    pub fn report(&mut self, status: PlayState) -> (r: Option<PlayKey>)
        ensures
            r == old(self).source,
            final(self).source == old(self).source,
            final(self).prev_status == if old(self).source is Some {
                status
            } else {
                old(self).prev_status
            },
    {
        let source: Option<PlayKey> = match &self.source {
            Some(k) => Some(k.clone()),
            None => None,
        };
        if source.is_some() {
            self.prev_status = status;
        }
        source
    }

    /// The report timer ticked: while playing, and when the engine changed by
    /// itself, the session is reported.
    pub fn tick(&mut self, status: PlayState) -> (r: Option<PlayKey>)
        ensures
            r == if status == PlayState::Playing || status != old(self).prev_status {
                old(self).source
            } else {
                None
            },
            final(self).source == old(self).source,
            final(self).prev_status == if r is Some {
                status
            } else {
                old(self).prev_status
            },
    {
        if status == PlayState::Playing || status != self.prev_status {
            self.report(status)
        } else {
            None
        }
    }
}

/// Whether a report of the player belongs to the session that is shown.
pub fn is_same_session(shown: Option<&PlayKey>, source: &PlayKey) -> (r: bool)
    ensures
        r == (shown is Some && shown.unwrap()@ == source@),
{
    match shown {
        Some(k) => *k == *source,
        None => false,
    }
}

/// The length that a provider reports of an audio message, in seconds; 0 where
/// it reports none.
pub open spec fn reported_secs(m: MessageV) -> u32 {
    match m.media {
        Some(media) => match media.kind {
            MediaKindV::Audio { duration_secs: Some(secs), .. } => secs,
            _ => 0,
        },
        None => 0,
    }
}

/// The length that is shown of an audio message until it is decoded.
pub fn known_duration(m: &Message) -> (r: u32)
    ensures
        r == reported_secs(m@),
{
    match &m.media {
        Some(media) => match &media.kind {
            MediaKind::Audio { duration_secs: Some(secs), .. } => *secs,
            _ => 0,
        },
        None => 0,
    }
}

/// What the engine does to start playing.
#[derive(Clone, Copy, Debug, PartialEq, Eq, Structural)]
pub enum PlayStep {
    /// Nothing: there is no session.
    Nothing,
    /// Decode the kept bytes again, report what came of it, and ask again.
    Reload,
    /// Hand the decoded source to the output, which is opened first where it is
    /// not open; report whether it could be.
    Attach { open: bool },
    /// Let the output go on.
    Resume,
}

/// The session of an audio engine: what it holds, apart from the sound itself.
#[derive(Clone, Copy, Debug, PartialEq, Eq, Structural)]
pub struct Engine {
    pub status: PlayState,
    /// Whether an output is attached.
    pub attached: bool,
    /// Whether a source is loaded.
    pub loaded: bool,
    /// Whether the loaded source still waits to be handed to an output.
    pub pending: bool,
    /// Whether the bytes of the session are kept.
    pub kept: bool,
}

impl Engine {
    /// What holds of every session: a source waits only where one is loaded,
    /// one is loaded only from kept bytes, and only a loaded one plays.
    pub open spec fn wf(&self) -> bool {
        &&& self.pending ==> self.loaded
        &&& self.loaded ==> self.kept
        &&& self.status == PlayState::Playing ==> self.loaded && !self.pending
        &&& self.status == PlayState::Paused ==> self.loaded
        &&& self.status != PlayState::Loading
    }

    /// No session.
    pub fn new() -> (r: Self)
        ensures
            r == no_session(),
            r.wf(),
    {
        Engine {
            status: PlayState::Stopped,
            attached: false,
            loaded: false,
            pending: false,
            kept: false,
        }
    }

    /// Bytes were decoded, or refused. Whatever was playing ends.
    pub fn load(&mut self, decoded: bool)
        ensures
            *final(self) == session_loaded(*old(self), decoded),
            final(self).wf(),
    {
        self.attached = false;
        self.loaded = decoded;
        self.pending = decoded;
        self.kept = decoded;
        self.status = if decoded { PlayState::Paused } else { PlayState::Error };
    }

    /// Playing is asked for. A session that reached its end starts over.
    pub fn play(&mut self) -> (r: PlayStep)
        requires
            old(self).wf(),
        ensures
            r == play_step(*old(self)),
            *final(self) == play_asked(*old(self)),
            final(self).wf(),
    {
        if !self.loaded {
            if self.kept {
                return PlayStep::Reload;
            }
            self.status = PlayState::Stopped;
            return PlayStep::Nothing;
        }
        if self.pending {
            return PlayStep::Attach { open: !self.attached };
        }
        self.status = PlayState::Playing;
        PlayStep::Resume
    }

    /// The source was handed to an output, or no output could be opened: then
    /// it keeps waiting, so that playing can be asked for again.
    pub fn attach(&mut self, opened: bool)
        requires
            old(self).wf(),
            old(self).pending,
        ensures
            *final(self) == session_attached(*old(self), opened),
            final(self).wf(),
    {
        if opened {
            self.attached = true;
            self.pending = false;
            self.status = PlayState::Playing;
        } else {
            self.status = PlayState::Error;
        }
    }

    /// A pause is asked for. Returns whether there is anything to pause.
    pub fn pause(&mut self) -> (r: bool)
        requires
            old(self).wf(),
        ensures
            r == (old(self).status == PlayState::Playing),
            *final(self) == session_paused(*old(self)),
            final(self).wf(),
    {
        if self.status == PlayState::Playing {
            self.status = PlayState::Paused;
            true
        } else {
            false
        }
    }

    /// Whether a position can be moved to: only in a loaded source.
    pub fn can_seek(&self) -> (r: bool)
        ensures
            r == self.loaded,
    {
        self.loaded
    }

    /// The session ends and is forgotten.
    pub fn stop(&mut self)
        ensures
            *final(self) == no_session(),
            final(self).wf(),
    {
        *self = Engine::new();
    }

    /// The output was looked at: once it has run empty the session is over, and
    /// its bytes are kept.
    pub fn poll(&mut self, output_empty: bool) -> (r: PlayState)
        requires
            old(self).wf(),
        ensures
            *final(self) == session_polled(*old(self), output_empty),
            r == final(self).status,
            final(self).wf(),
    {
        if self.status == PlayState::Playing && self.attached && output_empty {
            self.attached = false;
            self.loaded = false;
            self.status = PlayState::Stopped;
        }
        self.status
    }
}

/// An engine without a session.
pub open spec fn no_session() -> Engine {
    Engine {
        status: PlayState::Stopped,
        attached: false,
        loaded: false,
        pending: false,
        kept: false,
    }
}

/// An engine that was given bytes.
pub open spec fn session_loaded(e: Engine, decoded: bool) -> Engine {
    Engine {
        status: if decoded {
            PlayState::Paused
        } else {
            PlayState::Error
        },
        attached: false,
        loaded: decoded,
        pending: decoded,
        kept: decoded,
    }
}

/// What the engine does to start playing.
pub open spec fn play_step(e: Engine) -> PlayStep {
    if !e.loaded {
        if e.kept {
            PlayStep::Reload
        } else {
            PlayStep::Nothing
        }
    } else if e.pending {
        PlayStep::Attach { open: !e.attached }
    } else {
        PlayStep::Resume
    }
}

/// An engine that was asked to play.
pub open spec fn play_asked(e: Engine) -> Engine {
    match play_step(e) {
        PlayStep::Nothing => Engine { status: PlayState::Stopped, ..e },
        PlayStep::Resume => Engine { status: PlayState::Playing, ..e },
        _ => e,
    }
}

/// An engine whose source was handed to an output, or found none.
pub open spec fn session_attached(e: Engine, opened: bool) -> Engine {
    if opened {
        Engine { attached: true, pending: false, status: PlayState::Playing, ..e }
    } else {
        Engine { status: PlayState::Error, ..e }
    }
}

/// An engine that was asked to pause.
pub open spec fn session_paused(e: Engine) -> Engine {
    if e.status == PlayState::Playing {
        Engine { status: PlayState::Paused, ..e }
    } else {
        e
    }
}

/// An engine whose output was looked at.
pub open spec fn session_polled(e: Engine, output_empty: bool) -> Engine {
    if e.status == PlayState::Playing && e.attached && output_empty {
        Engine { attached: false, loaded: false, status: PlayState::Stopped, ..e }
    } else {
        e
    }
}

/// A session that was stopped does not come back when playing is asked for.
pub proof fn stopped_sessions_stay_stopped(output_empty: bool)
    ensures
        play_step(no_session()) == PlayStep::Nothing,
        session_polled(no_session(), output_empty) == no_session(),
{
}

/// A session that reached its end starts over when playing is asked for, from
/// the same bytes.
pub proof fn finished_sessions_start_over(e: Engine)
    requires
        e.wf(),
        e.status == PlayState::Playing,
        e.attached,
    ensures
        session_polled(e, true).status == PlayState::Stopped,
        play_step(session_polled(e, true)) == PlayStep::Reload,
        play_step(session_loaded(session_polled(e, true), true)) == (PlayStep::Attach {
            open: true,
        }),
{
}

/// Loading never starts to play: a loaded session is paused, and its source
/// waits.
pub proof fn loading_does_not_play(e: Engine, decoded: bool)
    ensures
        session_loaded(e, decoded).status != PlayState::Playing,
        decoded ==> session_loaded(e, decoded).status == PlayState::Paused && session_loaded(
            e,
            decoded,
        ).pending,
        !decoded ==> play_step(session_loaded(e, decoded)) == PlayStep::Nothing,
{
}

}
