use sender::audio::{open_voice_note, voice_note};
use sender::backend::{ChatId, MediaKind, Message, MessageId, MessageMedia};
use sender::tui::player::{
    is_same_session, known_duration, Engine, PlayKey, PlayState, PlayStep, Worker,
};

fn key(chat: i64, id: &str) -> PlayKey {
    PlayKey { chat: ChatId::Telegram(chat), message_id: MessageId(id.to_string()) }
}

#[test]
fn malformed_bytes_report_error_status() {
    let mut engine = Engine::new();
    let bytes = b"definitely not audio".to_vec();
    assert!(open_voice_note(&bytes).is_err());
    engine.load(voice_note(&bytes).is_some());
    assert_eq!(engine.poll(true), PlayState::Error);
}

#[test]
fn a_session_is_loaded_played_paused_and_stopped() {
    let mut engine = Engine::new();
    engine.load(true);
    assert_eq!(engine.poll(true), PlayState::Paused);
    assert_eq!(engine.play(), PlayStep::Attach { open: true });
    engine.attach(true);
    assert_eq!(engine.poll(false), PlayState::Playing);
    assert!(engine.pause());
    assert_eq!(engine.poll(false), PlayState::Paused);
    assert!(!engine.pause());
    assert!(engine.can_seek());
    assert_eq!(engine.play(), PlayStep::Resume);
    engine.stop();
    assert_eq!(engine.poll(true), PlayState::Stopped);
}

#[test]
fn engine_reports_eof_as_stopped() {
    let mut engine = Engine::new();
    engine.load(true);
    engine.play();
    engine.attach(true);
    assert_eq!(engine.poll(false), PlayState::Playing);
    assert_eq!(engine.poll(true), PlayState::Stopped);
}

#[test]
fn play_after_eof_restarts_from_the_beginning() {
    let mut engine = Engine::new();
    engine.load(true);
    engine.play();
    engine.attach(true);
    assert_eq!(engine.poll(true), PlayState::Stopped);
    assert_eq!(engine.play(), PlayStep::Reload);
    engine.load(true);
    assert_eq!(engine.play(), PlayStep::Attach { open: true });
    engine.attach(true);
    assert_eq!(engine.poll(false), PlayState::Playing);
}

#[test]
fn stop_forgets_session_so_play_does_not_restart() {
    let mut engine = Engine::new();
    engine.load(true);
    engine.stop();
    assert_eq!(engine.poll(true), PlayState::Stopped);
    assert_eq!(engine.play(), PlayStep::Nothing);
    assert_eq!(
        engine.poll(true),
        PlayState::Stopped,
        "an explicitly stopped session must not come back on play"
    );
}

#[test]
fn play_without_loaded_media_stays_stopped() {
    let mut engine = Engine::new();
    assert_eq!(engine.play(), PlayStep::Nothing);
    assert_eq!(engine.poll(true), PlayState::Stopped);
}

#[test]
fn a_missing_device_can_be_tried_again() {
    let mut engine = Engine::new();
    engine.load(true);
    engine.play();
    engine.attach(false);
    assert_eq!(engine.poll(true), PlayState::Error);
    assert_eq!(engine.play(), PlayStep::Attach { open: true });
}

#[test]
fn a_worker_reports_only_its_session() {
    let mut worker = Worker::new();
    assert_eq!(worker.report(PlayState::Playing), None);
    let src = key(1, "42");
    assert_eq!(worker.begin(src.clone()), Some(src.clone()));
    assert_eq!(worker.report(PlayState::Paused), Some(src.clone()));
    assert_eq!(worker.tick(PlayState::Paused), None);
    assert_eq!(worker.report(PlayState::Playing), Some(src.clone()));
    assert_eq!(worker.tick(PlayState::Playing), Some(src.clone()));
    assert_eq!(worker.tick(PlayState::Stopped), Some(src.clone()));
    assert_eq!(worker.tick(PlayState::Stopped), None);
    assert!(is_same_session(Some(&src), &key(1, "42")));
    assert!(!is_same_session(Some(&src), &key(1, "43")));
    assert!(!is_same_session(None, &src));
}

#[test]
fn opening_audio_does_not_autoplay() {
    let mut worker = Worker::new();
    let mut engine = Engine::new();
    let src = PlayKey { chat: ChatId::Myself, message_id: MessageId::from("audio-1") };
    assert_eq!(worker.begin(src.clone()), Some(src.clone()));
    assert_eq!(worker.prev_status, PlayState::Loading);
    engine.load(true);
    assert_eq!(worker.report(engine.poll(true)), Some(src));
    assert_eq!(
        worker.prev_status,
        PlayState::Paused,
        "load must leave media paused, not playing"
    );
}

#[test]
fn failed_load_reports_error_state() {
    let mut worker = Worker::new();
    let mut engine = Engine::new();
    let src = key(1, "42");
    assert_eq!(worker.begin(src.clone()), Some(src.clone()));
    assert_eq!(worker.prev_status, PlayState::Loading);
    engine.load(false);
    assert_eq!(worker.report(engine.poll(true)), Some(src));
    assert_eq!(worker.prev_status, PlayState::Error);
}

#[test]
fn a_reported_length_is_shown_until_the_first_decode() {
    let message = |media: Option<MessageMedia>| Message {
        message_id: MessageId::from("audio-1"),
        chat: ChatId::Myself,
        sender: "Maria".into(),
        author_id: None,
        text: String::new(),
        timestamp: 100,
        from_me: false,
        msg_actions: Vec::new(),
        media,
        reply_to_id: None,
        reply_ctx: None,
        pending: false,
        failed: false,
    };
    let with =
        |kind: MediaKind| message(Some(MessageMedia { kind, caption: None, file_name: None }));
    let audio = |duration_secs| MediaKind::Audio { duration_secs, is_voice: true, waveform: None };
    assert_eq!(known_duration(&with(audio(Some(2)))), 2);
    assert_eq!(known_duration(&with(audio(None))), 0);
    assert_eq!(known_duration(&with(MediaKind::Video)), 0);
    assert_eq!(known_duration(&message(None)), 0);
}
