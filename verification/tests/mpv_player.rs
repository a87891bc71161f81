use servo_shield::mpv_backend::{MpvBackend, SupportsMediaType};
use servo_shield::mpv_events::{event_from_parts, mpv_event_id, MpvEvent};
use servo_shield::mpv_player::{EventResponse, PlaybackStateKind, PlayerLoop, StreamBuffer};

#[test]
fn event_codes_round_trip() {
    for code in 0..30 {
        if let Some(id) = mpv_event_id::from_code(code) {
            assert_eq!(id.code(), code);
        }
    }
    assert_eq!(mpv_event_id::from_code(7), Some(mpv_event_id::MPV_EVENT_END_FILE));
    assert_eq!(mpv_event_id::from_code(9), None);
    assert_eq!(mpv_event_id::MPV_EVENT_HOOK.code(), 25);
}

#[test]
fn events_from_parts() {
    assert!(matches!(event_from_parts(mpv_event_id::MPV_EVENT_END_FILE, None, None), MpvEvent::EndFile(0)));
    assert!(matches!(event_from_parts(mpv_event_id::MPV_EVENT_END_FILE, Some(3), None), MpvEvent::EndFile(3)));
    match event_from_parts(mpv_event_id::MPV_EVENT_PROPERTY_CHANGE, None, Some("pause".to_string())) {
        MpvEvent::PropertyChange(name) => assert_eq!(name, "pause"),
        other => panic!("unexpected {:?}", other),
    }
    assert!(matches!(event_from_parts(mpv_event_id::MPV_EVENT_TICK, None, None), MpvEvent::Other));
    assert!(matches!(event_from_parts(mpv_event_id::MPV_EVENT_NONE, None, None), MpvEvent::NoEvent));
}

#[test]
fn loop_reports_changes_once() {
    let mut state = PlayerLoop::new(1);
    assert_eq!(state.initial_volume(), 100);
    assert_eq!(PlayerLoop::new(2).initial_volume(), 0);
    assert_eq!(state.sync_playing(true), None);
    assert_eq!(state.sync_playing(false), Some(PlaybackStateKind::Paused));
    assert_eq!(state.sync_playing(false), None);
    assert_eq!(state.sync_volume(1), None);
    assert_eq!(state.sync_volume(4), Some(0));
    assert_eq!(state.sync_volume(4), None);
    assert_eq!(state.sync_volume(1), Some(100));
}

#[test]
fn first_round_silences_every_unfocused_player() {
    let mut first = PlayerLoop::new(1);
    assert_eq!(first.sync_volume(2), Some(0));
    let mut second = PlayerLoop::new(2);
    assert_eq!(second.sync_volume(2), Some(100));
    let mut third = PlayerLoop::new(3);
    assert_eq!(third.sync_volume(2), None);
}

#[test]
fn loop_event_responses() {
    let mut state = PlayerLoop::new(3);
    assert_eq!(state.handle_event(&MpvEvent::NoEvent), EventResponse::StopReading);
    assert_eq!(state.handle_event(&MpvEvent::Seek), EventResponse::Report(PlaybackStateKind::Buffering));
    assert_eq!(state.handle_event(&MpvEvent::PlaybackRestart), EventResponse::Restarted { seek_done: None });
    state.note_seek(1.5f64.to_bits());
    state.note_seek(7.25f64.to_bits());
    assert_eq!(
        state.handle_event(&MpvEvent::PlaybackRestart),
        EventResponse::Restarted { seek_done: Some(7.25f64.to_bits()) }
    );
    assert_eq!(state.handle_event(&MpvEvent::PlaybackRestart), EventResponse::Restarted { seek_done: None });
    assert_eq!(state.handle_event(&MpvEvent::EndFile(0)), EventResponse::EndOfFile);
    assert_eq!(state.handle_event(&MpvEvent::EndFile(-1)), EventResponse::Failed("playback error".to_string()));
    assert_eq!(
        state.handle_event(&MpvEvent::EndFile(3)),
        EventResponse::Failed("playback error (end_file reason=3)".to_string())
    );
    assert_eq!(state.handle_event(&MpvEvent::Idle), EventResponse::Continue);
    assert_eq!(state.handle_event(&MpvEvent::Shutdown), EventResponse::Shutdown);
}

#[test]
fn metadata_and_eof_once() {
    let mut state = PlayerLoop::new(1);
    assert_eq!(state.metadata_due(), None);
    state.video_reconfigured(Some((640, 480)));
    assert_eq!(state.metadata_due(), Some((640, 480)));
    assert_eq!(state.metadata_due(), None);
    state.video_reconfigured(Some((1280, 720)));
    assert_eq!(state.metadata_due(), Some((1280, 720)));
    assert!(state.eof_reached(true));
    assert!(!state.eof_reached(true));
    assert!(!state.eof_reached(false));
    assert!(state.eof_reached(true));
}

#[test]
fn stream_buffer_reads_and_seeks() {
    let mut buf = StreamBuffer::new();
    assert_eq!(buf.size(), -1);
    assert!(buf.needs_data(1));
    buf.append(&[1, 2, 3, 4, 5]);
    assert!(!buf.needs_data(5));
    assert_eq!(buf.read(2), vec![1, 2]);
    assert_eq!(buf.read(10), vec![3, 4, 5]);
    assert_eq!(buf.read(4), Vec::<u8>::new());
    assert_eq!(buf.seek(1), 1);
    assert_eq!(buf.read(2), vec![2, 3]);
    assert_eq!(buf.seek(99), 5);
    buf.mark_eos();
    assert!(!buf.needs_data(100));
    assert_eq!(buf.size(), 5);
    assert_eq!(buf.read_position(), 5);
}

#[test]
fn backend_media_types() {
    let backend = MpvBackend::new();
    assert_eq!(backend.can_play_type("video/mp4"), SupportsMediaType::Probably);
    assert_eq!(backend.can_play_type("audio/webm"), SupportsMediaType::Probably);
    assert_eq!(backend.can_play_type("video/x-flv"), SupportsMediaType::No);
    assert_eq!(backend.can_play_type(""), SupportsMediaType::No);
}

#[test]
fn split_reads_match_one_read_after_more_data() {
    let mut one = StreamBuffer::new();
    one.append(&[10, 20, 30, 40]);
    let whole = one.read(3);

    let mut two = StreamBuffer::new();
    two.append(&[10, 20, 30, 40]);
    let mut parts = two.read(1);
    two.append(&[50, 60]);
    parts.extend(two.read(2));
    assert_eq!(parts, whole);
    assert_eq!(parts, vec![10, 20, 30]);
}
