use mpvcast::comms::{Request, Status, Units};
use mpvcast::mpvcast as standalone;
use mpvcast::player::{
    finish_set_volume, handle_event, load_error, plan_command, plan_request, property_error,
    respond, Command, EventNote, ListenerRetries, LoadStep, MpvPlayerState, MpvProperty,
    PlayerEvent, PlayerState,
};
use std::time::Duration;

#[test]
fn player_state_starts_idle() {
    let s = MpvPlayerState::new();
    assert_eq!(s.player_state(), PlayerState::Idle);
    assert_eq!(s.volume(), 0);
}

#[test]
fn set_player_state_reports_change() {
    let mut s = MpvPlayerState::new();
    assert!(s.set_player_state(PlayerState::Playing));
    assert!(!s.set_player_state(PlayerState::Playing));
    assert_eq!(s.player_state(), PlayerState::Playing);
    s.set_volume(65);
    assert_eq!(s.volume(), 65);
    assert_eq!(s.player_state(), PlayerState::Playing);
}

#[test]
fn property_names_and_ids() {
    assert_eq!(MpvProperty::Volume.name(), "volume");
    assert_eq!(MpvProperty::DemuxerCacheState.name(), "demuxer-cache-state");
    assert_eq!(MpvProperty::Volume.reply_id(), 0);
    assert_eq!(MpvProperty::DemuxerCacheState.reply_id(), 1);
}

#[test]
fn server_requests_plan_commands() {
    assert_eq!(plan_request(&Request::browse(1, "/srv".to_string())), Command::Browse);
    assert_eq!(plan_request(&Request::load(2, "a.mkv".to_string())), Command::Load);
    assert_eq!(plan_request(&Request::stop(3)), Command::Stop);
    assert_eq!(plan_request(&Request::pause(4)), Command::Pause);
    assert_eq!(plan_request(&Request::start(5)), Command::Play);
    assert_eq!(plan_request(&Request::volume(6, 70)), Command::SetVolume(70));
}

#[test]
fn seek_requests_plan_commands() {
    let ahead = Request { id: 1, action: 3, amount: Some(30), path: None, unit: Some(1) };
    assert_eq!(plan_request(&ahead), Command::Seek { secs: 30, rewind: false });
    let back = Request { id: 1, action: 3, amount: Some(-45), path: None, unit: Some(1) };
    assert_eq!(plan_request(&back), Command::Seek { secs: 45, rewind: true });
    let zero = Request { id: 1, action: 3, amount: Some(0), path: None, unit: Some(1) };
    assert_eq!(plan_request(&zero), Command::Nothing);
    let no_unit = Request::seek(1, Duration::from_secs(20), Units::NoUnit);
    assert_eq!(plan_request(&no_unit), Command::Nothing);
    let no_amount = Request { id: 1, action: 3, amount: None, path: None, unit: Some(1) };
    assert_eq!(plan_request(&no_amount), Command::Nothing);
    let max = Request { id: 1, action: 3, amount: Some(i64::MAX), path: None, unit: Some(1) };
    assert_eq!(plan_request(&max), Command::Seek { secs: i64::MAX as u64, rewind: false });
    let min_plus = Request { id: 1, action: 3, amount: Some(i64::MIN + 1), path: None, unit: Some(1) };
    assert_eq!(plan_request(&min_plus), Command::Seek { secs: i64::MAX as u64, rewind: true });
}

#[test]
fn standalone_requests_plan_commands() {
    assert_eq!(plan_command(&standalone::Request::load("b".to_string())), Command::Load);
    assert_eq!(plan_command(&standalone::Request::stop()), Command::Stop);
    assert_eq!(plan_command(&standalone::Request::pause()), Command::Pause);
    assert_eq!(plan_command(&standalone::Request::start()), Command::Play);
    assert_eq!(plan_command(&standalone::Request::volume(-3)), Command::SetVolume(-3));
    let back = standalone::Control { action: 3, amount: Some(-10), path: None, unit: Some(1) };
    assert_eq!(plan_command(&back), Command::Seek { secs: 10, rewind: true });
    let seek = standalone::Request::seek(Duration::from_secs(12), Units::Seconds);
    assert_eq!(plan_command(&seek), Command::Seek { secs: 12, rewind: false });
}

#[test]
fn respond_success_and_error() {
    let req = Request::stop(9);
    let ok = respond(&req, Ok(()));
    assert_eq!(ok.request_id, 9);
    assert_eq!(ok.status(), Status::Success);
    assert!(ok.payload.is_empty());
    let err = respond(&req, Err("mpv said no".to_string()));
    assert_eq!(err.request_id, 9);
    assert_eq!(err.status(), Status::Error);
    assert_eq!(err.payload, vec!["mpv said no".to_string()]);
}

#[test]
fn volume_is_kept_only_on_success() {
    let mut state = MpvPlayerState::new();
    let req = Request::volume(4, 35);
    let r = finish_set_volume(&mut state, &req, 35, Ok(()));
    assert_eq!(r.status(), Status::Success);
    assert_eq!(state.volume(), 35);
    let req = Request::volume(5, 90);
    let r = finish_set_volume(&mut state, &req, 90, Err("refused".to_string()));
    assert_eq!(r.status(), Status::Error);
    assert_eq!(r.payload, vec!["refused".to_string()]);
    assert_eq!(state.volume(), 35);
    assert_eq!(state.player_state(), PlayerState::Idle);
}

#[test]
fn error_messages() {
    assert_eq!(
        property_error(MpvProperty::Volume, "Raw(-7)"),
        "Unable to set property 'volume': Raw(-7)"
    );
    assert_eq!(load_error(LoadStep::ClearPlaylist, "x", None), "Unable to clear playlist");
    assert_eq!(
        load_error(LoadStep::ClearPlaylist, "x", Some("\"boom\"")),
        "Unable to clear playlist: \"boom\""
    );
    assert_eq!(
        load_error(LoadStep::LoadFiles, "/v/a.mkv", Some("ignored")),
        "Unable to load files from /v/a.mkv"
    );
    assert_eq!(
        load_error(LoadStep::DisableDeprecatedEvents, "", Some("E")),
        "Unable to disable deprecated events: E"
    );
    assert_eq!(
        load_error(LoadStep::ObserveVolume, "", None),
        "Unable to bind volume in mpv event context"
    );
    assert_eq!(
        load_error(LoadStep::ObserveCacheState, "", Some("E")),
        "Unable to bind demuxer cache state in mpv event context: E"
    );
}

#[test]
fn events_move_the_state() {
    let mut s = MpvPlayerState::new();
    s.set_volume(20);
    let o = handle_event(&mut s, &PlayerEvent::FileLoaded, true);
    assert_eq!(o.note, EventNote::StateChanged);
    assert!(!o.stop);
    assert_eq!(s.player_state(), PlayerState::Loaded);
    handle_event(&mut s, &PlayerEvent::StartFile, true);
    assert_eq!(s.player_state(), PlayerState::Playing);
    handle_event(&mut s, &PlayerEvent::Seek, true);
    assert_eq!(s.player_state(), PlayerState::Seeking);
    handle_event(&mut s, &PlayerEvent::PlaybackRestart, true);
    assert_eq!(s.player_state(), PlayerState::Playing);
    let o = handle_event(&mut s, &PlayerEvent::Other, true);
    assert_eq!(o.note, EventNote::Triggered);
    let o = handle_event(&mut s, &PlayerEvent::Failed, true);
    assert_eq!(o.note, EventNote::Errored);
    assert!(!o.stop);
    assert_eq!(s.player_state(), PlayerState::Playing);
    assert_eq!(s.volume(), 20);
}

#[test]
fn property_changes_are_told_apart() {
    let mut s = MpvPlayerState::new();
    let volume = PlayerEvent::PropertyChange { name: "volume".to_string(), node: false };
    assert_eq!(handle_event(&mut s, &volume, true).note, EventNote::VolumeChanged);
    let cache = PlayerEvent::PropertyChange { name: "demuxer-cache-state".to_string(), node: true };
    assert_eq!(handle_event(&mut s, &cache, true).note, EventNote::SeekableRanges);
    let cache_flat = PlayerEvent::PropertyChange { name: "demuxer-cache-state".to_string(), node: false };
    assert_eq!(handle_event(&mut s, &cache_flat, true).note, EventNote::Triggered);
    let other = PlayerEvent::PropertyChange { name: "pause".to_string(), node: false };
    assert_eq!(handle_event(&mut s, &other, true).note, EventNote::Triggered);
    assert_eq!(s.player_state(), PlayerState::Idle);
}

#[test]
fn end_of_file_daemon_and_one_shot() {
    let mut daemon = MpvPlayerState::new();
    daemon.set_player_state(PlayerState::Playing);
    let o = handle_event(&mut daemon, &PlayerEvent::EndFile, true);
    assert!(o.stop);
    assert_eq!(o.note, EventNote::StreamEnded);
    assert_eq!(daemon.player_state(), PlayerState::Idle);

    let mut once = MpvPlayerState::new();
    once.set_player_state(PlayerState::Playing);
    let o = handle_event(&mut once, &PlayerEvent::EndFile, false);
    assert!(o.stop);
    assert_eq!(once.player_state(), PlayerState::Exiting);
}

#[test]
fn shutdown_ends_the_loop() {
    for daemon in [true, false] {
        let mut s = MpvPlayerState::new();
        let o = handle_event(&mut s, &PlayerEvent::Shutdown, daemon);
        assert!(o.stop);
        assert_eq!(o.note, EventNote::ShuttingDown);
        assert_eq!(s.player_state(), PlayerState::Exiting);
    }
}

#[test]
fn only_end_and_shutdown_stop_the_loop() {
    let events = vec![
        (PlayerEvent::EndFile, true),
        (PlayerEvent::PropertyChange { name: "volume".to_string(), node: false }, false),
        (PlayerEvent::Shutdown, true),
        (PlayerEvent::FileLoaded, false),
        (PlayerEvent::StartFile, false),
        (PlayerEvent::Seek, false),
        (PlayerEvent::PlaybackRestart, false),
        (PlayerEvent::Other, false),
        (PlayerEvent::Failed, false),
    ];
    for (e, stops) in events {
        let mut s = MpvPlayerState::new();
        assert_eq!(handle_event(&mut s, &e, true).stop, stops);
    }
}

#[test]
fn listener_gives_up_after_six_restarts() {
    let mut r = ListenerRetries::new();
    for i in 1..=6 {
        assert!(r.connection_lost());
        assert_eq!(r.attempts(), i);
    }
    assert!(!r.connection_lost());
    assert_eq!(r.attempts(), 6);
    r.connected();
    assert_eq!(r.attempts(), 0);
    assert!(r.connection_lost());
}
