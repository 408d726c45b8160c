use mpvcast::comms::{decode_length_delimiter, Action, Request, Response, Units};
use mpvcast::frontend::{
    initial_action, media_labels, request_for, retry_delay_secs, MediaState, PendingRequests,
    PlaybackStatus, RequestIds, UiAction, UiState,
};
use std::time::Duration;

fn all_states() -> Vec<UiState> {
    vec![
        UiState::Unknown,
        UiState::Error("lost".to_string()),
        UiState::Idle,
        UiState::Playing,
        UiState::Paused,
        UiState::Loading,
    ]
}

#[test]
fn controls_per_state() {
    let expect = [
        // can_play, can_pause, can_stop, can_seek, enabled
        (false, false, false, false, false),
        (false, false, false, false, false),
        (true, false, false, false, true),
        (false, true, true, true, true),
        (true, false, true, true, true),
        (false, false, false, true, false),
    ];
    for (s, e) in all_states().iter().zip(expect.iter()) {
        assert_eq!(
            (s.can_play(), s.can_pause(), s.can_stop(), s.can_seek(), s.controls_enabled()),
            *e,
            "{:?}",
            s
        );
    }
}

#[test]
fn controls_agree_in_every_state() {
    for s in all_states() {
        assert!(!(s.can_play() && s.can_pause()));
        assert!(!s.can_pause() || s.can_stop());
        assert!(!s.can_stop() || s.can_seek());
        assert!(s.controls_enabled() || (!s.can_play() && !s.can_pause() && !s.can_stop()));
    }
}

#[test]
fn playback_status_per_state() {
    assert_eq!(UiState::Playing.playback_status(), PlaybackStatus::Playing);
    assert_eq!(UiState::Paused.playback_status(), PlaybackStatus::Paused);
    assert_eq!(UiState::Idle.playback_status(), PlaybackStatus::Stopped);
    assert_eq!(UiState::Loading.playback_status(), PlaybackStatus::Stopped);
    assert_eq!(UiState::Error("x".to_string()).playback_status(), PlaybackStatus::Stopped);
}

#[test]
fn status_texts() {
    assert_eq!(UiState::Error("connection refused".to_string()).status_text(), "connection refused");
    assert_eq!(UiState::Unknown.status_text(), "Unknown");
    assert_eq!(UiState::Idle.status_text(), "Idle");
    assert_eq!(UiState::Playing.status_text(), "Playing");
    assert_eq!(UiState::Paused.status_text(), "Paused");
    assert_eq!(UiState::Loading.status_text(), "Loading");
}

#[test]
fn user_actions_become_requests() {
    assert_eq!(request_for(UiAction::Play, 1), Request::start(1));
    assert_eq!(request_for(UiAction::Pause, 2), Request::pause(2));
    assert_eq!(request_for(UiAction::Stop, 3), Request::stop(3));
    assert_eq!(request_for(UiAction::Load("/a.mkv".to_string()), 4), Request::load(4, "/a.mkv".to_string()));
    assert_eq!(request_for(UiAction::Browse("~".to_string()), 5), Request::browse(5, "~".to_string()));
    let v = request_for(UiAction::SetVolume(50), 6);
    assert_eq!(v.action(), Action::Volume);
    assert_eq!(v.amount, Some(50));
    let s = request_for(UiAction::SeekAbsolute(75), 7);
    assert_eq!(s.id, 7);
    assert_eq!(s.action(), Action::Seek);
    assert_eq!(s.amount, Some(75));
    assert_eq!(s.unit, Some(0));
    assert_eq!(s.unit(), Units::NoUnit);
}

#[test]
fn first_request_loads_or_browses() {
    assert_eq!(initial_action(Some("rtmp://x".to_string())), UiAction::Load("rtmp://x".to_string()));
    assert_eq!(initial_action(None), UiAction::Browse("~/Videos".to_string()));
}

#[test]
fn request_ids_count_up() {
    let mut ids = RequestIds::new();
    assert_eq!(ids.next_request_id(), 0);
    assert_eq!(ids.next_request_id(), 1);
    assert_eq!(ids.next_request_id(), 2);
}

#[test]
fn answers_find_their_requests() {
    let mut pending = PendingRequests::new();
    assert_eq!(pending.len(), 0);
    pending.insert(Request::start(1));
    pending.insert(Request::stop(2));
    pending.insert(Request::pause(1));
    assert_eq!(pending.len(), 2);

    let answer = Response::success(&Request::pause(1));
    let (q, a) = pending.match_response(answer.clone()).expect("request 1 waits");
    assert_eq!(q, Request::pause(1));
    assert_eq!(a, answer);
    assert_eq!(pending.len(), 1);
    assert_eq!(pending.match_response(answer.clone()), Err(answer));

    assert_eq!(pending.take(2), Some(Request::stop(2)));
    assert_eq!(pending.take(2), None);
    assert_eq!(pending.len(), 0);
}

#[test]
fn backoff_doubles_up_to_32() {
    let got: Vec<u64> = (0..9).map(retry_delay_secs).collect();
    assert_eq!(got, vec![1, 2, 4, 8, 16, 32, 32, 32, 32]);
    assert_eq!(retry_delay_secs(u32::MAX), 32);
}

#[test]
fn labels_for_media() {
    let l = media_labels(None);
    assert_eq!(l.time, "00:00:00");
    assert_eq!(l.end, "00:00:00");
    assert_eq!(l.title, "MpvCast");
    let m = MediaState {
        title: "Film".to_string(),
        length: Duration::from_secs(5400),
        current: Duration::from_millis(1500),
    };
    let l = media_labels(Some(&m));
    assert_eq!(l.time, "1.5s");
    assert_eq!(l.end, "5400s");
    assert_eq!(l.title, "Casting Film");
}

#[test]
fn framed_answers_read_back_in_two_steps() {
    let answer = Response::error(&Request::load(300, "x".to_string()), "no such file".to_string());
    let mut stream = answer.encode_length_delimited_to_vec();
    stream.extend_from_slice(&[0x08, 0x01]);
    let len = decode_length_delimiter(&stream).expect("a length in front");
    let head = stream.len() - 2 - len;
    assert_eq!(Response::decode(&stream[head..head + len]), Ok(answer));
}
