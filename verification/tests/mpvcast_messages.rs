use mpvcast::codec::WireError;
use mpvcast::comms::Units;
use mpvcast::mpvcast::{create_request, Action, Control, Request};
use std::time::Duration;

#[test]
fn standalone_constructors() {
    let stop = Request::stop();
    assert_eq!(stop.action, 0);
    assert_eq!(stop.amount, None);
    assert_eq!(stop.path, None);
    assert_eq!(stop.unit, None);
    assert_eq!(Request::start().action, 1);
    assert_eq!(Request::pause().action, 2);

    let volume = Request::volume(55);
    assert_eq!(volume.action(), Action::Volume);
    assert_eq!(volume.amount, Some(55));

    let load = Request::load("/media/film.mkv".to_string());
    assert_eq!(load.action(), Action::Load);
    assert_eq!(load.path(), "/media/film.mkv");

    let seek = Request::seek(Duration::from_millis(42_900), Units::Seconds);
    assert_eq!(seek.action(), Action::Seek);
    assert_eq!(seek.amount, Some(42));
    assert_eq!(seek.unit(), Units::Seconds);
}

#[test]
fn standalone_create_request_maps_units() {
    let r = create_request(Action::Seek, Some(-5), Some(Units::NoUnit), None);
    assert_eq!(r.action, 3);
    assert_eq!(r.amount, Some(-5));
    assert_eq!(r.unit, Some(0));
    let r = create_request(Action::Load, None, None, Some("x".to_string()));
    assert_eq!(r.action, 5);
    assert_eq!(r.unit, None);
    assert_eq!(r.path, Some("x".to_string()));
}

#[test]
fn standalone_getters_default() {
    let blank = Control::new();
    assert_eq!(blank.action(), Action::Stop);
    assert_eq!(blank.amount(), 0);
    assert_eq!(blank.path(), "");
    assert_eq!(blank.unit(), Units::NoUnit);
    let odd = Control { action: 17, amount: None, path: None, unit: Some(9) };
    assert_eq!(odd.action(), Action::Stop);
    assert_eq!(odd.unit(), Units::NoUnit);
}

#[test]
fn standalone_action_codes_read_back() {
    for a in [Action::Stop, Action::Start, Action::Pause, Action::Seek, Action::Volume, Action::Load] {
        assert_eq!(Action::from_i32(a.code()), Some(a));
    }
    assert_eq!(Action::from_i32(6), None);
    assert_eq!(Action::from_i32(-1), None);
}

#[test]
fn standalone_known_bytes() {
    assert_eq!(Request::stop().encode_to_vec(), Vec::<u8>::new());
    assert_eq!(Request::volume(50).encode_to_vec(), vec![0x08, 0x04, 0x10, 0x32]);
    assert_eq!(
        Request::load("a".to_string()).encode_to_vec(),
        vec![0x08, 0x05, 0x1a, 0x01, b'a']
    );
    assert_eq!(
        Request::seek(Duration::from_secs(90), Units::Seconds).encode_to_vec(),
        vec![0x08, 0x03, 0x10, 0x5a, 0x20, 0x01]
    );
    let minus_one = Request::volume(-1).encode_to_vec();
    assert_eq!(minus_one.len(), 2 + 1 + 10);
    assert_eq!(&minus_one[3..12], &[0xff; 9]);
    assert_eq!(minus_one[12], 0x01);
}

#[test]
fn standalone_bytes_match_prost_field_encoders() {
    let c = Control { action: 4, amount: Some(-300), path: Some("héllo".to_string()), unit: Some(1) };
    let mut expected = Vec::new();
    prost::encoding::int32::encode(1, &c.action, &mut expected);
    prost::encoding::int64::encode(2, &c.amount.unwrap(), &mut expected);
    prost::encoding::string::encode(3, c.path.as_ref().unwrap(), &mut expected);
    prost::encoding::int32::encode(4, &c.unit.unwrap(), &mut expected);
    assert_eq!(c.encode_to_vec(), expected);
}

#[test]
fn standalone_roundtrip() {
    let msgs = vec![
        Request::stop(),
        Request::volume(i64::MIN),
        Request::load(String::new()),
        Request::seek(Duration::from_secs(3600), Units::NoUnit),
        Control { action: 99, amount: Some(7), path: Some("p".to_string()), unit: Some(-2) },
    ];
    for m in msgs {
        let bytes = m.encode_to_vec();
        assert_eq!(Control::decode(&bytes), Ok(m.clone()));
        let mut framed = m.encode_length_delimited_to_vec();
        framed.extend_from_slice(&[0xde, 0xad]);
        assert_eq!(Control::decode_length_delimited(&framed), Ok(m));
    }
}

#[test]
fn standalone_decode_errors() {
    assert_eq!(Control::decode(&[0x08]), Err(WireError::InvalidVarint));
    assert_eq!(Control::decode(&[0x1a, 0x05, b'a']), Err(WireError::BufferUnderflow));
    assert_eq!(Control::decode(&[0x1a, 0x01, 0xff]), Err(WireError::InvalidUtf8));
    assert_eq!(Control::decode(&[0x0a, 0x00]), Err(WireError::WrongWireType));
    assert_eq!(Control::decode(&[0x00]), Err(WireError::InvalidTag));
    assert_eq!(Control::decode(&[0x0e]), Err(WireError::InvalidWireType));
    assert_eq!(Control::decode_length_delimited(&[0x05, 0x08, 0x01]), Err(WireError::BufferUnderflow));
    assert_eq!(Control::decode_length_delimited(&[]), Err(WireError::InvalidVarint));
}
