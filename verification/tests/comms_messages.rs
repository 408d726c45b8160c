use mpvcast::comms::{decode_length_delimiter, Action, Control, Request, Response, Status, Units};
use mpvcast::codec::WireError;
use std::time::Duration;

#[test]
fn constructors_carry_id_and_action() {
    let r = Request::stop(7);
    assert_eq!(r.id, 7);
    assert_eq!(r.action(), Action::Stop);
    assert_eq!(r.amount, None);
    assert_eq!(r.path, None);
    assert_eq!(r.unit, None);
    assert_eq!(Request::start(1).action(), Action::Start);
    assert_eq!(Request::pause(2).action(), Action::Pause);
    let v = Request::volume(3, 55);
    assert_eq!(v.action(), Action::Volume);
    assert_eq!(v.amount(), 55);
    let l = Request::load(4, "/media/a.mkv".to_string());
    assert_eq!(l.action(), Action::Load);
    assert_eq!(l.path(), "/media/a.mkv");
    let b = Request::browse(5, "~/Videos".to_string());
    assert_eq!(b.action(), Action::Browse);
    assert_eq!(b.path(), "~/Videos");
}

#[test]
fn seek_takes_whole_seconds() {
    let s = Request::seek(9, Duration::from_millis(12_900), Units::Seconds);
    assert_eq!(s.action(), Action::Seek);
    assert_eq!(s.amount, Some(12));
    assert_eq!(s.unit(), Units::Seconds);
    let n = Request::seek(9, Duration::from_secs(3), Units::NoUnit);
    assert_eq!(n.unit, Some(0));
    assert_eq!(n.unit(), Units::NoUnit);
}

#[test]
fn getters_fall_back_to_defaults() {
    let mut c = Control::new();
    assert_eq!(c.amount(), 0);
    assert_eq!(c.path(), "");
    assert_eq!(c.unit(), Units::NoUnit);
    c.action = 42;
    assert_eq!(c.action(), Action::Stop);
    c.unit = Some(9);
    assert_eq!(c.unit(), Units::NoUnit);
    assert_eq!(Action::from_i32(6), Some(Action::Browse));
    assert_eq!(Action::from_i32(7), None);
    assert_eq!(Action::Seek.code(), 3);
    assert_eq!(Status::Failure.as_str_name(), "FAILURE");
}

#[test]
fn responses_answer_their_request() {
    let req = Request::pause(11);
    let ok = Response::success(&req);
    assert_eq!(ok.request_id, 11);
    assert_eq!(ok.status(), Status::Success);
    assert!(ok.payload.is_empty());
    let err = Response::error(&req, "boom".to_string());
    assert_eq!(err.status(), Status::Error);
    assert_eq!(err.payload, vec!["boom".to_string()]);
    let fail = Response::failure(&req, "nope".to_string());
    assert_eq!(fail.status(), Status::Failure);
    assert_eq!(fail.payload, vec!["nope".to_string()]);
    let with = Response::from(&req).with_payload(vec!["a".to_string(), "b".to_string()]);
    assert_eq!(with.payload.len(), 2);
    assert_eq!(with.status, 0);
    let st = Response::from(&req).with_status(Status::Error).with_message("m".to_string());
    assert_eq!(st.status(), Status::Error);
    assert_eq!(st.payload, vec!["m".to_string()]);
    let mut r = Response::new();
    r.set_status(Status::Failure);
    assert_eq!(r.status, 2);
    r.status = 17;
    assert_eq!(r.status(), Status::Success);
}

fn prost_request_bytes(c: &Control) -> Vec<u8> {
    let mut buf = Vec::new();
    if c.id != 0 {
        prost::encoding::uint32::encode(1, &c.id, &mut buf);
    }
    if c.action != 0 {
        prost::encoding::int32::encode(2, &c.action, &mut buf);
    }
    if let Some(a) = &c.amount {
        prost::encoding::int64::encode(3, a, &mut buf);
    }
    if let Some(p) = &c.path {
        prost::encoding::string::encode(4, p, &mut buf);
    }
    if let Some(u) = &c.unit {
        prost::encoding::int32::encode(5, u, &mut buf);
    }
    buf
}

#[test]
fn request_bytes_match_prost_field_encoders() {
    let mut samples = vec![
        Request::stop(0),
        Request::start(300),
        Request::volume(1, -5),
        Request::load(2, "héllo/wörld".to_string()),
        Request::browse(u32::MAX, String::new()),
        Request::seek(5, Duration::from_secs(90), Units::Seconds),
    ];
    let mut odd = Control::new();
    odd.action = -1;
    odd.amount = Some(i64::MIN);
    odd.unit = Some(i32::MIN);
    samples.push(odd);
    for c in &samples {
        assert_eq!(c.encode_to_vec(), prost_request_bytes(c));
        let back = Control::decode(&c.encode_to_vec()).unwrap();
        assert_eq!(&back, c);
    }
}

#[test]
fn request_known_bytes() {
    let r = Request::volume(1, 50);
    assert_eq!(r.encode_to_vec(), vec![0x08, 0x01, 0x10, 0x04, 0x18, 0x32]);
    assert_eq!(r.encode_length_delimited_to_vec(), vec![0x06, 0x08, 0x01, 0x10, 0x04, 0x18, 0x32]);
    assert_eq!(Request::stop(0).encode_to_vec(), Vec::<u8>::new());
}

#[test]
fn response_roundtrip_and_prost_bytes() {
    let req = Request::browse(12, "/x".to_string());
    let resp = Response::error(&req, "no such path".to_string())
        .with_payload(vec!["mkv".to_string(), "".to_string(), "mp4".to_string()]);
    let mut expected = Vec::new();
    prost::encoding::uint32::encode(1, &resp.request_id, &mut expected);
    prost::encoding::int32::encode(2, &resp.status, &mut expected);
    prost::encoding::string::encode_repeated(3, &resp.payload, &mut expected);
    assert_eq!(resp.encode_to_vec(), expected);
    assert_eq!(Response::decode(&expected).unwrap(), resp);
    let mut framed = resp.encode_length_delimited_to_vec();
    framed.extend_from_slice(&[0xff, 0xff, 0xff]);
    assert_eq!(Response::decode_length_delimited(&framed).unwrap(), resp);
}

#[test]
fn delimited_request_ignores_trailing_bytes() {
    let r = Request::load(77, "http://example.org/v.webm".to_string());
    let mut framed = r.encode_length_delimited_to_vec();
    let body_len = r.encode_to_vec().len();
    assert_eq!(decode_length_delimiter(&framed), Ok(body_len));
    framed.extend_from_slice(&[1, 2, 3, 4]);
    assert_eq!(Control::decode_length_delimited(&framed).unwrap(), r);
}

#[test]
fn decoding_skips_unknown_fields() {
    // field 9 varint, field 10 fixed64, field 11 bytes, field 12 fixed32,
    // field 13 group holding field 1 varint, then id = 5.
    let bytes = vec![
        0x48, 0x96, 0x01, 0x51, 1, 2, 3, 4, 5, 6, 7, 8, 0x5a, 0x02, 0xaa, 0xbb, 0x65, 9, 9, 9, 9,
        0x6b, 0x08, 0x01, 0x6c, 0x08, 0x05,
    ];
    let c = Control::decode(&bytes).unwrap();
    assert_eq!(c.id, 5);
    assert_eq!(c.action, 0);
}

#[test]
fn later_fields_win() {
    let bytes = vec![0x08, 0x01, 0x08, 0x02, 0x22, 0x01, b'a', 0x22, 0x01, b'b'];
    let c = Control::decode(&bytes).unwrap();
    assert_eq!(c.id, 2);
    assert_eq!(c.path(), "b");
}

#[test]
fn decode_errors() {
    assert_eq!(Control::decode(&[0x08]), Err(WireError::InvalidVarint));
    assert_eq!(Control::decode(&[0x80]), Err(WireError::InvalidVarint));
    assert_eq!(Control::decode(&[0x0a, 0x00]), Err(WireError::WrongWireType));
    assert_eq!(Control::decode(&[0x22, 0x05, b'a']), Err(WireError::BufferUnderflow));
    assert_eq!(Control::decode(&[0x22, 0x01, 0xff]), Err(WireError::InvalidUtf8));
    assert_eq!(Control::decode(&[0x00]), Err(WireError::InvalidTag));
    assert_eq!(Control::decode(&[0x0e]), Err(WireError::InvalidWireType));
    assert_eq!(
        Control::decode(&[0x80, 0x80, 0x80, 0x80, 0x10]),
        Err(WireError::InvalidKey)
    );
    assert_eq!(Control::decode(&[0x6c]), Err(WireError::UnexpectedEndGroup));
    assert_eq!(Control::decode(&[0x6b, 0x74]), Err(WireError::UnexpectedEndGroup));
    assert_eq!(Control::decode(&[0x6b]), Err(WireError::InvalidVarint));
    assert_eq!(Control::decode(&[0x65, 1, 2]), Err(WireError::BufferUnderflow));
    assert_eq!(
        Control::decode(&[0x08, 0xff, 0xff, 0xff, 0xff, 0xff, 0xff, 0xff, 0xff, 0xff, 0x02]),
        Err(WireError::InvalidVarint)
    );
    // a field that runs past the delimited length
    assert_eq!(
        Control::decode_length_delimited(&[0x02, 0x22, 0x02, b'a', b'b']),
        Err(WireError::LengthExceeded)
    );
    assert_eq!(Control::decode_length_delimited(&[0x05, 0x08]), Err(WireError::BufferUnderflow));
    assert_eq!(decode_length_delimiter(&[0x80]), Err(WireError::InvalidDelimiter));
}

#[test]
fn group_nesting_limit() {
    let mut ok = Vec::new();
    for _ in 0..99 {
        ok.push(0x6b);
    }
    for _ in 0..99 {
        ok.push(0x6c);
    }
    assert!(Control::decode(&ok).is_ok());
    let mut deep = Vec::new();
    for _ in 0..100 {
        deep.push(0x6b);
    }
    deep.push(0x08);
    deep.push(0x01);
    for _ in 0..100 {
        deep.push(0x6c);
    }
    assert_eq!(Control::decode(&deep), Err(WireError::RecursionLimit));
}
