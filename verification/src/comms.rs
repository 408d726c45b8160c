//! The messages that the front end and the server exchange: a `Control`
//! request carrying an id, and the `Response` that answers it.

use crate::codec::{
    decode_delimited_message, decode_message, delimit, delimited_message_of, fold_records,
    lemma_delimited_of_plain, lemma_fold_push, lemma_i32_through_u64, lemma_i64_through_u64, lemma_fold_texts, lemma_scan_texts,
    lemma_scan_done, lemma_scan_text, lemma_scan_varint, maybe, message_of, put_text_field, put_varint_field,
    record_if, scan, text_field, text_records, texts_field, texts_fit, varint_field, FieldData,
    FieldValue, Record, Schema, WireError, WireMessage,
};
use crate::duration::{as_secs, duration_secs};
use crate::wire::{length_delimiter, lemma_varint_roundtrip, varint_bytes, varint_read};
use vstd::utf8::encode_utf8;
use std::time::Duration;
use vstd::prelude::*;

verus! {

/// What a request asks the player to do.
#[derive(Clone, Copy, Debug, PartialEq, Eq, Structural)]
pub enum Action {
    Stop,
    Start,
    Pause,
    Seek,
    Volume,
    Load,
    Browse,
}

/// Unit of a request's amount.
#[derive(Clone, Copy, Debug, PartialEq, Eq, Structural)]
pub enum Units {
    NoUnit,
    Seconds,
}

/// Outcome of a request.
#[derive(Clone, Copy, Debug, PartialEq, Eq, Structural)]
pub enum Status {
    Success,
    Error,
    Failure,
}

/// The wire number of each action.
pub open spec fn action_code(a: Action) -> i32 {
    match a {
        Action::Stop => 0,
        Action::Start => 1,
        Action::Pause => 2,
        Action::Seek => 3,
        Action::Volume => 4,
        Action::Load => 5,
        Action::Browse => 6,
    }
}

/// The action that a wire number stands for, if any.
pub open spec fn action_of_code(v: i32) -> Option<Action> {
    if v == 0 {
        Some(Action::Stop)
    } else if v == 1 {
        Some(Action::Start)
    } else if v == 2 {
        Some(Action::Pause)
    } else if v == 3 {
        Some(Action::Seek)
    } else if v == 4 {
        Some(Action::Volume)
    } else if v == 5 {
        Some(Action::Load)
    } else if v == 6 {
        Some(Action::Browse)
    } else {
        None
    }
}

/// The wire number of each unit.
pub open spec fn units_code(u: Units) -> i32 {
    match u {
        Units::NoUnit => 0,
        Units::Seconds => 1,
    }
}

/// The unit that a wire number stands for, if any.
pub open spec fn units_of_code(v: i32) -> Option<Units> {
    if v == 0 {
        Some(Units::NoUnit)
    } else if v == 1 {
        Some(Units::Seconds)
    } else {
        None
    }
}

/// The wire number of each status.
pub open spec fn status_code(s: Status) -> i32 {
    match s {
        Status::Success => 0,
        Status::Error => 1,
        Status::Failure => 2,
    }
}

/// The status that a wire number stands for, if any.
pub open spec fn status_of_code(v: i32) -> Option<Status> {
    if v == 0 {
        Some(Status::Success)
    } else if v == 1 {
        Some(Status::Error)
    } else if v == 2 {
        Some(Status::Failure)
    } else {
        None
    }
}

/// Each action, unit and status is read back from its wire number, so a
/// request built with an action reports that action.
pub proof fn lemma_codes_read_back(a: Action, u: Units, s: Status)
    ensures
        action_of_code(action_code(a)) == Some(a),
        request_action(action_code(a)) == a,
        units_of_code(units_code(u)) == Some(u),
        request_units(Some(units_code(u))) == u,
        status_of_code(status_code(s)) == Some(s),
        response_status(status_code(s)) == s,
{
}

/// Distinct actions, units and statuses go by distinct wire numbers, and a
/// number that none goes by reads as the first of its kind: a request with
/// an unknown action asks to stop, an unknown unit is no unit, an unknown
/// status is success.
pub proof fn lemma_codes_distinct(a: Action, b: Action, u: Units, v: Units, s: Status, t: Status, n: i32)
    ensures
        action_code(a) == action_code(b) ==> a == b,
        units_code(u) == units_code(v) ==> u == v,
        status_code(s) == status_code(t) ==> s == t,
        action_of_code(n) is None ==> request_action(n) == Action::Stop,
        units_of_code(n) is None ==> request_units(Some(n)) == Units::NoUnit,
        request_units(None) == Units::NoUnit,
        status_of_code(n) is None ==> response_status(n) == Status::Success,
        action_of_code(n) matches Some(x) ==> action_code(x) == n,
        units_of_code(n) matches Some(x) ==> units_code(x) == n,
        status_of_code(n) matches Some(x) ==> status_code(x) == n,
{
    lemma_codes_read_back(a, u, s);
    lemma_codes_read_back(b, v, t);
}

impl Action {
    /// The wire number of this action.
    pub fn code(self) -> (v: i32)
        ensures
            v == action_code(self),
    {
        match self {
            Action::Stop => 0,
            Action::Start => 1,
            Action::Pause => 2,
            Action::Seek => 3,
            Action::Volume => 4,
            Action::Load => 5,
            Action::Browse => 6,
        }
    }

    /// The action with wire number `v`, or `None` for a number no action has.
    pub fn from_i32(v: i32) -> (r: Option<Action>)
        ensures
            r == action_of_code(v),
    {
        if v == 0 {
            Some(Action::Stop)
        } else if v == 1 {
            Some(Action::Start)
        } else if v == 2 {
            Some(Action::Pause)
        } else if v == 3 {
            Some(Action::Seek)
        } else if v == 4 {
            Some(Action::Volume)
        } else if v == 5 {
            Some(Action::Load)
        } else if v == 6 {
            Some(Action::Browse)
        } else {
            None
        }
    }

    /// The name the protocol gives this action.
    pub fn as_str_name(&self) -> (name: &'static str)
        ensures
            name@ == action_name(*self),
    {
        match self {
            Action::Stop => "STOP",
            Action::Start => "START",
            Action::Pause => "PAUSE",
            Action::Seek => "SEEK",
            Action::Volume => "VOLUME",
            Action::Load => "LOAD",
            Action::Browse => "BROWSE",
        }
    }
}

/// The protocol names of the actions.
pub open spec fn action_name(a: Action) -> Seq<char> {
    match a {
        Action::Stop => "STOP"@,
        Action::Start => "START"@,
        Action::Pause => "PAUSE"@,
        Action::Seek => "SEEK"@,
        Action::Volume => "VOLUME"@,
        Action::Load => "LOAD"@,
        Action::Browse => "BROWSE"@,
    }
}

impl Units {
    /// The wire number of this unit.
    pub fn code(self) -> (v: i32)
        ensures
            v == units_code(self),
    {
        match self {
            Units::NoUnit => 0,
            Units::Seconds => 1,
        }
    }

    /// The unit with wire number `v`, or `None` for a number no unit has.
    pub fn from_i32(v: i32) -> (r: Option<Units>)
        ensures
            r == units_of_code(v),
    {
        if v == 0 {
            Some(Units::NoUnit)
        } else if v == 1 {
            Some(Units::Seconds)
        } else {
            None
        }
    }

    /// The name the protocol gives this unit.
    pub fn as_str_name(&self) -> (name: &'static str)
        ensures
            name@ == (match *self {
                Units::NoUnit => "NONE"@,
                Units::Seconds => "SECONDS"@,
            }),
    {
        match self {
            Units::NoUnit => "NONE",
            Units::Seconds => "SECONDS",
        }
    }
}

impl Status {
    /// The wire number of this status.
    pub fn code(self) -> (v: i32)
        ensures
            v == status_code(self),
    {
        match self {
            Status::Success => 0,
            Status::Error => 1,
            Status::Failure => 2,
        }
    }

    /// The status with wire number `v`, or `None` for a number no status has.
    pub fn from_i32(v: i32) -> (r: Option<Status>)
        ensures
            r == status_of_code(v),
    {
        if v == 0 {
            Some(Status::Success)
        } else if v == 1 {
            Some(Status::Error)
        } else if v == 2 {
            Some(Status::Failure)
        } else {
            None
        }
    }

    /// The name the protocol gives this status.
    pub fn as_str_name(&self) -> (name: &'static str)
        ensures
            name@ == (match *self {
                Status::Success => "SUCCESS"@,
                Status::Error => "ERROR"@,
                Status::Failure => "FAILURE"@,
            }),
    {
        match self {
            Status::Success => "SUCCESS",
            Status::Error => "ERROR",
            Status::Failure => "FAILURE",
        }
    }
}

/// A request to the player. Enumerations are carried by their wire numbers, so
/// that a number that no variant has survives decoding.
#[derive(Clone, Debug, PartialEq, Eq)]
pub struct Control {
    pub id: u32,
    pub action: i32,
    pub amount: Option<i64>,
    pub path: Option<String>,
    pub unit: Option<i32>,
}

/// Requests are `Control` messages.
pub type Request = Control;

/// A `Control` as mathematics sees it: strings by their characters.
pub struct ControlView {
    pub id: u32,
    pub action: i32,
    pub amount: Option<i64>,
    pub path: Option<Seq<char>>,
    pub unit: Option<i32>,
}

/// An optional string by its characters.
pub open spec fn opt_text(s: Option<String>) -> Option<Seq<char>> {
    match s {
        Some(t) => Some(t@),
        None => None,
    }
}

impl View for Control {
    type V = ControlView;

    open spec fn view(&self) -> ControlView {
        ControlView {
            id: self.id,
            action: self.action,
            amount: self.amount,
            path: opt_text(self.path),
            unit: self.unit,
        }
    }
}

/// The answer to a request: the id of the request it answers, a status and
/// some lines of text.
#[derive(Clone, Debug, PartialEq, Eq)]
pub struct Response {
    pub request_id: u32,
    pub status: i32,
    pub payload: Vec<String>,
}

/// A `Response` as mathematics sees it.
pub struct ResponseView {
    pub request_id: u32,
    pub status: i32,
    pub payload: Seq<Seq<char>>,
}

/// The characters of each string of a list.
pub open spec fn texts(v: Seq<String>) -> Seq<Seq<char>> {
    v.map_values(|s: String| s@)
}

impl View for Response {
    type V = ResponseView;

    open spec fn view(&self) -> ResponseView {
        ResponseView { request_id: self.request_id, status: self.status, payload: texts(self.payload@) }
    }
}

/// The action a request carries, the first one for a number no action has.
pub open spec fn request_action(code: i32) -> Action {
    match action_of_code(code) {
        Some(a) => a,
        None => Action::Stop,
    }
}

/// The unit a request carries, `None` when it carries none or an unknown number.
pub open spec fn request_units(unit: Option<i32>) -> Units {
    match unit {
        Some(v) => match units_of_code(v) {
            Some(u) => u,
            None => Units::NoUnit,
        },
        None => Units::NoUnit,
    }
}

/// The status a response carries, the first one for a number no status has.
pub open spec fn response_status(code: i32) -> Status {
    match status_of_code(code) {
        Some(s) => s,
        None => Status::Success,
    }
}

/// Builds a request from its parts.
pub fn create_request(
    id: u32,
    action: Action,
    amount: Option<i64>,
    unit: Option<Units>,
    path: Option<String>,
) -> (r: Control)
    ensures
        r.id == id,
        r.action == action_code(action),
        r.amount == amount,
        r.path == path,
        r.unit == (match unit {
            Some(u) => Some(units_code(u)),
            None => None,
        }),
{
    let unit = match unit {
        Some(u) => Some(u.code()),
        None => None,
    };
    Control { id, action: action.code(), amount, path, unit }
}

impl Control {
    /// A message with every field at its default.
    pub fn new() -> (r: Control)
        ensures
            r@ == (ControlView { id: 0, action: 0, amount: None, path: None, unit: None }),
    {
        Control { id: 0, action: 0, amount: None, path: None, unit: None }
    }

    /// Asks the player to stop.
    pub fn stop(id: u32) -> (r: Control)
        ensures
            r@ == (ControlView { id, action: action_code(Action::Stop), amount: None, path: None, unit: None }),
    {
        create_request(id, Action::Stop, None, None, None)
    }

    /// Asks the player to start playing.
    pub fn start(id: u32) -> (r: Control)
        ensures
            r@ == (ControlView { id, action: action_code(Action::Start), amount: None, path: None, unit: None }),
    {
        create_request(id, Action::Start, None, None, None)
    }

    /// Asks the player to pause.
    pub fn pause(id: u32) -> (r: Control)
        ensures
            r@ == (ControlView { id, action: action_code(Action::Pause), amount: None, path: None, unit: None }),
    {
        create_request(id, Action::Pause, None, None, None)
    }

    /// Asks the player to seek; the amount is the whole seconds of `seek`,
    /// wrapped into `i64` as the cast `as i64` does.
    pub fn seek(id: u32, seek: Duration, units: Units) -> (r: Control)
        ensures
            r@ == (ControlView {
                id,
                action: action_code(Action::Seek),
                amount: Some(duration_secs(seek) as u64 as i64),
                path: None,
                unit: Some(units_code(units)),
            }),
    {
        let secs = as_secs(&seek);
        create_request(id, Action::Seek, Some(secs as i64), Some(units), None)
    }

    /// Asks the player to set its volume.
    pub fn volume(id: u32, volume: i64) -> (r: Control)
        ensures
            r@ == (ControlView { id, action: action_code(Action::Volume), amount: Some(volume), path: None, unit: None }),
    {
        create_request(id, Action::Volume, Some(volume), None, None)
    }

    /// Asks the player to load a file or URL.
    pub fn load(id: u32, path: String) -> (r: Control)
        ensures
            r@ == (ControlView { id, action: action_code(Action::Load), amount: None, path: Some(path@), unit: None }),
    {
        create_request(id, Action::Load, None, None, Some(path))
    }

    /// Asks the player what a file, directory or URL offers.
    pub fn browse(id: u32, path: String) -> (r: Control)
        ensures
            r@ == (ControlView { id, action: action_code(Action::Browse), amount: None, path: Some(path@), unit: None }),
    {
        create_request(id, Action::Browse, None, None, Some(path))
    }

    /// The action this request carries; a number no action has reads as the
    /// first action.
    pub fn action(&self) -> (a: Action)
        ensures
            a == request_action(self.action),
    {
        match Action::from_i32(self.action) {
            Some(a) => a,
            None => Action::Stop,
        }
    }

    /// The amount, or 0 when there is none.
    pub fn amount(&self) -> (v: i64)
        ensures
            v == (match self.amount {
                Some(a) => a,
                None => 0,
            }),
    {
        match self.amount {
            Some(a) => a,
            None => 0,
        }
    }

    /// The path, or the empty string when there is none.
    pub fn path(&self) -> (p: &str)
        ensures
            p@ == (match self.path {
                Some(s) => s@,
                None => Seq::<char>::empty(),
            }),
    {
        match &self.path {
            Some(s) => s.as_str(),
            None => {
                proof {
                    reveal_strlit("");
                }
                ""
            },
        }
    }

    /// The unit; none, or a number no unit has, reads as `Units::NoUnit`.
    pub fn unit(&self) -> (u: Units)
        ensures
            u == request_units(self.unit),
    {
        match self.unit {
            Some(v) => match Units::from_i32(v) {
                Some(u) => u,
                None => Units::NoUnit,
            },
            None => Units::NoUnit,
        }
    }
}

impl Response {
    /// A message with every field at its default.
    pub fn new() -> (r: Response)
        ensures
            r@ == (ResponseView { request_id: 0, status: 0, payload: Seq::empty() }),
    {
        let r = Response { request_id: 0, status: 0, payload: Vec::new() };
        assert(r@.payload =~= Seq::<Seq<char>>::empty());
        r
    }

    /// A successful, empty answer to `value`.
    pub fn from(value: &Request) -> (r: Response)
        ensures
            r@ == (ResponseView {
                request_id: value.id,
                status: status_code(Status::Success),
                payload: Seq::empty(),
            }),
    {
        let r = Response { request_id: value.id, status: Status::Success.code(), payload: Vec::new() };
        assert(r@.payload =~= Seq::<Seq<char>>::empty());
        r
    }

    /// Answers `from_request` with success and no text.
    pub fn success(from_request: &Request) -> (r: Response)
        ensures
            r@ == (ResponseView {
                request_id: from_request.id,
                status: status_code(Status::Success),
                payload: Seq::empty(),
            }),
    {
        Response::from(from_request).with_status(Status::Success)
    }

    /// Answers `from_request` with an error and one line of text.
    pub fn error(from_request: &Request, message: String) -> (r: Response)
        ensures
            r@ == (ResponseView {
                request_id: from_request.id,
                status: status_code(Status::Error),
                payload: seq![message@],
            }),
    {
        Response::from(from_request).with_status(Status::Error).with_message(message)
    }

    /// Answers `from_request` with a failure and one line of text.
    pub fn failure(from_request: &Request, message: String) -> (r: Response)
        ensures
            r@ == (ResponseView {
                request_id: from_request.id,
                status: status_code(Status::Failure),
                payload: seq![message@],
            }),
    {
        Response::from(from_request).with_status(Status::Failure).with_message(message)
    }

    /// The status this response carries; a number no status has reads as
    /// `Status::Success`.
    pub fn status(&self) -> (s: Status)
        ensures
            s == response_status(self.status),
    {
        match Status::from_i32(self.status) {
            Some(s) => s,
            None => Status::Success,
        }
    }

    /// Sets the status.
    pub fn set_status(&mut self, value: Status)
        ensures
            final(self).status == status_code(value),
            final(self).request_id == old(self).request_id,
            final(self).payload == old(self).payload,
    {
        self.status = value.code();
    }

    /// The same response with another status.
    pub fn with_status(self, status: Status) -> (r: Response)
        ensures
            r@ == (ResponseView { status: status_code(status), ..self@ }),
    {
        let mut r = self;
        r.set_status(status);
        r
    }

    /// The same response with `message` as its only line of text.
    pub fn with_message(self, message: String) -> (r: Response)
        ensures
            r@ == (ResponseView { payload: seq![message@], ..self@ }),
    {
        let mut r = self;
        let mut payload = Vec::new();
        payload.push(message);
        r.payload = payload;
        assert(r@.payload =~= seq![message@]);
        r
    }

    /// The same response with `payload` as its text.
    pub fn with_payload(self, payload: Vec<String>) -> (r: Response)
        ensures
            r@ == (ResponseView { payload: texts(payload@), ..self@ }),
    {
        let mut r = self;
        r.payload = payload;
        r
    }
}


/// A request as prost writes it: id, action, amount, path and unit by field
/// numbers 1 to 5; a zero id or action is left out, as proto3 does.
pub open spec fn request_bytes(m: ControlView) -> Seq<u8> {
    maybe(m.id != 0, varint_field(1, m.id as u64)) + maybe(
        m.action != 0,
        varint_field(2, m.action as u64),
    ) + maybe(m.amount is Some, varint_field(3, m.amount.unwrap() as u64)) + maybe(
        m.path is Some,
        text_field(4, m.path.unwrap()),
    ) + maybe(m.unit is Some, varint_field(5, m.unit.unwrap() as u64))
}

/// Whether a request's path, in UTF-8, has a length that a varint can carry.
pub open spec fn request_fits(m: ControlView) -> bool {
    m.path is Some ==> encode_utf8(m.path.unwrap()).len() <= u64::MAX
}

/// What reading one field does to a request.
pub open spec fn request_merged(m: ControlView, r: Record) -> ControlView {
    match r.1 {
        FieldData::Varint(v) => if r.0 == 1 {
            ControlView { id: v as u32, ..m }
        } else if r.0 == 2 {
            ControlView { action: v as i32, ..m }
        } else if r.0 == 3 {
            ControlView { amount: Some(v as i64), ..m }
        } else if r.0 == 5 {
            ControlView { unit: Some(v as i32), ..m }
        } else {
            m
        },
        FieldData::Text(t) => if r.0 == 4 {
            ControlView { path: Some(t), ..m }
        } else {
            m
        },
    }
}

impl WireMessage for Control {
    open spec fn schema() -> Schema {
        Schema::Request
    }

    open spec fn blank() -> ControlView {
        ControlView { id: 0, action: 0, amount: None, path: None, unit: None }
    }

    open spec fn merged(m: ControlView, r: Record) -> ControlView {
        request_merged(m, r)
    }

    fn schema_of() -> (s: Schema) {
        Schema::Request
    }

    fn blank_message() -> (m: Control) {
        Control::new()
    }

    fn merge_field(&mut self, tag: u32, value: FieldValue) {
        match value {
            FieldValue::Varint(v) => {
                if tag == 1 {
                    self.id = v as u32;
                } else if tag == 2 {
                    self.action = v as i32;
                } else if tag == 3 {
                    self.amount = Some(v as i64);
                } else if tag == 5 {
                    self.unit = Some(v as i32);
                }
            },
            FieldValue::Text(t) => {
                if tag == 4 {
                    self.path = Some(t);
                }
            },
        }
    }
}

/// The records a request's bytes hold.
pub open spec fn request_records(m: ControlView) -> Seq<Record> {
    record_if(m.id != 0, (1, FieldData::Varint(m.id as u64))) + record_if(
        m.action != 0,
        (2, FieldData::Varint(m.action as u64)),
    ) + record_if(m.amount is Some, (3, FieldData::Varint(m.amount.unwrap() as u64))) + record_if(
        m.path is Some,
        (4, FieldData::Text(m.path.unwrap())),
    ) + record_if(m.unit is Some, (5, FieldData::Varint(m.unit.unwrap() as u64)))
}

/// The loop reads a request's records out of its bytes, whatever follows.
#[verifier::rlimit(100)]
proof fn lemma_request_scan(m: ControlView, t: Seq<u8>, depth: nat)
    requires
        request_fits(m),
    ensures
        scan(request_bytes(m) + t, t.len(), depth, Schema::Request) == Ok::<
            (Seq<Record>, nat),
            WireError,
        >((request_records(m), t.len())),
{
    let f1 = maybe(m.id != 0, varint_field(1, m.id as u64));
    let f2 = maybe(m.action != 0, varint_field(2, m.action as u64));
    let f3 = maybe(m.amount is Some, varint_field(3, m.amount.unwrap() as u64));
    let f4 = maybe(m.path is Some, text_field(4, m.path.unwrap()));
    let f5 = maybe(m.unit is Some, varint_field(5, m.unit.unwrap() as u64));
    let l = t.len();
    let sc = Schema::Request;
    let r1 = record_if(m.id != 0, (1, FieldData::Varint(m.id as u64)));
    let r2 = record_if(m.action != 0, (2, FieldData::Varint(m.action as u64)));
    let r3 = record_if(m.amount is Some, (3, FieldData::Varint(m.amount.unwrap() as u64)));
    let r4 = record_if(m.path is Some, (4, FieldData::Text(m.path.unwrap())));
    let r5 = record_if(m.unit is Some, (5, FieldData::Varint(m.unit.unwrap() as u64)));
    assert(request_bytes(m) + t =~= f1 + (f2 + (f3 + (f4 + (f5 + t)))));
    assert(scan(t, l, depth, sc) == Ok::<(Seq<Record>, nat), WireError>((Seq::empty(), l))) by {
        lemma_scan_done(t, depth, sc);
    }
    assert(scan(f5 + t, l, depth, sc) == Ok::<(Seq<Record>, nat), WireError>((r5, l))) by {
        lemma_scan_varint(m.unit is Some, 5, m.unit.unwrap() as u64, t, l, depth, sc);
        assert(r5 + Seq::<Record>::empty() =~= r5);
    }
    assert(scan(f4 + (f5 + t), l, depth, sc) == Ok::<(Seq<Record>, nat), WireError>((r4 + r5, l))) by {
        lemma_scan_text(m.path is Some, 4, m.path.unwrap(), f5 + t, l, depth, sc);
    }
    assert(scan(f3 + (f4 + (f5 + t)), l, depth, sc) == Ok::<(Seq<Record>, nat), WireError>((r3 + (r4 + r5), l))) by {
        lemma_scan_varint(m.amount is Some, 3, m.amount.unwrap() as u64, f4 + (f5 + t), l, depth, sc);
    }
    assert(scan(f2 + (f3 + (f4 + (f5 + t))), l, depth, sc) == Ok::<(Seq<Record>, nat), WireError>((r2 + (r3 + (r4 + r5)), l))) by {
        lemma_scan_varint(m.action != 0, 2, m.action as u64, f3 + (f4 + (f5 + t)), l, depth, sc);
    }
    assert(scan(f1 + (f2 + (f3 + (f4 + (f5 + t)))), l, depth, sc) == Ok::<(Seq<Record>, nat), WireError>((r1 + (r2 + (r3 + (r4 + r5))), l))) by {
        lemma_scan_varint(m.id != 0, 1, m.id as u64, f2 + (f3 + (f4 + (f5 + t))), l, depth, sc);
    }
    assert(request_records(m) =~= r1 + (r2 + (r3 + (r4 + r5))));
}

/// The records of a request build the request back.
proof fn lemma_request_fold(m: ControlView)
    ensures
        fold_records::<Control>(request_records(m)) == m,
{
    let r1 = record_if(m.id != 0, (1, FieldData::Varint(m.id as u64)));
    let r2 = record_if(m.action != 0, (2, FieldData::Varint(m.action as u64)));
    let r3 = record_if(m.amount is Some, (3, FieldData::Varint(m.amount.unwrap() as u64)));
    let r4 = record_if(m.path is Some, (4, FieldData::Text(m.path.unwrap())));
    let r5 = record_if(m.unit is Some, (5, FieldData::Varint(m.unit.unwrap() as u64)));
    let e = Seq::<Record>::empty();
    assert(fold_records::<Control>(e) == Control::blank());
    lemma_fold_push::<Control>(e, m.id != 0, (1, FieldData::Varint(m.id as u64)));
    assert(e + r1 =~= r1);
    lemma_fold_push::<Control>(r1, m.action != 0, (2, FieldData::Varint(m.action as u64)));
    lemma_fold_push::<Control>(r1 + r2, m.amount is Some, (3, FieldData::Varint(m.amount.unwrap() as u64)));
    lemma_fold_push::<Control>(r1 + r2 + r3, m.path is Some, (4, FieldData::Text(m.path.unwrap())));
    lemma_fold_push::<Control>(r1 + r2 + r3 + r4, m.unit is Some, (5, FieldData::Varint(m.unit.unwrap() as u64)));
    assert(request_records(m) =~= r1 + r2 + r3 + r4 + r5);
    lemma_i32_through_u64(m.action);
    lemma_i64_through_u64(m.amount.unwrap());
    lemma_i32_through_u64(m.unit.unwrap());
    let f = fold_records::<Control>(request_records(m));
    assert(f.id == m.id);
    assert(f.action == m.action);
    assert(f.amount == m.amount);
    assert(f.path == m.path);
    assert(f.unit == m.unit);
}

/// Whatever request prost writes, it reads back unchanged, alone or with its
/// length in front and anything after it.
pub proof fn lemma_request_roundtrip(m: ControlView, trailing: Seq<u8>)
    requires
        request_fits(m),
        request_bytes(m).len() <= u64::MAX,
    ensures
        message_of::<Control>(request_bytes(m)) == Ok::<ControlView, WireError>(m),
        delimited_message_of::<Control>(
            varint_bytes(request_bytes(m).len()) + request_bytes(m) + trailing,
        ) == Ok::<ControlView, WireError>(m),
{
    lemma_request_scan(m, Seq::empty(), 100);
    assert(request_bytes(m) + Seq::<u8>::empty() =~= request_bytes(m));
    lemma_request_fold(m);
    assert forall|t: Seq<u8>| #[trigger] scan(request_bytes(m) + t, t.len(), 99, Schema::Request)
        == Ok::<(Seq<Record>, nat), WireError>((request_records(m), t.len())) by {
        lemma_request_scan(m, t, 99);
    }
    lemma_delimited_of_plain(request_bytes(m), trailing, 99, Schema::Request, request_records(m));
}

impl Control {
    /// The request as prost writes it.
    pub fn encode_to_vec(&self) -> (b: Vec<u8>)
        ensures
            b@ == request_bytes(self@),
    {
        let mut buf = Vec::new();
        if self.id != 0 {
            put_varint_field(1, self.id as u64, &mut buf);
        }
        assert(buf@ =~= maybe(self.id != 0, varint_field(1, self.id as u64)));
        let ghost b1 = buf@;
        if self.action != 0 {
            put_varint_field(2, self.action as u64, &mut buf);
        }
        assert(buf@ =~= b1 + maybe(self.action != 0, varint_field(2, self.action as u64)));
        let ghost b2 = buf@;
        match self.amount {
            Some(a) => put_varint_field(3, a as u64, &mut buf),
            None => {},
        }
        assert(buf@ =~= b2 + maybe(self.amount is Some, varint_field(3, self.amount.unwrap() as u64)));
        let ghost b3 = buf@;
        match &self.path {
            Some(p) => put_text_field(4, p.as_str(), &mut buf),
            None => {},
        }
        assert(buf@ =~= b3 + maybe(self@.path is Some, text_field(4, self@.path.unwrap())));
        let ghost b4 = buf@;
        match self.unit {
            Some(u) => put_varint_field(5, u as u64, &mut buf),
            None => {},
        }
        assert(buf@ =~= b4 + maybe(self.unit is Some, varint_field(5, self.unit.unwrap() as u64)));
        buf
    }

    /// The request with its length in front, as prost writes it.
    pub fn encode_length_delimited_to_vec(&self) -> (b: Vec<u8>)
        ensures
            b@ == varint_bytes(request_bytes(self@).len()) + request_bytes(self@),
            request_fits(self@) ==> delimited_message_of::<Control>(b@) == Ok::<
                ControlView,
                WireError,
            >(self@),
    {
        let body = self.encode_to_vec();
        let b = delimit(body.as_slice());
        proof {
            if request_fits(self@) {
                lemma_request_roundtrip(self@, Seq::empty());
                assert(b@ + Seq::<u8>::empty() =~= b@);
            }
        }
        b
    }

    /// Reads a whole buffer as a request, as prost's `Message::decode` does.
    pub fn decode(buf: &[u8]) -> (r: Result<Control, WireError>)
        ensures
            match r {
                Ok(m) => message_of::<Control>(buf@) == Ok::<ControlView, WireError>(m@),
                Err(e) => message_of::<Control>(buf@) == Err::<ControlView, WireError>(e),
            },
    {
        decode_message::<Control>(buf)
    }

    /// Reads a request after its length at the front of a buffer, as prost's
    /// `Message::decode_length_delimited` does.
    pub fn decode_length_delimited(buf: &[u8]) -> (r: Result<Control, WireError>)
        ensures
            match r {
                Ok(m) => delimited_message_of::<Control>(buf@) == Ok::<ControlView, WireError>(m@),
                Err(e) => delimited_message_of::<Control>(buf@) == Err::<ControlView, WireError>(e),
            },
    {
        decode_delimited_message::<Control>(buf)
    }
}


/// A response as prost writes it: request id and status by field numbers 1
/// and 2, left out when zero, then each line of text as field 3.
pub open spec fn response_bytes(m: ResponseView) -> Seq<u8> {
    maybe(m.request_id != 0, varint_field(1, m.request_id as u64)) + maybe(
        m.status != 0,
        varint_field(2, m.status as u64),
    ) + texts_field(3, m.payload)
}

/// What reading one field does to a response.
pub open spec fn response_merged(m: ResponseView, r: Record) -> ResponseView {
    match r.1 {
        FieldData::Varint(v) => if r.0 == 1 {
            ResponseView { request_id: v as u32, ..m }
        } else if r.0 == 2 {
            ResponseView { status: v as i32, ..m }
        } else {
            m
        },
        FieldData::Text(t) => if r.0 == 3 {
            ResponseView { payload: m.payload.push(t), ..m }
        } else {
            m
        },
    }
}

impl WireMessage for Response {
    open spec fn schema() -> Schema {
        Schema::Reply
    }

    open spec fn blank() -> ResponseView {
        ResponseView { request_id: 0, status: 0, payload: Seq::empty() }
    }

    open spec fn merged(m: ResponseView, r: Record) -> ResponseView {
        response_merged(m, r)
    }

    fn schema_of() -> (s: Schema) {
        Schema::Reply
    }

    fn blank_message() -> (m: Response) {
        Response::new()
    }

    fn merge_field(&mut self, tag: u32, value: FieldValue) {
        match value {
            FieldValue::Varint(v) => {
                if tag == 1 {
                    self.request_id = v as u32;
                } else if tag == 2 {
                    self.status = v as i32;
                }
            },
            FieldValue::Text(t) => {
                if tag == 3 {
                    let ghost before = self.payload@;
                    self.payload.push(t);
                    assert(texts(self.payload@) =~= texts(before).push(t@));
                }
            },
        }
    }
}

/// The records a response's bytes hold.
pub open spec fn response_records(m: ResponseView) -> Seq<Record> {
    record_if(m.request_id != 0, (1, FieldData::Varint(m.request_id as u64))) + record_if(
        m.status != 0,
        (2, FieldData::Varint(m.status as u64)),
    ) + text_records(3, m.payload)
}

/// The loop reads a response's records out of its bytes, whatever follows.
proof fn lemma_response_scan(m: ResponseView, t: Seq<u8>, depth: nat)
    requires
        texts_fit(m.payload),
    ensures
        scan(response_bytes(m) + t, t.len(), depth, Schema::Reply) == Ok::<
            (Seq<Record>, nat),
            WireError,
        >((response_records(m), t.len())),
{
    let f1 = maybe(m.request_id != 0, varint_field(1, m.request_id as u64));
    let f2 = maybe(m.status != 0, varint_field(2, m.status as u64));
    let f3 = texts_field(3, m.payload);
    let l = t.len();
    let sc = Schema::Reply;
    let r1 = record_if(m.request_id != 0, (1, FieldData::Varint(m.request_id as u64)));
    let r2 = record_if(m.status != 0, (2, FieldData::Varint(m.status as u64)));
    let r3 = text_records(3, m.payload);
    assert(response_bytes(m) + t =~= f1 + (f2 + (f3 + t)));
    assert(scan(t, l, depth, sc) == Ok::<(Seq<Record>, nat), WireError>((Seq::empty(), l))) by {
        lemma_scan_done(t, depth, sc);
    }
    assert(scan(f3 + t, l, depth, sc) == Ok::<(Seq<Record>, nat), WireError>((r3, l))) by {
        lemma_scan_texts(3, m.payload, t, l, depth, sc);
        assert(r3 + Seq::<Record>::empty() =~= r3);
    }
    assert(scan(f2 + (f3 + t), l, depth, sc) == Ok::<(Seq<Record>, nat), WireError>((r2 + r3, l))) by {
        lemma_scan_varint(m.status != 0, 2, m.status as u64, f3 + t, l, depth, sc);
    }
    assert(scan(f1 + (f2 + (f3 + t)), l, depth, sc) == Ok::<(Seq<Record>, nat), WireError>((r1 + (r2 + r3), l))) by {
        lemma_scan_varint(m.request_id != 0, 1, m.request_id as u64, f2 + (f3 + t), l, depth, sc);
    }
    assert(response_records(m) =~= r1 + (r2 + r3));
}

/// Lines of text read after the id and status are appended in order.
proof fn lemma_response_fold_payload(front: Seq<Record>, ts: Seq<Seq<char>>)
    ensures
        fold_records::<Response>(front + text_records(3, ts)) == (ResponseView {
            payload: fold_records::<Response>(front).payload + ts,
            ..fold_records::<Response>(front)
        }),
    decreases ts.len(),
{
    lemma_fold_texts::<Response>(front, 3, ts);
    if ts.len() == 0 {
        assert(fold_records::<Response>(front).payload + ts =~= fold_records::<Response>(front).payload);
    } else {
        lemma_response_fold_payload(front, ts.drop_last());
        let p = fold_records::<Response>(front).payload;
        assert((p + ts.drop_last()).push(ts.last()) =~= p + ts);
    }
}

/// The records of a response build the response back.
proof fn lemma_response_fold(m: ResponseView)
    ensures
        fold_records::<Response>(response_records(m)) == m,
{
    let r1 = record_if(m.request_id != 0, (1, FieldData::Varint(m.request_id as u64)));
    let r2 = record_if(m.status != 0, (2, FieldData::Varint(m.status as u64)));
    let e = Seq::<Record>::empty();
    lemma_fold_push::<Response>(e, m.request_id != 0, (1, FieldData::Varint(m.request_id as u64)));
    assert(e + r1 =~= r1);
    lemma_fold_push::<Response>(r1, m.status != 0, (2, FieldData::Varint(m.status as u64)));
    lemma_i32_through_u64(m.status);
    lemma_response_fold_payload(r1 + r2, m.payload);
    assert(response_records(m) =~= r1 + r2 + text_records(3, m.payload));
    assert(Seq::<Seq<char>>::empty() + m.payload =~= m.payload);
}

/// Whatever response prost writes, it reads back unchanged, alone or with
/// its length in front and anything after it.
pub proof fn lemma_response_roundtrip(m: ResponseView, trailing: Seq<u8>)
    requires
        texts_fit(m.payload),
        response_bytes(m).len() <= u64::MAX,
    ensures
        message_of::<Response>(response_bytes(m)) == Ok::<ResponseView, WireError>(m),
        delimited_message_of::<Response>(
            varint_bytes(response_bytes(m).len()) + response_bytes(m) + trailing,
        ) == Ok::<ResponseView, WireError>(m),
{
    lemma_response_scan(m, Seq::empty(), 100);
    assert(response_bytes(m) + Seq::<u8>::empty() =~= response_bytes(m));
    lemma_response_fold(m);
    assert forall|t: Seq<u8>| #[trigger] scan(response_bytes(m) + t, t.len(), 99, Schema::Reply)
        == Ok::<(Seq<Record>, nat), WireError>((response_records(m), t.len())) by {
        lemma_response_scan(m, t, 99);
    }
    lemma_delimited_of_plain(response_bytes(m), trailing, 99, Schema::Reply, response_records(m));
}

/// What the server writes for a response, the front end reads back in two
/// steps: the length at the front is the length of the body, and the body it
/// marks out reads as the response, whatever follows it on the stream.
pub proof fn lemma_response_framing(m: ResponseView, trailing: Seq<u8>)
    requires
        texts_fit(m.payload),
        response_bytes(m).len() <= u64::MAX,
    ensures
        ({
            let body = response_bytes(m);
            let head = varint_bytes(body.len());
            let framed = head + body + trailing;
            &&& varint_read(framed) == Some((body.len(), head.len()))
            &&& message_of::<Response>(framed.subrange(head.len() as int, (head.len() + body.len()) as int))
                == Ok::<ResponseView, WireError>(m)
        }),
{
    let body = response_bytes(m);
    let head = varint_bytes(body.len());
    let framed = head + body + trailing;
    let len = body.len() as u64;
    lemma_varint_roundtrip(len, body + trailing);
    assert(head + (body + trailing) =~= framed);
    assert(framed.subrange(head.len() as int, (head.len() + body.len()) as int) =~= body);
    lemma_response_roundtrip(m, trailing);
}

impl Response {
    /// The response as prost writes it.
    pub fn encode_to_vec(&self) -> (b: Vec<u8>)
        ensures
            b@ == response_bytes(self@),
    {
        let mut buf = Vec::new();
        if self.request_id != 0 {
            put_varint_field(1, self.request_id as u64, &mut buf);
        }
        assert(buf@ =~= maybe(self.request_id != 0, varint_field(1, self.request_id as u64)));
        let ghost b1 = buf@;
        if self.status != 0 {
            put_varint_field(2, self.status as u64, &mut buf);
        }
        assert(buf@ =~= b1 + maybe(self.status != 0, varint_field(2, self.status as u64)));
        let ghost b2 = buf@;
        let ghost ps = texts(self.payload@);
        let mut i: usize = 0;
        assert(texts_field(3, ps.take(0)) =~= Seq::<u8>::empty());
        assert(b2 + Seq::<u8>::empty() =~= b2);
        while i < self.payload.len()
            invariant
                i <= self.payload@.len(),
                ps == texts(self.payload@),
                buf@ == b2 + texts_field(3, ps.take(i as int)),
            decreases self.payload@.len() - i,
        {
            put_text_field(3, self.payload[i].as_str(), &mut buf);
            assert(ps.take(i + 1).drop_last() =~= ps.take(i as int));
            assert(b2 + texts_field(3, ps.take(i as int)) + text_field(3, ps[i as int]) =~= b2
                + texts_field(3, ps.take(i + 1)));
            i = i + 1;
        }
        assert(ps.take(i as int) =~= ps);
        buf
    }

    /// The response with its length in front, as prost writes it.
    pub fn encode_length_delimited_to_vec(&self) -> (b: Vec<u8>)
        ensures
            b@ == varint_bytes(response_bytes(self@).len()) + response_bytes(self@),
            texts_fit(self@.payload) ==> delimited_message_of::<Response>(b@) == Ok::<
                ResponseView,
                WireError,
            >(self@),
    {
        let body = self.encode_to_vec();
        let b = delimit(body.as_slice());
        proof {
            if texts_fit(self@.payload) {
                lemma_response_roundtrip(self@, Seq::empty());
                assert(b@ + Seq::<u8>::empty() =~= b@);
            }
        }
        b
    }

    /// Reads a whole buffer as a response, as prost's `Message::decode` does.
    pub fn decode(buf: &[u8]) -> (r: Result<Response, WireError>)
        ensures
            match r {
                Ok(m) => message_of::<Response>(buf@) == Ok::<ResponseView, WireError>(m@),
                Err(e) => message_of::<Response>(buf@) == Err::<ResponseView, WireError>(e),
            },
    {
        decode_message::<Response>(buf)
    }

    /// Reads a response after its length at the front of a buffer, as prost's
    /// `Message::decode_length_delimited` does.
    pub fn decode_length_delimited(buf: &[u8]) -> (r: Result<Response, WireError>)
        ensures
            match r {
                Ok(m) => delimited_message_of::<Response>(buf@) == Ok::<ResponseView, WireError>(m@),
                Err(e) => delimited_message_of::<Response>(buf@) == Err::<ResponseView, WireError>(e),
            },
    {
        decode_delimited_message::<Response>(buf)
    }
}


/// The length at the front of a length-delimited message, as prost's
/// `decode_length_delimiter` reads it: the leading varint, when there is one
/// and it fits in `usize`.
pub fn decode_length_delimiter(buf: &[u8]) -> (r: Result<usize, WireError>)
    ensures
        r is Ok <==> (varint_read(buf@) matches Some((v, _)) && v <= usize::MAX),
        r matches Ok(len) ==> varint_read(buf@) matches Some((v, _)) && v == len,
        r matches Err(e) ==> e == WireError::InvalidDelimiter,
{
    match length_delimiter(buf) {
        Ok(len) => Ok(len),
        Err(_) => Err(WireError::InvalidDelimiter),
    }
}

} // verus!
