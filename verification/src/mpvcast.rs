//! The control messages of the stand-alone player: the same requests as
//! `comms`, without an id and without browsing.

use crate::codec::{
    decode_delimited_message, decode_message, delimit, delimited_message_of, fold_records,
    lemma_delimited_of_plain, lemma_fold_push, lemma_i32_through_u64, lemma_i64_through_u64,
    lemma_scan_done, lemma_scan_text, lemma_scan_varint, maybe, message_of, put_text_field,
    put_varint_field, record_if, scan, text_field, varint_field, FieldData, FieldValue, Record,
    Schema, WireError, WireMessage,
};
use crate::comms::{opt_text, request_units, units_code, Units};
use crate::duration::{as_secs, duration_secs};
use crate::wire::varint_bytes;
use std::time::Duration;
use vstd::prelude::*;
use vstd::utf8::encode_utf8;

verus! {

/// What a request asks the stand-alone player to do.
#[derive(Clone, Copy, Debug, PartialEq, Eq, Structural)]
pub enum Action {
    Stop,
    Start,
    Pause,
    Seek,
    Volume,
    Load,
}

/// The wire number of each action.
pub open spec fn action_code(a: Action) -> i32 {
    match a {
        Action::Stop => 0,
        Action::Start => 1,
        Action::Pause => 2,
        Action::Seek => 3,
        Action::Volume => 4,
        Action::Load => 5,
    }
}

/// The action that a wire number stands for, if any.
pub open spec fn action_of_code(v: i32) -> Option<Action> {
    if v == 0 {
        Some(Action::Stop)
    } else if v == 1 {
        Some(Action::Start)
    } else if v == 2 {
        Some(Action::Pause)
    } else if v == 3 {
        Some(Action::Seek)
    } else if v == 4 {
        Some(Action::Volume)
    } else if v == 5 {
        Some(Action::Load)
    } else {
        None
    }
}

/// The action a request carries, the first one for a number no action has.
pub open spec fn command_action(code: i32) -> Action {
    match action_of_code(code) {
        Some(a) => a,
        None => Action::Stop,
    }
}

impl Action {
    /// The wire number of this action.
    pub fn code(self) -> (v: i32)
        ensures
            v == action_code(self),
    {
        match self {
            Action::Stop => 0,
            Action::Start => 1,
            Action::Pause => 2,
            Action::Seek => 3,
            Action::Volume => 4,
            Action::Load => 5,
        }
    }

    /// The action with wire number `v`, or `None` for a number no action has.
    pub fn from_i32(v: i32) -> (r: Option<Action>)
        ensures
            r == action_of_code(v),
    {
        if v == 0 {
            Some(Action::Stop)
        } else if v == 1 {
            Some(Action::Start)
        } else if v == 2 {
            Some(Action::Pause)
        } else if v == 3 {
            Some(Action::Seek)
        } else if v == 4 {
            Some(Action::Volume)
        } else if v == 5 {
            Some(Action::Load)
        } else {
            None
        }
    }
}

/// A request to the stand-alone player, enumerations by their wire numbers.
#[derive(Clone, Debug, PartialEq, Eq)]
pub struct Control {
    pub action: i32,
    pub amount: Option<i64>,
    pub path: Option<String>,
    pub unit: Option<i32>,
}

/// Requests are `Control` messages.
pub type Request = Control;

/// A `Control` as mathematics sees it.
pub struct ControlView {
    pub action: i32,
    pub amount: Option<i64>,
    pub path: Option<Seq<char>>,
    pub unit: Option<i32>,
}

impl View for Control {
    type V = ControlView;

    open spec fn view(&self) -> ControlView {
        ControlView {
            action: self.action,
            amount: self.amount,
            path: opt_text(self.path),
            unit: self.unit,
        }
    }
}

/// Builds a request from its parts.
pub fn create_request(action: Action, amount: Option<i64>, unit: Option<Units>, path: Option<String>) -> (r: Control)
    ensures
        r.action == action_code(action),
        r.amount == amount,
        r.path == path,
        r.unit == (match unit {
            Some(u) => Some(units_code(u)),
            None => None,
        }),
{
    let unit = match unit {
        Some(u) => Some(u.code()),
        None => None,
    };
    Control { action: action.code(), amount, path, unit }
}

impl Control {
    /// A message with every field at its default.
    pub fn new() -> (r: Control)
        ensures
            r@ == (ControlView { action: 0, amount: None, path: None, unit: None }),
    {
        Control { action: 0, amount: None, path: None, unit: None }
    }

    /// Asks the player to stop.
    pub fn stop() -> (r: Control)
        ensures
            r@ == (ControlView { action: action_code(Action::Stop), amount: None, path: None, unit: None }),
    {
        create_request(Action::Stop, None, None, None)
    }

    /// Asks the player to start playing.
    pub fn start() -> (r: Control)
        ensures
            r@ == (ControlView { action: action_code(Action::Start), amount: None, path: None, unit: None }),
    {
        create_request(Action::Start, None, None, None)
    }

    /// Asks the player to pause.
    pub fn pause() -> (r: Control)
        ensures
            r@ == (ControlView { action: action_code(Action::Pause), amount: None, path: None, unit: None }),
    {
        create_request(Action::Pause, None, None, None)
    }

    /// Asks the player to seek; the amount is the whole seconds of `seek`,
    /// wrapped into `i64` as the cast `as i64` does.
    pub fn seek(seek: Duration, units: Units) -> (r: Control)
        ensures
            r@ == (ControlView {
                action: action_code(Action::Seek),
                amount: Some(duration_secs(seek) as u64 as i64),
                path: None,
                unit: Some(units_code(units)),
            }),
    {
        let secs = as_secs(&seek);
        create_request(Action::Seek, Some(secs as i64), Some(units), None)
    }

    /// Asks the player to set its volume.
    pub fn volume(volume: i64) -> (r: Control)
        ensures
            r@ == (ControlView { action: action_code(Action::Volume), amount: Some(volume), path: None, unit: None }),
    {
        create_request(Action::Volume, Some(volume), None, None)
    }

    /// Asks the player to load a file or URL.
    pub fn load(path: String) -> (r: Control)
        ensures
            r@ == (ControlView { action: action_code(Action::Load), amount: None, path: Some(path@), unit: None }),
    {
        create_request(Action::Load, None, None, Some(path))
    }

    /// The action this request carries; a number no action has reads as the
    /// first action.
    pub fn action(&self) -> (a: Action)
        ensures
            a == command_action(self.action),
    {
        match Action::from_i32(self.action) {
            Some(a) => a,
            None => Action::Stop,
        }
    }

    /// The amount, or 0 when there is none.
    pub fn amount(&self) -> (v: i64)
        ensures
            v == (match self.amount {
                Some(a) => a,
                None => 0,
            }),
    {
        match self.amount {
            Some(a) => a,
            None => 0,
        }
    }

    /// The path, or the empty string when there is none.
    pub fn path(&self) -> (p: &str)
        ensures
            p@ == (match self.path {
                Some(s) => s@,
                None => Seq::<char>::empty(),
            }),
    {
        match &self.path {
            Some(s) => s.as_str(),
            None => {
                proof {
                    reveal_strlit("");
                }
                ""
            },
        }
    }

    /// The unit; none, or a number no unit has, reads as `Units::NoUnit`.
    pub fn unit(&self) -> (u: Units)
        ensures
            u == request_units(self.unit),
    {
        match self.unit {
            Some(v) => match Units::from_i32(v) {
                Some(u) => u,
                None => Units::NoUnit,
            },
            None => Units::NoUnit,
        }
    }
}

/// A request as prost writes it: action, amount, path and unit by field
/// numbers 1 to 4; a zero action is left out, as proto3 does.
pub open spec fn command_bytes(m: ControlView) -> Seq<u8> {
    maybe(m.action != 0, varint_field(1, m.action as u64)) + maybe(
        m.amount is Some,
        varint_field(2, m.amount.unwrap() as u64),
    ) + maybe(m.path is Some, text_field(3, m.path.unwrap())) + maybe(
        m.unit is Some,
        varint_field(4, m.unit.unwrap() as u64),
    )
}

/// Whether the path, in UTF-8, has a length that a varint can carry.
pub open spec fn command_fits(m: ControlView) -> bool {
    m.path is Some ==> encode_utf8(m.path.unwrap()).len() <= u64::MAX
}

/// What reading one field does to a request.
pub open spec fn command_merged(m: ControlView, r: Record) -> ControlView {
    match r.1 {
        FieldData::Varint(v) => if r.0 == 1 {
            ControlView { action: v as i32, ..m }
        } else if r.0 == 2 {
            ControlView { amount: Some(v as i64), ..m }
        } else if r.0 == 4 {
            ControlView { unit: Some(v as i32), ..m }
        } else {
            m
        },
        FieldData::Text(t) => if r.0 == 3 {
            ControlView { path: Some(t), ..m }
        } else {
            m
        },
    }
}

impl WireMessage for Control {
    open spec fn schema() -> Schema {
        Schema::Command
    }

    open spec fn blank() -> ControlView {
        ControlView { action: 0, amount: None, path: None, unit: None }
    }

    open spec fn merged(m: ControlView, r: Record) -> ControlView {
        command_merged(m, r)
    }

    fn schema_of() -> (s: Schema) {
        Schema::Command
    }

    fn blank_message() -> (m: Control) {
        Control::new()
    }

    fn merge_field(&mut self, tag: u32, value: FieldValue) {
        match value {
            FieldValue::Varint(v) => {
                if tag == 1 {
                    self.action = v as i32;
                } else if tag == 2 {
                    self.amount = Some(v as i64);
                } else if tag == 4 {
                    self.unit = Some(v as i32);
                }
            },
            FieldValue::Text(t) => {
                if tag == 3 {
                    self.path = Some(t);
                }
            },
        }
    }
}

/// The records a request's bytes hold.
pub open spec fn command_records(m: ControlView) -> Seq<Record> {
    record_if(m.action != 0, (1, FieldData::Varint(m.action as u64))) + record_if(
        m.amount is Some,
        (2, FieldData::Varint(m.amount.unwrap() as u64)),
    ) + record_if(m.path is Some, (3, FieldData::Text(m.path.unwrap()))) + record_if(
        m.unit is Some,
        (4, FieldData::Varint(m.unit.unwrap() as u64)),
    )
}

/// The loop reads a request's records out of its bytes, whatever follows.
#[verifier::rlimit(100)]
proof fn lemma_command_scan(m: ControlView, t: Seq<u8>, depth: nat)
    requires
        command_fits(m),
    ensures
        scan(command_bytes(m) + t, t.len(), depth, Schema::Command) == Ok::<
            (Seq<Record>, nat),
            WireError,
        >((command_records(m), t.len())),
{
    let f1 = maybe(m.action != 0, varint_field(1, m.action as u64));
    let f2 = maybe(m.amount is Some, varint_field(2, m.amount.unwrap() as u64));
    let f3 = maybe(m.path is Some, text_field(3, m.path.unwrap()));
    let f4 = maybe(m.unit is Some, varint_field(4, m.unit.unwrap() as u64));
    let r1 = record_if(m.action != 0, (1, FieldData::Varint(m.action as u64)));
    let r2 = record_if(m.amount is Some, (2, FieldData::Varint(m.amount.unwrap() as u64)));
    let r3 = record_if(m.path is Some, (3, FieldData::Text(m.path.unwrap())));
    let r4 = record_if(m.unit is Some, (4, FieldData::Varint(m.unit.unwrap() as u64)));
    let l = t.len();
    let sc = Schema::Command;
    assert(command_bytes(m) + t =~= f1 + (f2 + (f3 + (f4 + t))));
    assert(scan(t, l, depth, sc) == Ok::<(Seq<Record>, nat), WireError>((Seq::empty(), l))) by {
        lemma_scan_done(t, depth, sc);
    }
    assert(scan(f4 + t, l, depth, sc) == Ok::<(Seq<Record>, nat), WireError>((r4, l))) by {
        lemma_scan_varint(m.unit is Some, 4, m.unit.unwrap() as u64, t, l, depth, sc);
        assert(r4 + Seq::<Record>::empty() =~= r4);
    }
    assert(scan(f3 + (f4 + t), l, depth, sc) == Ok::<(Seq<Record>, nat), WireError>((r3 + r4, l))) by {
        lemma_scan_text(m.path is Some, 3, m.path.unwrap(), f4 + t, l, depth, sc);
    }
    assert(scan(f2 + (f3 + (f4 + t)), l, depth, sc) == Ok::<(Seq<Record>, nat), WireError>((r2 + (r3 + r4), l))) by {
        lemma_scan_varint(m.amount is Some, 2, m.amount.unwrap() as u64, f3 + (f4 + t), l, depth, sc);
    }
    assert(scan(f1 + (f2 + (f3 + (f4 + t))), l, depth, sc) == Ok::<(Seq<Record>, nat), WireError>((r1 + (r2 + (r3 + r4)), l))) by {
        lemma_scan_varint(m.action != 0, 1, m.action as u64, f2 + (f3 + (f4 + t)), l, depth, sc);
    }
    assert(command_records(m) =~= r1 + (r2 + (r3 + r4)));
}

/// The records of a request build the request back.
proof fn lemma_command_fold(m: ControlView)
    ensures
        fold_records::<Control>(command_records(m)) == m,
{
    let r1 = record_if(m.action != 0, (1, FieldData::Varint(m.action as u64)));
    let r2 = record_if(m.amount is Some, (2, FieldData::Varint(m.amount.unwrap() as u64)));
    let r3 = record_if(m.path is Some, (3, FieldData::Text(m.path.unwrap())));
    let r4 = record_if(m.unit is Some, (4, FieldData::Varint(m.unit.unwrap() as u64)));
    let e = Seq::<Record>::empty();
    lemma_fold_push::<Control>(e, m.action != 0, (1, FieldData::Varint(m.action as u64)));
    assert(e + r1 =~= r1);
    lemma_fold_push::<Control>(r1, m.amount is Some, (2, FieldData::Varint(m.amount.unwrap() as u64)));
    lemma_fold_push::<Control>(r1 + r2, m.path is Some, (3, FieldData::Text(m.path.unwrap())));
    lemma_fold_push::<Control>(r1 + r2 + r3, m.unit is Some, (4, FieldData::Varint(m.unit.unwrap() as u64)));
    assert(command_records(m) =~= r1 + r2 + r3 + r4);
    lemma_i32_through_u64(m.action);
    lemma_i64_through_u64(m.amount.unwrap());
    lemma_i32_through_u64(m.unit.unwrap());
    let f = fold_records::<Control>(command_records(m));
    assert(f.action == m.action);
    assert(f.amount == m.amount);
    assert(f.path == m.path);
    assert(f.unit == m.unit);
}

/// Whatever request prost writes, it reads back unchanged, alone or with its
/// length in front and anything after it.
pub proof fn lemma_command_roundtrip(m: ControlView, trailing: Seq<u8>)
    requires
        command_fits(m),
        command_bytes(m).len() <= u64::MAX,
    ensures
        message_of::<Control>(command_bytes(m)) == Ok::<ControlView, WireError>(m),
        delimited_message_of::<Control>(
            varint_bytes(command_bytes(m).len()) + command_bytes(m) + trailing,
        ) == Ok::<ControlView, WireError>(m),
{
    lemma_command_scan(m, Seq::empty(), 100);
    assert(command_bytes(m) + Seq::<u8>::empty() =~= command_bytes(m));
    lemma_command_fold(m);
    assert forall|t: Seq<u8>| #[trigger] scan(command_bytes(m) + t, t.len(), 99, Schema::Command)
        == Ok::<(Seq<Record>, nat), WireError>((command_records(m), t.len())) by {
        lemma_command_scan(m, t, 99);
    }
    lemma_delimited_of_plain(command_bytes(m), trailing, 99, Schema::Command, command_records(m));
}

impl Control {
    /// The request as prost writes it.
    pub fn encode_to_vec(&self) -> (b: Vec<u8>)
        ensures
            b@ == command_bytes(self@),
    {
        let mut buf = Vec::new();
        if self.action != 0 {
            put_varint_field(1, self.action as u64, &mut buf);
        }
        assert(buf@ =~= maybe(self.action != 0, varint_field(1, self.action as u64)));
        let ghost b1 = buf@;
        match self.amount {
            Some(a) => put_varint_field(2, a as u64, &mut buf),
            None => {},
        }
        assert(buf@ =~= b1 + maybe(self.amount is Some, varint_field(2, self.amount.unwrap() as u64)));
        let ghost b2 = buf@;
        match &self.path {
            Some(p) => put_text_field(3, p.as_str(), &mut buf),
            None => {},
        }
        assert(buf@ =~= b2 + maybe(self@.path is Some, text_field(3, self@.path.unwrap())));
        let ghost b3 = buf@;
        match self.unit {
            Some(u) => put_varint_field(4, u as u64, &mut buf),
            None => {},
        }
        assert(buf@ =~= b3 + maybe(self.unit is Some, varint_field(4, self.unit.unwrap() as u64)));
        buf
    }

    /// The request with its length in front, as prost writes it.
    pub fn encode_length_delimited_to_vec(&self) -> (b: Vec<u8>)
        ensures
            b@ == varint_bytes(command_bytes(self@).len()) + command_bytes(self@),
            command_fits(self@) ==> delimited_message_of::<Control>(b@) == Ok::<
                ControlView,
                WireError,
            >(self@),
    {
        let body = self.encode_to_vec();
        let b = delimit(body.as_slice());
        proof {
            if command_fits(self@) {
                lemma_command_roundtrip(self@, Seq::empty());
                assert(b@ + Seq::<u8>::empty() =~= b@);
            }
        }
        b
    }

    /// Reads a whole buffer as a request, as prost's `Message::decode` does.
    pub fn decode(buf: &[u8]) -> (r: Result<Control, WireError>)
        ensures
            match r {
                Ok(m) => message_of::<Control>(buf@) == Ok::<ControlView, WireError>(m@),
                Err(e) => message_of::<Control>(buf@) == Err::<ControlView, WireError>(e),
            },
    {
        decode_message::<Control>(buf)
    }

    /// Reads a request after its length at the front of a buffer, as prost's
    /// `Message::decode_length_delimited` does.
    pub fn decode_length_delimited(buf: &[u8]) -> (r: Result<Control, WireError>)
        ensures
            match r {
                Ok(m) => delimited_message_of::<Control>(buf@) == Ok::<ControlView, WireError>(m@),
                Err(e) => delimited_message_of::<Control>(buf@) == Err::<ControlView, WireError>(e),
            },
    {
        decode_delimited_message::<Control>(buf)
    }
}

} // verus!
