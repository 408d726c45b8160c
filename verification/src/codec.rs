//! Protobuf reading of the protocol's messages: keys, fields, skipping of
//! fields a message does not know, and the message loop, as prost's generated
//! code does them.

use crate::wire::{
    lemma_varint_read_bounds, lemma_varint_roundtrip, put_varint, take_varint, utf8_str, varint_bytes,
    varint_read,
};
use vstd::prelude::*;
use vstd::utf8::{decode_utf8, encode_utf8, encode_utf8_decode_utf8, encode_utf8_valid_utf8, valid_utf8};

verus! {

/// Why bytes could not be read as a message.
#[derive(Clone, Copy, Debug, PartialEq, Eq, Structural)]
pub enum WireError {
    /// A varint runs past ten bytes or past 64 bits, or the bytes end inside it.
    InvalidVarint,
    /// A field key does not fit in 32 bits.
    InvalidKey,
    /// A field key names wire type 6 or 7.
    InvalidWireType,
    /// A field key names field number 0.
    InvalidTag,
    /// A known field arrives with another wire type than its own.
    WrongWireType,
    /// A field claims more bytes than there are.
    BufferUnderflow,
    /// A string field does not hold UTF-8.
    InvalidUtf8,
    /// A group ends where none was opened, or with another number.
    UnexpectedEndGroup,
    /// Groups are nested deeper than the recursion limit.
    RecursionLimit,
    /// A length-delimited message's last field runs past its length.
    LengthExceeded,
    /// A length delimiter is no varint, or does not fit in `usize`.
    InvalidDelimiter,
}

/// The messages of the protocol, as far as reading their fields goes.
#[derive(Clone, Copy, Debug, PartialEq, Eq, Structural)]
pub enum Schema {
    /// `comms::Control`: id, action, amount, path, unit.
    Request,
    /// `comms::Response`: request id, status, payload.
    Reply,
    /// `mpvcast::Control`: action, amount, path, unit.
    Command,
}

/// How a known field is written.
#[derive(Clone, Copy, Debug, PartialEq, Eq, Structural)]
pub enum FieldKind {
    Varint,
    Text,
}

/// The fields each message knows, by number.
pub open spec fn field_kind(schema: Schema, tag: nat) -> Option<FieldKind> {
    match schema {
        Schema::Request => if tag == 4 {
            Some(FieldKind::Text)
        } else if 1 <= tag <= 5 {
            Some(FieldKind::Varint)
        } else {
            None
        },
        Schema::Reply => if tag == 3 {
            Some(FieldKind::Text)
        } else if 1 <= tag <= 2 {
            Some(FieldKind::Varint)
        } else {
            None
        },
        Schema::Command => if tag == 3 {
            Some(FieldKind::Text)
        } else if 1 <= tag <= 4 {
            Some(FieldKind::Varint)
        } else {
            None
        },
    }
}

/// A known field's value as read.
pub enum FieldValue {
    Varint(u64),
    Text(String),
}

/// A known field's value as mathematics sees it.
pub enum FieldData {
    Varint(u64),
    Text(Seq<char>),
}

impl View for FieldValue {
    type V = FieldData;

    open spec fn view(&self) -> FieldData {
        match self {
            FieldValue::Varint(v) => FieldData::Varint(*v),
            FieldValue::Text(s) => FieldData::Text(s@),
        }
    }
}

/// A field number with the value read for it.
pub type Record = (nat, FieldData);

/// Recursion budget that prost gives the fields of a message.
pub open spec fn recursion_limit() -> nat {
    100
}

/// Reads a field key: its number, its wire type and its length in bytes.
pub open spec fn key_parse(s: Seq<u8>) -> Result<(nat, nat, nat), WireError> {
    match varint_read(s) {
        None => Err(WireError::InvalidVarint),
        Some((key, n)) => if key > u32::MAX {
            Err(WireError::InvalidKey)
        } else if key % 8 > 5 {
            Err(WireError::InvalidWireType)
        } else if key / 8 == 0 {
            Err(WireError::InvalidTag)
        } else {
            Ok((key / 8, key % 8, n))
        },
    }
}

/// How many bytes prost's `skip_field` passes over for a field of wire type
/// `wt` and number `tag` whose key has been read, with `depth` levels of
/// recursion left.
pub open spec fn skip_len(s: Seq<u8>, wt: nat, tag: nat, depth: nat) -> Result<nat, WireError>
    decreases s.len(), 1nat,
{
    if depth == 0 {
        Err(WireError::RecursionLimit)
    } else if wt == 0 {
        match varint_read(s) {
            None => Err(WireError::InvalidVarint),
            Some((_, n)) => Ok(n),
        }
    } else if wt == 1 {
        if 8 > s.len() {
            Err(WireError::BufferUnderflow)
        } else {
            Ok(8)
        }
    } else if wt == 2 {
        match varint_read(s) {
            None => Err(WireError::InvalidVarint),
            Some((len, n)) => if len > s.len() - n {
                Err(WireError::BufferUnderflow)
            } else {
                Ok(n + len)
            },
        }
    } else if wt == 3 {
        group_len(s, tag, (depth - 1) as nat)
    } else if wt == 5 {
        if 4 > s.len() {
            Err(WireError::BufferUnderflow)
        } else {
            Ok(4)
        }
    } else {
        Err(WireError::UnexpectedEndGroup)
    }
}

/// How many bytes the rest of a group numbered `tag` takes, its end key
/// included; its fields are skipped with `depth` levels of recursion left.
pub open spec fn group_len(s: Seq<u8>, tag: nat, depth: nat) -> Result<nat, WireError>
    decreases s.len(), 0nat,
{
    match key_parse(s) {
        Err(e) => Err(e),
        Ok((itag, iwt, n)) => {
            proof {
                lemma_varint_read_bounds(s);
            }
            if iwt == 4 {
                if itag != tag {
                    Err(WireError::UnexpectedEndGroup)
                } else {
                    Ok(n)
                }
            } else {
                match skip_len(s.skip(n as int), iwt, itag, depth) {
                    Err(e) => Err(e),
                    Ok(k) => if n + k > s.len() {
                        Err(WireError::BufferUnderflow)
                    } else {
                        match group_len(s.skip((n + k) as int), tag, depth) {
                            Err(e) => Err(e),
                            Ok(j) => Ok(n + k + j),
                        }
                    },
                }
            }
        },
    }
}

/// Reads one field at the front of `s`: the record for a field `schema`
/// knows, nothing for a field it skips, and the bytes taken.
pub open spec fn field_parse(s: Seq<u8>, depth: nat, schema: Schema) -> Result<
    (Option<Record>, nat),
    WireError,
> {
    match key_parse(s) {
        Err(e) => Err(e),
        Ok((tag, wt, n)) => {
            let rest = s.skip(n as int);
            match field_kind(schema, tag) {
                Some(FieldKind::Varint) => if wt != 0 {
                    Err(WireError::WrongWireType)
                } else {
                    match varint_read(rest) {
                        None => Err(WireError::InvalidVarint),
                        Some((v, m)) => Ok((Some((tag, FieldData::Varint(v as u64))), n + m)),
                    }
                },
                Some(FieldKind::Text) => if wt != 2 {
                    Err(WireError::WrongWireType)
                } else {
                    match varint_read(rest) {
                        None => Err(WireError::InvalidVarint),
                        Some((len, m)) => if len > rest.len() - m {
                            Err(WireError::BufferUnderflow)
                        } else {
                            let bytes = rest.subrange(m as int, (m + len) as int);
                            if valid_utf8(bytes) {
                                Ok((Some((tag, FieldData::Text(decode_utf8(bytes)))), n + m + len))
                            } else {
                                Err(WireError::InvalidUtf8)
                            }
                        },
                    }
                },
                None => match skip_len(rest, wt, tag, depth) {
                    Err(e) => Err(e),
                    Ok(k) => Ok((None, n + k)),
                },
            }
        },
    }
}

/// The records of a field list.
pub open spec fn with_record(r: Option<Record>, rs: Seq<Record>) -> Seq<Record> {
    match r {
        Some(x) => seq![x] + rs,
        None => rs,
    }
}

/// Reads fields from the front of `s` for as long as more than `limit` bytes
/// are left: the records read and the number of bytes left at the end.
#[verifier::opaque]
pub open spec fn scan(s: Seq<u8>, limit: nat, depth: nat, schema: Schema) -> Result<
    (Seq<Record>, nat),
    WireError,
>
    decreases s.len(),
{
    if s.len() <= limit {
        Ok((Seq::empty(), s.len()))
    } else {
        match field_parse(s, depth, schema) {
            Err(e) => Err(e),
            Ok((r, n)) => {
                proof {
                    lemma_field_parse_advances(s, depth, schema);
                }
                match scan(s.skip(n as int), limit, depth, schema) {
                    Err(e) => Err(e),
                    Ok((rs, left)) => Ok((with_record(r, rs), left)),
                }
            },
        }
    }
}

/// The records of a whole buffer read as one message, as prost's `decode` does.
pub open spec fn scan_message(b: Seq<u8>, schema: Schema) -> Result<Seq<Record>, WireError> {
    match scan(b, 0, recursion_limit(), schema) {
        Ok((rs, _)) => Ok(rs),
        Err(e) => Err(e),
    }
}

/// The records of a message preceded by its length, as prost's
/// `decode_length_delimited` does; bytes after the message are left alone.
pub open spec fn scan_delimited(b: Seq<u8>, schema: Schema) -> Result<Seq<Record>, WireError> {
    match varint_read(b) {
        None => Err(WireError::InvalidVarint),
        Some((len, n)) => {
            let s = b.skip(n as int);
            if len > s.len() {
                Err(WireError::BufferUnderflow)
            } else {
                let limit = (s.len() - len) as nat;
                match scan(s, limit, (recursion_limit() - 1) as nat, schema) {
                    Err(e) => Err(e),
                    Ok((rs, left)) => if left != limit {
                        Err(WireError::LengthExceeded)
                    } else {
                        Ok(rs)
                    },
                }
            }
        },
    }
}

/// Skipping takes at least nothing and at most what there is.
pub proof fn lemma_skip_len_bounds(s: Seq<u8>, wt: nat, tag: nat, depth: nat)
    ensures
        skip_len(s, wt, tag, depth) matches Ok(k) ==> k <= s.len(),
    decreases s.len(), 1nat,
{
    lemma_varint_read_bounds(s);
    if depth > 0 && wt == 3 {
        lemma_group_len_bounds(s, tag, (depth - 1) as nat);
    }
}

/// A group takes at least its end key and at most what there is.
pub proof fn lemma_group_len_bounds(s: Seq<u8>, tag: nat, depth: nat)
    ensures
        group_len(s, tag, depth) matches Ok(k) ==> 1 <= k <= s.len(),
    decreases s.len(), 0nat,
{
    lemma_varint_read_bounds(s);
    if let Ok((itag, iwt, n)) = key_parse(s) {
        if iwt != 4 {
            lemma_skip_len_bounds(s.skip(n as int), iwt, itag, depth);
            if let Ok(k) = skip_len(s.skip(n as int), iwt, itag, depth) {
                if n + k <= s.len() {
                    lemma_group_len_bounds(s.skip((n + k) as int), tag, depth);
                }
            }
        }
    }
}

/// Reading a field takes at least one byte and at most what there is.
pub proof fn lemma_field_parse_advances(s: Seq<u8>, depth: nat, schema: Schema)
    ensures
        field_parse(s, depth, schema) matches Ok((_, n)) ==> 1 <= n <= s.len(),
{
    lemma_varint_read_bounds(s);
    if let Ok((tag, wt, n)) = key_parse(s) {
        let rest = s.skip(n as int);
        lemma_varint_read_bounds(rest);
        lemma_skip_len_bounds(rest, wt, tag, depth);
    }
}


/// How a value read was written.
pub open spec fn data_kind(d: FieldData) -> FieldKind {
    match d {
        FieldData::Varint(_) => FieldKind::Varint,
        FieldData::Text(_) => FieldKind::Text,
    }
}

/// The record of a field read, if `schema` knows it.
pub open spec fn record_of(f: Option<(u32, FieldValue)>) -> Option<Record> {
    match f {
        Some((tag, v)) => Some((tag as nat, v@)),
        None => None,
    }
}

/// The fields each message knows, by number.
pub fn kind_of(schema: Schema, tag: u32) -> (k: Option<FieldKind>)
    ensures
        k == field_kind(schema, tag as nat),
{
    match schema {
        Schema::Request => if tag == 4 {
            Some(FieldKind::Text)
        } else if 1 <= tag && tag <= 5 {
            Some(FieldKind::Varint)
        } else {
            None
        },
        Schema::Reply => if tag == 3 {
            Some(FieldKind::Text)
        } else if 1 <= tag && tag <= 2 {
            Some(FieldKind::Varint)
        } else {
            None
        },
        Schema::Command => if tag == 3 {
            Some(FieldKind::Text)
        } else if 1 <= tag && tag <= 4 {
            Some(FieldKind::Varint)
        } else {
            None
        },
    }
}

/// Reads a field key from the front of `s`, as prost's `decode_key` does.
pub fn read_key<'a>(s: &'a [u8]) -> (r: Result<(u32, u8, &'a [u8]), WireError>)
    ensures
        match r {
            Ok((tag, wt, rest)) => key_parse(s@) matches Ok((t, w, n)) && tag == t && wt == w
                && rest@ == s@.skip(n as int),
            Err(e) => key_parse(s@) == Err::<(nat, nat, nat), WireError>(e),
        },
{
    match take_varint(s) {
        Err(_) => Err(WireError::InvalidVarint),
        Ok((key, rest)) => {
            if key > 0xffff_ffff {
                Err(WireError::InvalidKey)
            } else if key % 8 > 5 {
                Err(WireError::InvalidWireType)
            } else if key / 8 == 0 {
                Err(WireError::InvalidTag)
            } else {
                Ok(((key / 8) as u32, (key % 8) as u8, rest))
            }
        },
    }
}

/// Skips the body of a field whose key has been read, as prost's
/// `skip_field` does, and hands back the bytes after it.
pub fn skip_field<'a>(s: &'a [u8], wt: u8, tag: u32, depth: u32) -> (r: Result<&'a [u8], WireError>)
    ensures
        match r {
            Ok(rest) => skip_len(s@, wt as nat, tag as nat, depth as nat) matches Ok(k) && rest@
                == s@.skip(k as int),
            Err(e) => skip_len(s@, wt as nat, tag as nat, depth as nat) == Err::<nat, WireError>(e),
        },
    decreases s@.len(), 1nat,
{
    proof {
        lemma_varint_read_bounds(s@);
    }
    if depth == 0 {
        Err(WireError::RecursionLimit)
    } else if wt == 0 {
        match take_varint(s) {
            Err(_) => Err(WireError::InvalidVarint),
            Ok((_, rest)) => Ok(rest),
        }
    } else if wt == 1 {
        if s.len() < 8 {
            Err(WireError::BufferUnderflow)
        } else {
            let (_, rest) = s.split_at(8);
            Ok(rest)
        }
    } else if wt == 2 {
        match take_varint(s) {
            Err(_) => Err(WireError::InvalidVarint),
            Ok((len, rest)) => {
                if len > rest.len() as u64 {
                    Err(WireError::BufferUnderflow)
                } else {
                    let (_, after) = rest.split_at(len as usize);
                    let ghost n = varint_read(s@).unwrap().1;
                    assert(after@ =~= s@.skip((n + len) as int));
                    Ok(after)
                }
            },
        }
    } else if wt == 3 {
        skip_group(s, tag, depth - 1)
    } else if wt == 5 {
        if s.len() < 4 {
            Err(WireError::BufferUnderflow)
        } else {
            let (_, rest) = s.split_at(4);
            Ok(rest)
        }
    } else {
        Err(WireError::UnexpectedEndGroup)
    }
}

/// Skips the rest of a group numbered `tag`, its end key included, and hands
/// back the bytes after it.
pub fn skip_group<'a>(s: &'a [u8], tag: u32, depth: u32) -> (r: Result<&'a [u8], WireError>)
    ensures
        match r {
            Ok(rest) => group_len(s@, tag as nat, depth as nat) matches Ok(k) && rest@ == s@.skip(
                k as int,
            ),
            Err(e) => group_len(s@, tag as nat, depth as nat) == Err::<nat, WireError>(e),
        },
    decreases s@.len(), 0nat,
{
    let mut cur = s;
    let ghost mut done: nat = 0;
    loop
        invariant
            done <= s@.len(),
            cur@ == s@.skip(done as int),
            group_len(s@, tag as nat, depth as nat) == (match group_len(
                cur@,
                tag as nat,
                depth as nat,
            ) {
                Ok(j) => Ok(done + j),
                Err(e) => Err(e),
            }),
        decreases cur@.len(),
    {
        proof {
            lemma_varint_read_bounds(cur@);
        }
        match read_key(cur) {
            Err(e) => {
                return Err(e);
            },
            Ok((itag, iwt, rest)) => {
                let ghost n = key_parse(cur@)->Ok_0.2;
                if iwt == 4 {
                    if itag != tag {
                        return Err(WireError::UnexpectedEndGroup);
                    }
                    assert(rest@ =~= s@.skip((done + n) as int));
                    return Ok(rest);
                }
                match skip_field(rest, iwt, itag, depth) {
                    Err(e) => {
                        return Err(e);
                    },
                    Ok(after) => {
                        proof {
                            lemma_skip_len_bounds(rest@, iwt as nat, itag as nat, depth as nat);
                            let k = skip_len(rest@, iwt as nat, itag as nat, depth as nat)->Ok_0;
                            assert(after@ =~= s@.skip((done + n + k) as int));
                            assert(after@ =~= cur@.skip((n + k) as int));
                            done = done + n + k;
                        }
                        cur = after;
                    },
                }
            },
        }
    }
}

/// Reads one field at the front of `s`, as prost's generated `merge_field`
/// does: the number and value of a field `schema` knows, nothing for a field
/// it skips, and the bytes after it.
pub fn read_field<'a>(s: &'a [u8], depth: u32, schema: Schema) -> (r: Result<
    (Option<(u32, FieldValue)>, &'a [u8]),
    WireError,
>)
    ensures
        match r {
            Ok((f, rest)) => field_parse(s@, depth as nat, schema) matches Ok((g, n)) && g
                == record_of(f) && rest@ == s@.skip(n as int),
            Err(e) => field_parse(s@, depth as nat, schema) == Err::<(Option<Record>, nat), WireError>(
                e,
            ),
        },
        r matches Ok((Some((tag, v)), _)) ==> field_kind(schema, tag as nat) == Some(
            data_kind(v@),
        ),
{
    proof {
        lemma_varint_read_bounds(s@);
    }
    match read_key(s) {
        Err(e) => Err(e),
        Ok((tag, wt, rest)) => {
            let ghost n = key_parse(s@)->Ok_0.2;
            proof {
                lemma_varint_read_bounds(rest@);
            }
            match kind_of(schema, tag) {
                Some(FieldKind::Varint) => {
                    if wt != 0 {
                        Err(WireError::WrongWireType)
                    } else {
                        match take_varint(rest) {
                            Err(_) => Err(WireError::InvalidVarint),
                            Ok((v, after)) => {
                                let ghost m = varint_read(rest@).unwrap().1;
                                assert(after@ =~= s@.skip((n + m) as int));
                                Ok((Some((tag, FieldValue::Varint(v))), after))
                            },
                        }
                    }
                },
                Some(FieldKind::Text) => {
                    if wt != 2 {
                        Err(WireError::WrongWireType)
                    } else {
                        match take_varint(rest) {
                            Err(_) => Err(WireError::InvalidVarint),
                            Ok((len, body)) => {
                                if len > body.len() as u64 {
                                    Err(WireError::BufferUnderflow)
                                } else {
                                    let ghost m = varint_read(rest@).unwrap().1;
                                    let (bytes, after) = body.split_at(len as usize);
                                    assert(bytes@ =~= rest@.subrange(m as int, (m + len) as int));
                                    match utf8_str(bytes) {
                                        None => Err(WireError::InvalidUtf8),
                                        Some(text) => {
                                            assert(after@ =~= s@.skip((n + m + len) as int));
                                            let t = text.to_owned();
                                            Ok((Some((tag, FieldValue::Text(t))), after))
                                        },
                                    }
                                }
                            },
                        }
                    }
                },
                None => {
                    match skip_field(rest, wt, tag, depth) {
                        Err(e) => Err(e),
                        Ok(after) => {
                            proof {
                                lemma_skip_len_bounds(rest@, wt as nat, tag as nat, depth as nat);
                                let k = skip_len(rest@, wt as nat, tag as nat, depth as nat)->Ok_0;
                                assert(after@ =~= s@.skip((n + k) as int));
                            }
                            Ok((None, after))
                        },
                    }
                },
            }
        },
    }
}


/// A message that fields can be read into.
pub trait WireMessage: Sized + View {
    /// The fields this message knows.
    spec fn schema() -> Schema;

    /// The message with every field at its default.
    spec fn blank() -> Self::V;

    /// What reading one field does to the message.
    spec fn merged(m: Self::V, r: Record) -> Self::V;

    /// The fields this message knows.
    fn schema_of() -> (s: Schema)
        ensures
            s == Self::schema(),
    ;

    /// The message with every field at its default.
    fn blank_message() -> (m: Self)
        ensures
            m@ == Self::blank(),
    ;

    /// Reads one field into the message.
    fn merge_field(&mut self, tag: u32, value: FieldValue)
        ensures
            final(self)@ == Self::merged(old(self)@, (tag as nat, value@)),
    ;
}

/// The message that a list of records builds, one after the other.
pub open spec fn fold_records<M: WireMessage>(rs: Seq<Record>) -> M::V
    decreases rs.len(),
{
    if rs.len() == 0 {
        M::blank()
    } else {
        M::merged(fold_records::<M>(rs.drop_last()), rs.last())
    }
}

/// The message a whole buffer holds, as prost's `Message::decode` reads it.
pub open spec fn message_of<M: WireMessage>(b: Seq<u8>) -> Result<M::V, WireError> {
    match scan_message(b, M::schema()) {
        Ok(rs) => Ok(fold_records::<M>(rs)),
        Err(e) => Err(e),
    }
}

/// The message at the front of a buffer, after its length, as prost's
/// `Message::decode_length_delimited` reads it.
pub open spec fn delimited_message_of<M: WireMessage>(b: Seq<u8>) -> Result<M::V, WireError> {
    match scan_delimited(b, M::schema()) {
        Ok(rs) => Ok(fold_records::<M>(rs)),
        Err(e) => Err(e),
    }
}

/// Reads fields into `m` for as long as more than `limit` bytes are left;
/// hands back the bytes left.
fn merge_until<'a, M: WireMessage>(m: &mut M, b: &'a [u8], limit: usize, depth: u32) -> (r: Result<
    &'a [u8],
    WireError,
>)
    requires
        old(m)@ == M::blank(),
    ensures
        match r {
            Ok(rest) => scan(b@, limit as nat, depth as nat, M::schema()) matches Ok((rs, left))
                && left == rest@.len() && final(m)@ == fold_records::<M>(rs),
            Err(e) => scan(b@, limit as nat, depth as nat, M::schema()) == Err::<
                (Seq<Record>, nat),
                WireError,
            >(e),
        },
{
    let schema = M::schema_of();
    let mut cur = b;
    let ghost mut done: Seq<Record> = Seq::empty();
    assert(done.len() == 0);
    while cur.len() > limit
        invariant
            schema == M::schema(),
            m@ == fold_records::<M>(done),
            scan(b@, limit as nat, depth as nat, schema) == (match scan(
                cur@,
                limit as nat,
                depth as nat,
                schema,
            ) {
                Ok((rs, left)) => Ok((done + rs, left)),
                Err(e) => Err(e),
            }),
        decreases cur@.len(),
    {
        proof {
            lemma_field_parse_advances(cur@, depth as nat, schema);
            reveal(scan);
        }
        match read_field(cur, depth, schema) {
            Err(e) => {
                return Err(e);
            },
            Ok((f, rest)) => {
                let ghost old_done = done;
                match f {
                    Some((tag, value)) => {
                        let ghost rec = (tag as nat, value@);
                        m.merge_field(tag, value);
                        proof {
                            done = done.push(rec);
                            assert(done.drop_last() =~= old_done);
                            assert forall|rs: Seq<Record>| #[trigger] (old_done + with_record(Some(rec), rs)) =~= done + rs by {}
                        }
                    },
                    None => {
                        proof {
                            assert forall|rs: Seq<Record>| #[trigger] (old_done + with_record(None, rs)) =~= done + rs by {}
                        }
                    },
                }
                cur = rest;
            },
        }
    }
    assert(done + Seq::<Record>::empty() =~= done);
    proof {
        reveal(scan);
    }
    Ok(cur)
}

/// Reads a whole buffer as one message, as prost's `Message::decode` does.
pub fn decode_message<M: WireMessage>(b: &[u8]) -> (r: Result<M, WireError>)
    ensures
        match r {
            Ok(m) => message_of::<M>(b@) == Ok::<M::V, WireError>(m@),
            Err(e) => message_of::<M>(b@) == Err::<M::V, WireError>(e),
        },
{
    let mut m = M::blank_message();
    match merge_until(&mut m, b, 0, 100) {
        Ok(_) => Ok(m),
        Err(e) => Err(e),
    }
}

/// Reads the message at the front of a buffer after its length, as prost's
/// `Message::decode_length_delimited` does; bytes after it are left alone.
pub fn decode_delimited_message<M: WireMessage>(b: &[u8]) -> (r: Result<M, WireError>)
    ensures
        match r {
            Ok(m) => delimited_message_of::<M>(b@) == Ok::<M::V, WireError>(m@),
            Err(e) => delimited_message_of::<M>(b@) == Err::<M::V, WireError>(e),
        },
{
    match take_varint(b) {
        Err(_) => Err(WireError::InvalidVarint),
        Ok((len, body)) => {
            if len > body.len() as u64 {
                return Err(WireError::BufferUnderflow);
            }
            let limit = body.len() - len as usize;
            let mut m = M::blank_message();
            match merge_until(&mut m, body, limit, 99) {
                Err(e) => Err(e),
                Ok(rest) => {
                    if rest.len() != limit {
                        Err(WireError::LengthExceeded)
                    } else {
                        Ok(m)
                    }
                },
            }
        },
    }
}


/// The key of field `tag` with wire type `wt`.
pub open spec fn key_bytes(tag: nat, wt: nat) -> Seq<u8> {
    varint_bytes(tag * 8 + wt)
}

/// A varint field as prost writes it.
pub open spec fn varint_field(tag: nat, v: u64) -> Seq<u8> {
    key_bytes(tag, 0) + varint_bytes(v as nat)
}

/// A string field as prost writes it: key, byte length, UTF-8 bytes.
pub open spec fn text_field(tag: nat, t: Seq<char>) -> Seq<u8> {
    key_bytes(tag, 2) + varint_bytes(encode_utf8(t).len()) + encode_utf8(t)
}

/// An optional field: its bytes when present, nothing otherwise.
pub open spec fn maybe(present: bool, bytes: Seq<u8>) -> Seq<u8> {
    if present {
        bytes
    } else {
        Seq::empty()
    }
}

/// A repeated string field, element after element.
pub open spec fn texts_field(tag: nat, ts: Seq<Seq<char>>) -> Seq<u8>
    decreases ts.len(),
{
    if ts.len() == 0 {
        Seq::empty()
    } else {
        texts_field(tag, ts.drop_last()) + text_field(tag, ts.last())
    }
}

/// Whether every string's UTF-8 form has a length that a varint can carry.
pub open spec fn texts_fit(ts: Seq<Seq<char>>) -> bool {
    forall|i: int| 0 <= i < ts.len() ==> encode_utf8(#[trigger] ts[i]).len() <= u64::MAX
}

/// Appends a varint field.
pub fn put_varint_field(tag: u32, v: u64, buf: &mut Vec<u8>)
    requires
        1 <= tag <= 0x1fff_ffff,
    ensures
        final(buf)@ == old(buf)@ + varint_field(tag as nat, v),
{
    let ghost start = buf@;
    put_varint(tag as u64 * 8, buf);
    put_varint(v, buf);
    assert(buf@ =~= start + varint_field(tag as nat, v));
}

/// Appends a string field.
pub fn put_text_field(tag: u32, t: &str, buf: &mut Vec<u8>)
    requires
        1 <= tag <= 0x1fff_ffff,
    ensures
        final(buf)@ == old(buf)@ + text_field(tag as nat, t@),
{
    let ghost start = buf@;
    put_varint(tag as u64 * 8 + 2, buf);
    let bytes = t.as_bytes();
    put_varint(bytes.len() as u64, buf);
    let ghost mid = buf@;
    let mut i: usize = 0;
    while i < bytes.len()
        invariant
            i <= bytes@.len(),
            buf@ == mid + bytes@.take(i as int),
        decreases bytes@.len() - i,
    {
        buf.push(bytes[i]);
        assert(bytes@.take(i + 1) =~= bytes@.take(i as int).push(bytes@[i as int]));
        i = i + 1;
    }
    assert(bytes@.take(bytes@.len() as int) =~= bytes@);
    assert(buf@ =~= start + text_field(tag as nat, t@));
}

/// One field read back: a key, then what its kind expects.
proof fn lemma_read_key_of(tag: nat, wt: nat, rest: Seq<u8>)
    requires
        1 <= tag <= 0x1fff_ffff,
        wt <= 5,
        wt != 4,
    ensures
        key_parse(key_bytes(tag, wt) + rest) == Ok::<(nat, nat, nat), WireError>(
            (tag, wt, key_bytes(tag, wt).len()),
        ),
{
    lemma_varint_roundtrip((tag * 8 + wt) as u64, rest);
    assert((tag * 8 + wt) / 8 == tag);
    assert((tag * 8 + wt) % 8 == wt);
}

/// prost reads back a varint field it wrote.
pub proof fn lemma_varint_field_read(tag: nat, v: u64, rest: Seq<u8>, depth: nat, schema: Schema)
    requires
        1 <= tag <= 0x1fff_ffff,
        field_kind(schema, tag) == Some(FieldKind::Varint),
    ensures
        field_parse(varint_field(tag, v) + rest, depth, schema) == Ok::<
            (Option<Record>, nat),
            WireError,
        >((Some((tag, FieldData::Varint(v))), varint_field(tag, v).len())),
{
    let k = key_bytes(tag, 0);
    let b = varint_field(tag, v) + rest;
    assert(b =~= k + (varint_bytes(v as nat) + rest));
    lemma_read_key_of(tag, 0, varint_bytes(v as nat) + rest);
    assert(b.skip(k.len() as int) =~= varint_bytes(v as nat) + rest);
    lemma_varint_roundtrip(v, rest);
}

/// prost reads back a string field it wrote.
pub proof fn lemma_text_field_read(tag: nat, t: Seq<char>, rest: Seq<u8>, depth: nat, schema: Schema)
    requires
        1 <= tag <= 0x1fff_ffff,
        field_kind(schema, tag) == Some(FieldKind::Text),
        encode_utf8(t).len() <= u64::MAX,
    ensures
        field_parse(text_field(tag, t) + rest, depth, schema) == Ok::<
            (Option<Record>, nat),
            WireError,
        >((Some((tag, FieldData::Text(t))), text_field(tag, t).len())),
{
    let k = key_bytes(tag, 2);
    let e = encode_utf8(t);
    let l = varint_bytes(e.len());
    let b = text_field(tag, t) + rest;
    assert(b =~= k + (l + e + rest));
    lemma_read_key_of(tag, 2, l + e + rest);
    let r = b.skip(k.len() as int);
    assert(r =~= l + (e + rest));
    lemma_varint_roundtrip(e.len() as u64, e + rest);
    assert(r.subrange(l.len() as int, (l.len() + e.len()) as int) =~= e);
    encode_utf8_valid_utf8(t);
    encode_utf8_decode_utf8(t);
}

/// Reading a field that takes the front `a` of a buffer leaves the rest to the loop.
pub proof fn lemma_scan_step(
    a: Seq<u8>,
    rest: Seq<u8>,
    limit: nat,
    depth: nat,
    schema: Schema,
    r: Option<Record>,
)
    requires
        a.len() >= 1,
        rest.len() >= limit,
        field_parse(a + rest, depth, schema) == Ok::<(Option<Record>, nat), WireError>((r, a.len())),
    ensures
        scan(a + rest, limit, depth, schema) == (match scan(rest, limit, depth, schema) {
            Ok((rs, left)) => Ok((with_record(r, rs), left)),
            Err(e) => Err(e),
        }),
{
    reveal(scan);
    assert((a + rest).skip(a.len() as int) =~= rest);
}

/// The loop stops with the limit left.
pub proof fn lemma_scan_done(rest: Seq<u8>, depth: nat, schema: Schema)
    ensures
        scan(rest, rest.len(), depth, schema) == Ok::<(Seq<Record>, nat), WireError>(
            (Seq::empty(), rest.len()),
        ),
{
    reveal(scan);
}

/// A varint field, when present, read by the loop.
pub proof fn lemma_scan_varint(
    present: bool,
    tag: nat,
    v: u64,
    rest: Seq<u8>,
    limit: nat,
    depth: nat,
    schema: Schema,
)
    requires
        1 <= tag <= 0x1fff_ffff,
        field_kind(schema, tag) == Some(FieldKind::Varint),
        rest.len() >= limit,
    ensures
        scan(maybe(present, varint_field(tag, v)) + rest, limit, depth, schema) == (match scan(
            rest,
            limit,
            depth,
            schema,
        ) {
            Ok((rs, left)) => Ok((record_if(present, (tag, FieldData::Varint(v))) + rs, left)),
            Err(e) => Err(e),
        }),
{
    if present {
        lemma_varint_field_read(tag, v, rest, depth, schema);
        lemma_varint_roundtrip((tag * 8) as u64, Seq::empty());
        lemma_scan_step(
            varint_field(tag, v),
            rest,
            limit,
            depth,
            schema,
            Some((tag, FieldData::Varint(v))),
        );
    } else {
        assert(maybe(present, varint_field(tag, v)) + rest =~= rest);
    }
    assert forall|rs: Seq<Record>| #[trigger] (record_if(present, (tag, FieldData::Varint(v))) + rs) =~= with_record(if present { Some((tag, FieldData::Varint(v))) } else { None }, rs) by {}
}

/// A string field, when present, read by the loop.
pub proof fn lemma_scan_text(
    present: bool,
    tag: nat,
    t: Seq<char>,
    rest: Seq<u8>,
    limit: nat,
    depth: nat,
    schema: Schema,
)
    requires
        1 <= tag <= 0x1fff_ffff,
        field_kind(schema, tag) == Some(FieldKind::Text),
        present ==> encode_utf8(t).len() <= u64::MAX,
        rest.len() >= limit,
    ensures
        scan(maybe(present, text_field(tag, t)) + rest, limit, depth, schema) == (match scan(
            rest,
            limit,
            depth,
            schema,
        ) {
            Ok((rs, left)) => Ok((record_if(present, (tag, FieldData::Text(t))) + rs, left)),
            Err(e) => Err(e),
        }),
{
    if present {
        lemma_text_field_read(tag, t, rest, depth, schema);
        lemma_varint_roundtrip((tag * 8 + 2) as u64, Seq::empty());
        lemma_scan_step(
            text_field(tag, t),
            rest,
            limit,
            depth,
            schema,
            Some((tag, FieldData::Text(t))),
        );
    } else {
        assert(maybe(present, text_field(tag, t)) + rest =~= rest);
    }
    assert forall|rs: Seq<Record>| #[trigger] (record_if(present, (tag, FieldData::Text(t))) + rs) =~= with_record(if present { Some((tag, FieldData::Text(t))) } else { None }, rs) by {}
}

/// The records of a repeated string field.
pub open spec fn text_records(tag: nat, ts: Seq<Seq<char>>) -> Seq<Record> {
    ts.map_values(|t: Seq<char>| (tag, FieldData::Text(t)))
}

/// A repeated string field read by the loop.
#[verifier::rlimit(40)]
pub proof fn lemma_scan_texts(
    tag: nat,
    ts: Seq<Seq<char>>,
    rest: Seq<u8>,
    limit: nat,
    depth: nat,
    schema: Schema,
)
    requires
        1 <= tag <= 0x1fff_ffff,
        field_kind(schema, tag) == Some(FieldKind::Text),
        texts_fit(ts),
        rest.len() >= limit,
    ensures
        scan(texts_field(tag, ts) + rest, limit, depth, schema) == (match scan(
            rest,
            limit,
            depth,
            schema,
        ) {
            Ok((rs, left)) => Ok((text_records(tag, ts) + rs, left)),
            Err(e) => Err(e),
        }),
    decreases ts.len(),
{
    if ts.len() == 0 {
        assert(texts_field(tag, ts) + rest =~= rest);
        assert forall|rs: Seq<Record>| #[trigger] (text_records(tag, ts) + rs) =~= rs by {}
    } else {
        let init = ts.drop_last();
        let last = ts.last();
        assert(texts_fit(init)) by {
            assert forall|i: int| 0 <= i < init.len() implies encode_utf8(#[trigger] init[i]).len()
                <= u64::MAX by {
                assert(init[i] == ts[i]);
            }
        }
        assert(encode_utf8(ts[ts.len() - 1]).len() <= u64::MAX);
        let tail = text_field(tag, last) + rest;
        let rec = (tag, FieldData::Text(last));
        lemma_text_field_read(tag, last, rest, depth, schema);
        lemma_varint_roundtrip((tag * 8 + 2) as u64, Seq::empty());
        lemma_scan_step(text_field(tag, last), rest, limit, depth, schema, Some(rec));
        lemma_scan_texts(tag, init, tail, limit, depth, schema);
        assert(texts_field(tag, ts) + rest =~= texts_field(tag, init) + tail);
        match scan(rest, limit, depth, schema) {
            Ok((rs, left)) => {
                assert(text_records(tag, ts) + rs =~= text_records(tag, init) + (seq![rec] + rs));
            },
            Err(e) => {},
        }
    }
}

/// The message that records build when a list of string records follows others.
pub proof fn lemma_fold_texts<M: WireMessage>(front: Seq<Record>, tag: nat, ts: Seq<Seq<char>>)
    ensures
        fold_records::<M>(front + text_records(tag, ts)) == if ts.len() == 0 {
            fold_records::<M>(front)
        } else {
            M::merged(
                fold_records::<M>(front + text_records(tag, ts.drop_last())),
                (tag, FieldData::Text(ts.last())),
            )
        },
{
    if ts.len() == 0 {
        assert(front + text_records(tag, ts) =~= front);
    } else {
        assert((front + text_records(tag, ts)).drop_last() =~= front + text_records(tag, ts.drop_last()));
    }
}


/// One record when `present`, none otherwise.
pub open spec fn record_if(present: bool, r: Record) -> Seq<Record> {
    if present {
        seq![r]
    } else {
        Seq::empty()
    }
}

/// Casting a 32-bit signed value out to 64 unsigned bits and back keeps it.
pub proof fn lemma_i32_through_u64(x: i32)
    ensures
        ((x as u64) as i32) == x,
{
    assert(((x as u64) as i32) == x) by (bit_vector);
}

/// Casting a 64-bit signed value to unsigned and back keeps it.
pub proof fn lemma_i64_through_u64(x: i64)
    ensures
        ((x as u64) as i64) == x,
{
    assert(((x as u64) as i64) == x) by (bit_vector);
}

/// Adding an optional record at the end merges it last.
pub proof fn lemma_fold_push<M: WireMessage>(front: Seq<Record>, present: bool, r: Record)
    ensures
        fold_records::<M>(front + record_if(present, r)) == if present {
            M::merged(fold_records::<M>(front), r)
        } else {
            fold_records::<M>(front)
        },
{
    if present {
        assert((front + record_if(present, r)).drop_last() =~= front);
    } else {
        assert(front + record_if(present, r) =~= front);
    }
}

/// Appends the bytes of `body` to `buf`.
pub fn put_bytes(body: &[u8], buf: &mut Vec<u8>)
    ensures
        final(buf)@ == old(buf)@ + body@,
{
    let ghost start = buf@;
    let mut i: usize = 0;
    while i < body.len()
        invariant
            i <= body@.len(),
            buf@ == start + body@.take(i as int),
        decreases body@.len() - i,
    {
        buf.push(body[i]);
        assert(body@.take(i + 1) =~= body@.take(i as int).push(body@[i as int]));
        i = i + 1;
    }
    assert(body@.take(body@.len() as int) =~= body@);
}

/// A message preceded by its length, as prost's `encode_length_delimited_to_vec` writes it.
pub fn delimit(body: &[u8]) -> (out: Vec<u8>)
    ensures
        out@ == varint_bytes(body@.len()) + body@,
        body@.len() <= usize::MAX,
{
    let mut out = Vec::new();
    put_varint(body.len() as u64, &mut out);
    put_bytes(body, &mut out);
    assert(out@ =~= varint_bytes(body@.len()) + body@);
    out
}

/// What is written with its length in front reads back as what plain
/// reading finds, whatever follows it.
pub proof fn lemma_delimited_of_plain(body: Seq<u8>, trailing: Seq<u8>, depth: nat, schema: Schema, rs: Seq<Record>)
    requires
        body.len() <= u64::MAX,
        forall|t: Seq<u8>| #[trigger] scan(body + t, t.len(), depth, schema) == Ok::<(Seq<Record>, nat), WireError>((rs, t.len())),
        depth == recursion_limit() - 1,
    ensures
        scan_delimited(varint_bytes(body.len()) + body + trailing, schema) == Ok::<Seq<Record>, WireError>(rs),
{
    let b = varint_bytes(body.len()) + body + trailing;
    lemma_varint_roundtrip(body.len() as u64, body + trailing);
    assert(b =~= varint_bytes(body.len()) + (body + trailing));
    let s = b.skip(varint_bytes(body.len()).len() as int);
    assert(s =~= body + trailing);
    assert(scan(body + trailing, trailing.len(), depth, schema) == Ok::<(Seq<Record>, nat), WireError>((rs, trailing.len())));
}

} // verus!
