use vstd::prelude::*;
use vstd::slice::{slice_subrange, slice_to_vec};

use crate::decode_error::{incomplete, yields, Needed, NfcError};

verus! {

/// The decoded header of one tag record.
#[derive(Debug, Clone, Copy, PartialEq, Eq, Structural)]
pub struct NdefHeader {
    pub message_begin: bool,
    pub message_end: bool,
    pub chunked: bool,
    pub short_record: bool,
    pub has_id_length: bool,
    /// The low three bits of the flags byte.
    pub type_name_format: u8,
    pub type_length: u8,
    pub payload_length: u32,
    /// Present exactly when `has_id_length` is set.
    pub id_length: Option<u8>,
}

/// What the type-name-format bits say the type bytes are.
#[derive(Debug, Clone, Copy, PartialEq, Eq, Structural)]
pub enum NdefType {
    Empty,
    WellKnown,
    Mime,
    AbsoluteUri,
    External,
    Unknown,
    Unchanged,
    Reserved,
}

pub open spec fn is_short_record(flags: u8) -> bool {
    flags & 0x10 != 0
}

pub open spec fn has_id_length(flags: u8) -> bool {
    flags & 0x08 != 0
}

/// Width in bytes of the payload-length field.
pub open spec fn length_width(flags: u8) -> nat {
    if is_short_record(flags) {
        1
    } else {
        4
    }
}

/// Number of bytes a header with this flags byte occupies.
pub open spec fn header_len(flags: u8) -> nat {
    2 + length_width(flags) + if has_id_length(flags) {
        1nat
    } else {
        0nat
    }
}

/// The unsigned big-endian value of four bytes.
pub open spec fn be_u32_value(b0: u8, b1: u8, b2: u8, b3: u8) -> nat {
    b0 as nat * 0x100_0000 + b1 as nat * 0x1_0000 + b2 as nat * 0x100 + b3 as nat
}

/// The header at the front of `s`, which holds at least `header_len(s[0])` bytes.
pub open spec fn spec_header(s: Seq<u8>) -> NdefHeader {
    let flags = s[0];
    let w = length_width(flags) as int;
    NdefHeader {
        message_begin: flags & 0x80 != 0,
        message_end: flags & 0x40 != 0,
        chunked: flags & 0x20 != 0,
        short_record: is_short_record(flags),
        has_id_length: has_id_length(flags),
        type_name_format: flags & 0x07,
        type_length: s[1],
        payload_length: if is_short_record(flags) {
            s[2] as u32
        } else {
            be_u32_value(s[2], s[3], s[4], s[5]) as u32
        },
        id_length: if has_id_length(flags) {
            Some(s[2 + w])
        } else {
            None
        },
    }
}

/// Decoding a header from `s`: the number of bytes it takes and the header, or
/// how many bytes the first field that runs past the end still lacks.
pub open spec fn header_outcome(s: Seq<u8>) -> Result<(nat, NdefHeader), NfcError> {
    if s.len() < 2 {
        incomplete(1)
    } else if s.len() < 2 + length_width(s[0]) {
        incomplete((2 + length_width(s[0]) - s.len()) as nat)
    } else if s.len() < header_len(s[0]) {
        incomplete(1)
    } else {
        Ok((header_len(s[0]), spec_header(s)))
    }
}

pub open spec fn ndef_type_of(tnf: u8) -> NdefType {
    if tnf == 0 {
        NdefType::Empty
    } else if tnf == 1 {
        NdefType::WellKnown
    } else if tnf == 2 {
        NdefType::Mime
    } else if tnf == 3 {
        NdefType::AbsoluteUri
    } else if tnf == 4 {
        NdefType::External
    } else if tnf == 5 {
        NdefType::Unknown
    } else if tnf == 6 {
        NdefType::Unchanged
    } else {
        NdefType::Reserved
    }
}

impl NdefHeader {
    /// The kind of type identifier this record carries.
    pub fn ndef_type(&self) -> (r: NdefType)
        ensures
            r == ndef_type_of(self.type_name_format),
    {
        match self.type_name_format {
            0 => NdefType::Empty,
            1 => NdefType::WellKnown,
            2 => NdefType::Mime,
            3 => NdefType::AbsoluteUri,
            4 => NdefType::External,
            5 => NdefType::Unknown,
            6 => NdefType::Unchanged,
            _ => NdefType::Reserved,
        }
    }
}

/// Reads four bytes at `at` as an unsigned big-endian integer.
fn read_be_u32(input: &[u8], at: usize) -> (r: u32)
    requires
        at + 4 <= input@.len(),
    ensures
        r as nat == be_u32_value(input@[at as int], input@[at + 1], input@[at + 2], input@[at + 3]),
{
    let b0 = input[at] as u32;
    let b1 = input[at + 1] as u32;
    let b2 = input[at + 2] as u32;
    let b3 = input[at + 3] as u32;
    b0 * 0x100_0000 + b1 * 0x1_0000 + b2 * 0x100 + b3
}

/// Decodes one record header from the front of `input`.
pub fn parse_header(input: &[u8]) -> (r: Result<(&[u8], NdefHeader), NfcError>)
    ensures
        match r {
            Ok((rest, h)) => yields(header_outcome(input@), input@, rest@, h),
            Err(e) => header_outcome(input@) == Err::<(nat, NdefHeader), NfcError>(e),
        },
{
    let len = input.len();
    if len < 2 {
        return Err(NfcError::Incomplete(Needed::Size(1)));
    }
    let flags = input[0];
    let type_length = input[1];
    let short_record = flags & 0x10 != 0;
    let id_length_present = flags & 0x08 != 0;
    let payload_length: u32;
    let mut pos: usize;
    if short_record {
        if len < 3 {
            return Err(NfcError::Incomplete(Needed::Size(1)));
        }
        payload_length = input[2] as u32;
        pos = 3;
    } else {
        if len < 6 {
            return Err(NfcError::Incomplete(Needed::Size(6 - len)));
        }
        payload_length = read_be_u32(input, 2);
        pos = 6;
    }
    let id_length = if id_length_present {
        if len <= pos {
            return Err(NfcError::Incomplete(Needed::Size(1)));
        }
        let n = input[pos];
        pos = pos + 1;
        Some(n)
    } else {
        None
    };
    let header = NdefHeader {
        message_begin: flags & 0x80 != 0,
        message_end: flags & 0x40 != 0,
        chunked: flags & 0x20 != 0,
        short_record,
        has_id_length: id_length_present,
        type_name_format: flags & 0x07,
        type_length,
        payload_length,
        id_length,
    };
    let rest = slice_subrange(input, pos, len);
    proof {
        assert(header == spec_header(input@));
        assert(rest@ =~= input@.skip(pos as int));
    }
    Ok((rest, header))
}

/// One decoded record; every byte run is a copy, independent of the input buffer.
#[derive(Debug)]
pub struct NdefRecord {
    pub header: NdefHeader,
    pub type_: Vec<u8>,
    pub id: Option<Vec<u8>>,
    pub payload: Vec<u8>,
}

/// A record as values: its header and its byte runs.
pub struct RecordView {
    pub header: NdefHeader,
    pub type_: Seq<u8>,
    pub id: Option<Seq<u8>>,
    pub payload: Seq<u8>,
}

pub open spec fn bytes_view(o: Option<Vec<u8>>) -> Option<Seq<u8>> {
    match o {
        Some(v) => Some(v@),
        None => None,
    }
}

impl View for NdefRecord {
    type V = RecordView;

    open spec fn view(&self) -> RecordView {
        RecordView {
            header: self.header,
            type_: self.type_@,
            id: bytes_view(self.id),
            payload: self.payload@,
        }
    }
}

/// Taking `n` bytes from the front of `s`.
pub open spec fn take_outcome(s: Seq<u8>, n: nat) -> Result<(nat, Seq<u8>), NfcError> {
    if n <= s.len() {
        Ok((n, s.take(n as int)))
    } else {
        incomplete((n - s.len()) as nat)
    }
}

/// Where the type bytes of the record at the front of `s` end.
pub open spec fn type_end(s: Seq<u8>) -> nat {
    header_len(s[0]) + spec_header(s).type_length as nat
}

/// Where the id bytes (if any) of the record at the front of `s` end.
pub open spec fn id_end(s: Seq<u8>) -> nat {
    type_end(s) + match spec_header(s).id_length {
        Some(n) => n as nat,
        None => 0nat,
    }
}

/// The total length its header declares for the record at the front of `s`.
pub open spec fn record_len(s: Seq<u8>) -> nat {
    id_end(s) + spec_header(s).payload_length as nat
}

/// The record at the front of `s`, which holds at least `record_len(s)` bytes.
pub open spec fn spec_record(s: Seq<u8>) -> RecordView {
    RecordView {
        header: spec_header(s),
        type_: s.subrange(header_len(s[0]) as int, type_end(s) as int),
        id: if has_id_length(s[0]) {
            Some(s.subrange(type_end(s) as int, id_end(s) as int))
        } else {
            None
        },
        payload: s.subrange(id_end(s) as int, record_len(s) as int),
    }
}

/// Decoding one record from `s`: header, type, optional id, payload, each run
/// taken whole or reported as short by the bytes it lacks.
pub open spec fn record_outcome(s: Seq<u8>) -> Result<(nat, RecordView), NfcError> {
    match header_outcome(s) {
        Err(e) => Err(e),
        Ok(_) => if s.len() < type_end(s) {
            incomplete((type_end(s) - s.len()) as nat)
        } else if s.len() < id_end(s) {
            incomplete((id_end(s) - s.len()) as nat)
        } else if s.len() < record_len(s) {
            incomplete((record_len(s) - s.len()) as nat)
        } else {
            Ok((record_len(s), spec_record(s)))
        },
    }
}

/// The records of the maximal run of complete records at the front of `s`.
/// (A complete record is never empty, so the bound on `n` always holds; it
/// shows that the recursion shrinks.)
pub open spec fn message_records(s: Seq<u8>) -> Seq<RecordView>
    decreases s.len(),
{
    match record_outcome(s) {
        Ok((n, rec)) => if 0 < n <= s.len() {
            seq![rec] + message_records(s.skip(n as int))
        } else {
            seq![]
        },
        Err(_) => seq![],
    }
}

/// What follows the maximal run of complete records at the front of `s`.
pub open spec fn message_rest(s: Seq<u8>) -> Seq<u8>
    decreases s.len(),
{
    match record_outcome(s) {
        Ok((n, _)) => if 0 < n <= s.len() {
            message_rest(s.skip(n as int))
        } else {
            s
        },
        Err(_) => s,
    }
}

/// Decoding a message from `s`: at least one complete record is required;
/// after that, decoding stops without error at the first record that is not complete.
pub open spec fn message_outcome(s: Seq<u8>) -> Result<(nat, Seq<RecordView>), NfcError> {
    match record_outcome(s) {
        Err(e) => Err(e),
        Ok(_) => Ok(((s.len() - message_rest(s).len()) as nat, message_records(s))),
    }
}

/// Copies the first `n` bytes of `input` out and returns them with what follows.
fn take_bytes(input: &[u8], n: usize) -> (r: Result<(&[u8], Vec<u8>), NfcError>)
    ensures
        match r {
            Ok((rest, v)) => yields(take_outcome(input@, n as nat), input@, rest@, v@),
            Err(e) => take_outcome(input@, n as nat) == Err::<(nat, Seq<u8>), NfcError>(e),
        },
{
    let len = input.len();
    if len < n {
        return Err(NfcError::Incomplete(Needed::Size(n - len)));
    }
    let taken = slice_to_vec(slice_subrange(input, 0, n));
    let rest = slice_subrange(input, n, len);
    proof {
        assert(taken@ =~= input@.take(n as int));
        assert(rest@ =~= input@.skip(n as int));
    }
    Ok((rest, taken))
}

/// Takes the `type_length` type bytes from the front of `input`.
pub fn parse_type(input: &[u8], type_length: u8) -> (r: Result<(&[u8], Vec<u8>), NfcError>)
    ensures
        match r {
            Ok((rest, v)) => yields(take_outcome(input@, type_length as nat), input@, rest@, v@),
            Err(e) => take_outcome(input@, type_length as nat) == Err::<(nat, Seq<u8>), NfcError>(e),
        },
{
    take_bytes(input, type_length as usize)
}

/// Takes the id bytes from the front of `input` when the header announced an id
/// length; takes nothing otherwise.
pub fn parse_id(input: &[u8], id_length: Option<u8>) -> (r: Result<(&[u8], Option<Vec<u8>>), NfcError>)
    ensures
        match id_length {
            Some(n) => match r {
                Ok((rest, v)) => v is Some && yields(take_outcome(input@, n as nat), input@, rest@, v->0@),
                Err(e) => take_outcome(input@, n as nat) == Err::<(nat, Seq<u8>), NfcError>(e),
            },
            None => r == Ok::<(&[u8], Option<Vec<u8>>), NfcError>((input, None)),
        },
{
    match id_length {
        Some(n) => match take_bytes(input, n as usize) {
            Ok((rest, v)) => Ok((rest, Some(v))),
            Err(e) => Err(e),
        },
        None => Ok((input, None)),
    }
}

/// Takes the `payload_length` payload bytes from the front of `input`.
pub fn parse_payload(input: &[u8], payload_length: u32) -> (r: Result<(&[u8], Vec<u8>), NfcError>)
    ensures
        match r {
            Ok((rest, v)) => yields(take_outcome(input@, payload_length as nat), input@, rest@, v@),
            Err(e) => take_outcome(input@, payload_length as nat) == Err::<(nat, Seq<u8>), NfcError>(e),
        },
{
    take_bytes(input, payload_length as usize)
}

/// Decodes one complete record from the front of `input`.
pub fn parse_ndef_record(input: &[u8]) -> (r: Result<(&[u8], NdefRecord), NfcError>)
    ensures
        match r {
            Ok((rest, rec)) => yields(record_outcome(input@), input@, rest@, rec@),
            Err(e) => record_outcome(input@) == Err::<(nat, RecordView), NfcError>(e),
        },
{
    let (after_header, header) = match parse_header(input) {
        Ok(x) => x,
        Err(e) => return Err(e),
    };
    let ghost s = input@;
    let ghost hl = header_len(s[0]);
    assert(after_header@ =~= s.skip(hl as int));
    let (after_type, type_) = match parse_type(after_header, header.type_length) {
        Ok(x) => x,
        Err(e) => return Err(e),
    };
    assert(after_type@ =~= s.skip(type_end(s) as int));
    let (after_id, id) = match parse_id(after_type, header.id_length) {
        Ok(x) => x,
        Err(e) => return Err(e),
    };
    assert(after_id@ =~= s.skip(id_end(s) as int));
    let (rest, payload) = match parse_payload(after_id, header.payload_length) {
        Ok(x) => x,
        Err(e) => return Err(e),
    };
    assert(rest@ =~= s.skip(record_len(s) as int));
    let record = NdefRecord { header, type_, id, payload };
    proof {
        assert(record@.type_ =~= spec_record(s).type_);
        assert(record@.payload =~= spec_record(s).payload);
        if has_id_length(s[0]) {
            assert(record@.id->0 =~= spec_record(s).id->0);
        }
        assert(record@ == spec_record(s));
    }
    Ok((rest, record))
}

pub open spec fn record_views(recs: Seq<NdefRecord>) -> Seq<RecordView> {
    recs.map_values(|r: NdefRecord| r@)
}

/// Decodes as many complete back-to-back records as the front of `input` holds.
/// At least one must be complete; the bytes after the last complete record are
/// handed back untouched, to be retried once more bytes have arrived.
pub fn parse_ndef_message(input: &[u8]) -> (r: Result<(&[u8], Vec<NdefRecord>), NfcError>)
    ensures
        match r {
            Ok((rest, recs)) => yields(message_outcome(input@), input@, rest@, record_views(recs@)),
            Err(e) => message_outcome(input@) == Err::<(nat, Seq<RecordView>), NfcError>(e),
        },
{
    let (mut cur, first) = match parse_ndef_record(input) {
        Ok(x) => x,
        Err(e) => return Err(e),
    };
    let mut records: Vec<NdefRecord> = Vec::new();
    records.push(first);
    let ghost mut consumed: int = record_len(input@) as int;
    proof {
        assert(record_views(records@) =~= seq![spec_record(input@)]);
    }
    loop
        invariant
            record_outcome(input@) is Ok,
            0 <= consumed <= input@.len(),
            cur@ == input@.skip(consumed),
            message_records(input@) == record_views(records@) + message_records(cur@),
            message_rest(input@) == message_rest(cur@),
        decreases cur@.len(),
    {
        match parse_ndef_record(cur) {
            Ok((rest, rec)) => {
                let ghost prev = records@;
                let ghost n = record_len(cur@);
                records.push(rec);
                proof {
                    assert(input@.skip(consumed + n) =~= cur@.skip(n as int));
                    assert(record_views(records@) =~= record_views(prev).push(rec@));
                    assert(record_views(records@) + message_records(rest@) =~= record_views(prev)
                        + message_records(cur@));
                    consumed = consumed + n;
                }
                cur = rest;
            },
            Err(_) => {
                proof {
                    assert(record_outcome(cur@) is Err);
                    assert(message_records(cur@) == Seq::<RecordView>::empty());
                    assert(message_rest(cur@) == cur@);
                    assert(record_views(records@) =~= record_views(records@) + message_records(cur@));
                    assert(message_outcome(input@) == Ok::<(nat, Seq<RecordView>), NfcError>(((input@.len() - cur@.len()) as nat, record_views(records@))));
                }
                return Ok((cur, records));
            },
        }
    }
}

} // verus!
