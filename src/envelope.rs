use vstd::prelude::*;
use vstd::slice::slice_subrange;

use crate::decode_error::{incomplete, yields, Needed, NfcError};

verus! {

/// The fixed prefix every envelope starts with.
pub open spec fn envelope_magic() -> Seq<u8> {
    seq![226u8, 67u8, 0u8, 1u8, 0u8, 0u8, 4u8, 0u8, 3u8]
}

/// Some byte present in `s` differs from the prefix at its place.
pub open spec fn magic_conflict(s: Seq<u8>) -> bool {
    exists|i: int| 0 <= i < s.len() && i < 9 && s[i] != envelope_magic()[i]
}

/// The escape value of the length indicator: a two-byte length follows.
pub open spec fn length_escape() -> u8 {
    255
}

/// Decoding the envelope at the front of `s`: the number of bytes its prefix
/// and length field take, and the length it announces.
pub open spec fn envelope_outcome(s: Seq<u8>) -> Result<(nat, u16), NfcError> {
    if magic_conflict(s) {
        Err(NfcError::MalformedEnvelope)
    } else if s.len() < 9 {
        incomplete((9 - s.len()) as nat)
    } else if s.len() < 10 {
        incomplete(1)
    } else if s[9] != length_escape() {
        Ok((10, s[9] as u16))
    } else if s.len() < 12 {
        incomplete((12 - s.len()) as nat)
    } else {
        Ok((12, (s[10] as nat * 256 + s[11] as nat) as u16))
    }
}

/// The envelope prefix and length field that announce `length`: one byte below
/// the escape value, else the escape value and two big-endian bytes.
pub open spec fn encode_envelope_length(length: u16) -> Seq<u8> {
    if length < 255 {
        envelope_magic().push(length as u8)
    } else {
        envelope_magic().push(255u8).push((length / 256) as u8).push((length % 256) as u8)
    }
}

/// Strips the envelope prefix from `input` and decodes the length it announces.
pub fn parse_payload_length(input: &[u8]) -> (r: Result<(&[u8], u16), NfcError>)
    ensures
        match r {
            Ok((rest, n)) => yields(envelope_outcome(input@), input@, rest@, n),
            Err(e) => envelope_outcome(input@) == Err::<(nat, u16), NfcError>(e),
        },
{
    let magic: [u8; 9] = [226, 67, 0, 1, 0, 0, 4, 0, 3];
    assert(magic@ =~= envelope_magic());
    let len = input.len();
    let prefix_len: usize = if len < 9 {
        len
    } else {
        9
    };
    let mut i: usize = 0;
    while i < prefix_len
        invariant
            i <= prefix_len,
            prefix_len == if len < 9 { len } else { 9 },
            len == input@.len(),
            magic@ == envelope_magic(),
            forall|j: int| 0 <= j < i ==> input@[j] == envelope_magic()[j],
        decreases prefix_len - i,
    {
        if input[i] != magic[i] {
            return Err(NfcError::MalformedEnvelope);
        }
        i = i + 1;
    }
    assert(!magic_conflict(input@));
    if len < 9 {
        return Err(NfcError::Incomplete(Needed::Size(9 - len)));
    }
    if len < 10 {
        return Err(NfcError::Incomplete(Needed::Size(1)));
    }
    let indicator = input[9];
    if indicator != 255 {
        let rest = slice_subrange(input, 10, len);
        assert(rest@ =~= input@.skip(10));
        return Ok((rest, indicator as u16));
    }
    if len < 12 {
        return Err(NfcError::Incomplete(Needed::Size(12 - len)));
    }
    let length = (input[10] as u16) * 256 + input[11] as u16;
    let rest = slice_subrange(input, 12, len);
    assert(rest@ =~= input@.skip(12));
    Ok((rest, length))
}

/// Decoding the envelope prefix and length field that announce `length`,
/// whatever follows them, gives back exactly `length`.
pub proof fn lemma_envelope_round_trip(length: u16, tail: Seq<u8>)
    ensures
        envelope_outcome(encode_envelope_length(length) + tail) == Ok::<(nat, u16), NfcError>(
            (encode_envelope_length(length).len(), length),
        ),
{
    let s = encode_envelope_length(length) + tail;
    assert forall|i: int| 0 <= i < 9 implies s[i] == envelope_magic()[i] by {
        assert(s[i] == encode_envelope_length(length)[i]);
    }
    assert(!magic_conflict(s));
    if length >= 255 {
        assert(s[10] as nat * 256 + s[11] as nat == length);
    }
}

} // verus!
