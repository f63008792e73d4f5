use vstd::prelude::*;

use vstd::string::StringSliceAdditionalSpecFns;

use crate::wallet::Network;

verus! {

/// Why a string or a transaction output gave no usable address.
#[derive(Debug, Clone, PartialEq, Eq)]
pub enum AddressError {
    NoOutputs,
    ScriptError(String),
    InvalidAddress,
    UnsupportedNetwork,
    WrongNetwork { current: Network },
    EmptyAddress,
}

/// The bytes of `?amount=`, which starts the amount parameter of a payment URI.
pub open spec fn amount_marker() -> Seq<u8> {
    seq![63u8, 97u8, 109u8, 111u8, 117u8, 110u8, 116u8, 61u8]
}

pub open spec fn marker_at(s: Seq<u8>, p: int) -> bool {
    0 <= p && p + 8 <= s.len() && s.subrange(p, p + 8) == amount_marker()
}

/// The byte offset of the first `?amount=` in `full_qr`, if there is one. The
/// address is what stands before it, the amount what follows it.
pub fn find_amount_marker(full_qr: &str) -> (r: Option<usize>)
    ensures
        match r {
            Some(p) => marker_at(full_qr.spec_bytes(), p as int) && forall|q: int|
                0 <= q < p ==> !marker_at(full_qr.spec_bytes(), q),
            None => forall|q: int| !marker_at(full_qr.spec_bytes(), q),
        },
{
    let marker: [u8; 8] = [63, 97, 109, 111, 117, 110, 116, 61];
    assert(marker@ =~= amount_marker());
    let bytes = full_qr.as_bytes();
    let len = bytes.len();
    if len < 8 {
        return None;
    }
    let mut p: usize = 0;
    while p <= len - 8
        invariant
            len == bytes@.len(),
            bytes@ == full_qr.spec_bytes(),
            marker@ == amount_marker(),
            8 <= len,
            p <= len - 7,
            forall|q: int| 0 <= q < p ==> !marker_at(bytes@, q),
        decreases len - p,
    {
        let mut j: usize = 0;
        while j < 8 && bytes[p + j] == marker[j]
            invariant
                j <= 8,
                p + 8 <= len,
                len == bytes@.len(),
                marker@ == amount_marker(),
                forall|i: int| 0 <= i < j ==> bytes@[p + i] == amount_marker()[i],
            decreases 8 - j,
        {
            j = j + 1;
        }
        if j == 8 {
            assert(bytes@.subrange(p as int, p + 8) =~= amount_marker());
            return Some(p);
        }
        assert(bytes@.subrange(p as int, p + 8)[j as int] != amount_marker()[j as int]);
        p = p + 1;
    }
    None
}

} // verus!
