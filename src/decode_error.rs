use vstd::prelude::*;

verus! {

/// How many more bytes a decoder needs before it can finish the step it stopped at.
#[derive(Debug, Clone, Copy, PartialEq, Eq, Structural)]
pub enum Needed {
    /// More bytes are needed, but how many is not known yet.
    Unknown,
    /// Exactly this many more bytes finish the current step.
    Size(usize),
}

/// Why a decoding step did not produce a value.
#[derive(Debug, Clone, Copy, PartialEq, Eq, Structural)]
pub enum NfcError {
    /// The buffer ends too early; the same bytes with more appended may decode.
    Incomplete(Needed),
    /// The bytes present contradict the envelope's fixed prefix; more bytes cannot help.
    MalformedEnvelope,
}

/// The outcome of a step that stopped `n` bytes short.
pub open spec fn incomplete<T>(n: nat) -> Result<T, NfcError> {
    Err(NfcError::Incomplete(Needed::Size(n as usize)))
}

/// `outcome` says that decoding `input` consumed the bytes in front of `rest`
/// and produced `value`.
pub open spec fn yields<T>(
    outcome: Result<(nat, T), NfcError>,
    input: Seq<u8>,
    rest: Seq<u8>,
    value: T,
) -> bool {
    &&& rest.len() <= input.len()
    &&& outcome == Ok::<(nat, T), NfcError>(((input.len() - rest.len()) as nat, value))
    &&& rest == input.skip(input.len() - rest.len())
}

} // verus!
