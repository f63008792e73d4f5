use vstd::prelude::*;

verus! {

/// How many words a BIP-39 mnemonic has.
#[derive(Debug, Clone, Copy, Hash, PartialEq, Eq, Structural)]
pub enum NumberOfBip39Words {
    Twelve,
    TwentyFour,
}

/// The identifier under which a wallet is stored.
#[derive(Debug, Clone, Hash, PartialEq, Eq)]
pub struct WalletId(pub String);

/// The bitcoin networks the application works with.
#[derive(Debug, Clone, Copy, Hash, PartialEq, Eq, Structural)]
pub enum Network {
    Bitcoin,
    Testnet,
}

} // verus!
