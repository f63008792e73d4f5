//! Decoding of tag-record (NDEF) messages carried in a vendor framing
//! envelope, as read from an NFC transport, together with the small value
//! types the wallet application passes around.
pub mod decode_error;
pub mod envelope;
pub mod ndef;
pub mod ndef_laws;

pub mod address;
pub mod database;
pub mod file_handler;
pub mod router;
pub mod transaction;
pub mod view_model;
pub mod wallet;

pub use decode_error::{Needed, NfcError};
pub use envelope::parse_payload_length;
pub use ndef::{
    parse_header, parse_id, parse_ndef_message, parse_ndef_record, parse_payload, parse_type,
    NdefHeader, NdefRecord, NdefType,
};

pub use address::{find_amount_marker, AddressError};
pub use database::{DatabaseError, GlobalBoolConfigKey, GlobalBoolTableError, SerdeError};
pub use file_handler::{FileHandler, FileHandlerError};
pub use router::{ColdWalletRoute, HotWalletRoute, NewWalletRoute, Route, RouteFactory, Router};
pub use transaction::{
    ChainPosition, ConfirmedDetails, PendingDetails, PendingOrConfirmed, TransactionDetailError,
};
pub use view_model::{
    WalletCreationError, WalletViewModelAction, WalletViewModelReconcileMessage,
    WalletViewModelReconciler,
};
pub use wallet::{Network, NumberOfBip39Words, WalletId};
