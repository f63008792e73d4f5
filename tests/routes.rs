use cove::{
    AddressError, ChainPosition, ColdWalletRoute, ConfirmedDetails, DatabaseError, FileHandler,
    HotWalletRoute, Network, NewWalletRoute, NumberOfBip39Words, PendingDetails,
    PendingOrConfirmed, Route, RouteFactory, Router, SerdeError, TransactionDetailError, WalletId,
};

#[test]
fn factory_routes() {
    let factory = RouteFactory::new();
    assert_eq!(factory.default(), Route::Cove);
    assert_eq!(factory.new_wallet_select(), Route::NewWallet(NewWalletRoute::Select));
    assert_eq!(
        factory.new_hot_wallet(),
        Route::NewWallet(NewWalletRoute::HotWallet(HotWalletRoute::Select))
    );
    assert_eq!(
        factory.new_cold_wallet(),
        Route::NewWallet(NewWalletRoute::ColdWallet(ColdWalletRoute::Create))
    );
    let verify = HotWalletRoute::VerifyWords(WalletId("abc".to_string()));
    assert_eq!(
        factory.hot_wallet(verify.clone()),
        Route::NewWallet(NewWalletRoute::HotWallet(verify))
    );
    let create = HotWalletRoute::Create { words: NumberOfBip39Words::TwentyFour };
    assert_eq!(
        factory.hot_wallet(create.clone()),
        Route::NewWallet(NewWalletRoute::HotWallet(create))
    );
}

#[test]
fn router_starts_empty_and_routes_convert() {
    assert!(Router::new().routes.is_empty());
    assert!(Router::default().routes.is_empty());
    assert_eq!(NewWalletRoute::default(), NewWalletRoute::Select);
    assert_eq!(HotWalletRoute::default(), HotWalletRoute::Select);
    assert_eq!(ColdWalletRoute::default(), ColdWalletRoute::Create);
    assert_eq!(Route::from(NewWalletRoute::Select), Route::NewWallet(NewWalletRoute::Select));
    assert_eq!(
        NewWalletRoute::from(ColdWalletRoute::Import),
        NewWalletRoute::ColdWallet(ColdWalletRoute::Import)
    );
    assert_eq!(
        NewWalletRoute::from(HotWalletRoute::Import),
        NewWalletRoute::HotWallet(HotWalletRoute::Import)
    );
}

#[test]
fn chain_position_to_status() {
    let pending = PendingOrConfirmed::new(&ChainPosition::Unconfirmed(1677721600));
    assert_eq!(pending, PendingOrConfirmed::Pending(PendingDetails { last_seen: 1677721600 }));
    assert!(!pending.is_confirmed());
    let confirmed = PendingOrConfirmed::new(&ChainPosition::Confirmed {
        height: 840_000,
        confirmation_time: 1677721600,
    });
    assert_eq!(
        confirmed,
        PendingOrConfirmed::Confirmed(ConfirmedDetails {
            block_number: 840_000,
            confirmation_time: 1677721600
        })
    );
    assert!(confirmed.is_confirmed());
}

#[test]
fn errors_convert() {
    assert_eq!(
        DatabaseError::from(SerdeError::DeserializationError("bad".to_string())),
        DatabaseError::Serialization(SerdeError::DeserializationError("bad".to_string()))
    );
    assert_eq!(
        TransactionDetailError::from(AddressError::WrongNetwork { current: Network::Testnet }),
        TransactionDetailError::AddressError(AddressError::WrongNetwork { current: Network::Testnet })
    );
}

#[test]
fn file_handler_keeps_path() {
    assert_eq!(FileHandler::new("/tmp/export.json".to_string()).file_path, "/tmp/export.json");
}

#[test]
fn amount_marker_position() {
    assert_eq!(cove::find_amount_marker("bc1qxyz?amount=0.5"), Some(7));
    assert_eq!(cove::find_amount_marker("bc1qxyz"), None);
    assert_eq!(cove::find_amount_marker("?amount="), Some(0));
    assert_eq!(cove::find_amount_marker("?amount"), None);
    assert_eq!(cove::find_amount_marker("a?amount=1?amount=2"), Some(1));
    assert_eq!(cove::find_amount_marker("é?amount=1"), Some(2));
}

#[test]
fn table_error_converts() {
    assert_eq!(
        DatabaseError::from(cove::GlobalBoolTableError::ReadError("x".to_string())),
        DatabaseError::GlobalBool(cove::GlobalBoolTableError::ReadError("x".to_string()))
    );
}
