use vstd::prelude::*;

use crate::wallet::{NumberOfBip39Words, WalletId};

verus! {

/// A screen of the application.
#[derive(Debug, Clone, Hash, PartialEq, Eq)]
pub enum Route {
    Cove,
    NewWallet(NewWalletRoute),
}

/// The screens of the new-wallet flow.
#[derive(Debug, Clone, Hash, PartialEq, Eq)]
pub enum NewWalletRoute {
    Select,
    HotWallet(HotWalletRoute),
    ColdWallet(ColdWalletRoute),
}

/// The screens of the hot-wallet flow.
#[derive(Debug, Clone, Hash, PartialEq, Eq)]
pub enum HotWalletRoute {
    Select,
    Create { words: NumberOfBip39Words },
    Import,
    VerifyWords(WalletId),
}

/// The screens of the cold-wallet flow.
#[derive(Debug, Copy, Clone, Hash, PartialEq, Eq)]
pub enum ColdWalletRoute {
    Create,
    Import,
}

impl Default for NewWalletRoute {
    fn default() -> (r: Self)
        ensures
            r == NewWalletRoute::Select,
    {
        NewWalletRoute::Select
    }
}

impl Default for HotWalletRoute {
    fn default() -> (r: Self)
        ensures
            r == HotWalletRoute::Select,
    {
        HotWalletRoute::Select
    }
}

impl Default for ColdWalletRoute {
    fn default() -> (r: Self)
        ensures
            r == ColdWalletRoute::Create,
    {
        ColdWalletRoute::Create
    }
}

impl From<NewWalletRoute> for Route {
    fn from(route: NewWalletRoute) -> (r: Self) {
        Route::NewWallet(route)
    }
}

impl vstd::std_specs::convert::FromSpecImpl<NewWalletRoute> for Route {
    open spec fn obeys_from_spec() -> bool {
        true
    }

    open spec fn from_spec(route: NewWalletRoute) -> Route {
        Route::NewWallet(route)
    }
}

impl From<HotWalletRoute> for NewWalletRoute {
    fn from(route: HotWalletRoute) -> (r: Self) {
        NewWalletRoute::HotWallet(route)
    }
}

impl vstd::std_specs::convert::FromSpecImpl<HotWalletRoute> for NewWalletRoute {
    open spec fn obeys_from_spec() -> bool {
        true
    }

    open spec fn from_spec(route: HotWalletRoute) -> NewWalletRoute {
        NewWalletRoute::HotWallet(route)
    }
}

impl From<ColdWalletRoute> for NewWalletRoute {
    fn from(route: ColdWalletRoute) -> (r: Self) {
        NewWalletRoute::ColdWallet(route)
    }
}

impl vstd::std_specs::convert::FromSpecImpl<ColdWalletRoute> for NewWalletRoute {
    open spec fn obeys_from_spec() -> bool {
        true
    }

    open spec fn from_spec(route: ColdWalletRoute) -> NewWalletRoute {
        NewWalletRoute::ColdWallet(route)
    }
}

/// The stack of screens the user has navigated through.
#[derive(Debug, Clone, Hash, PartialEq, Eq)]
pub struct Router {
    pub routes: Vec<Route>,
}

impl Router {
    /// A router with no screen pushed.
    pub fn new() -> (r: Self)
        ensures
            r.routes@ == Seq::<Route>::empty(),
    {
        Router { routes: Vec::new() }
    }
}

impl Default for Router {
    fn default() -> (r: Self)
        ensures
            r.routes@ == Seq::<Route>::empty(),
    {
        Router::new()
    }
}

/// Builds the routes the front end navigates to.
#[derive(Debug, Clone, Hash, PartialEq, Eq)]
pub struct RouteFactory;

impl RouteFactory {
    pub fn new() -> (r: Self) {
        RouteFactory
    }

    /// The start screen.
    pub fn default(&self) -> (r: Route)
        ensures
            r == Route::Cove,
    {
        Route::Cove
    }

    /// The first screen of the new-wallet flow.
    pub fn new_wallet_select(&self) -> (r: Route)
        ensures
            r == Route::NewWallet(NewWalletRoute::Select),
    {
        Route::NewWallet(NewWalletRoute::default())
    }

    /// The first screen of the hot-wallet flow.
    pub fn new_hot_wallet(&self) -> (r: Route)
        ensures
            r == Route::NewWallet(NewWalletRoute::HotWallet(HotWalletRoute::Select)),
    {
        Route::NewWallet(NewWalletRoute::HotWallet(HotWalletRoute::default()))
    }

    /// The first screen of the cold-wallet flow.
    pub fn new_cold_wallet(&self) -> (r: Route)
        ensures
            r == Route::NewWallet(NewWalletRoute::ColdWallet(ColdWalletRoute::Create)),
    {
        Route::NewWallet(NewWalletRoute::ColdWallet(ColdWalletRoute::default()))
    }

    /// The given screen of the hot-wallet flow.
    pub fn hot_wallet(&self, route: HotWalletRoute) -> (r: Route)
        ensures
            r == Route::NewWallet(NewWalletRoute::HotWallet(route)),
    {
        Route::NewWallet(NewWalletRoute::HotWallet(route))
    }
}

} // verus!
