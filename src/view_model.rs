use vstd::prelude::*;

use crate::wallet::NumberOfBip39Words;

verus! {

/// A change the view model reports to the front end.
#[derive(Debug, Clone, Copy, Hash, PartialEq, Eq, Structural)]
pub enum WalletViewModelReconcileMessage {
    Words(NumberOfBip39Words),
}

/// An action the front end asks the view model to carry out.
#[derive(Debug, Clone, Copy, Hash, PartialEq, Eq, Structural)]
pub enum WalletViewModelAction {
    UpdateWords(NumberOfBip39Words),
}

/// A wallet could not be created.
#[derive(Debug, Clone, Hash, PartialEq, Eq)]
pub enum WalletCreationError {
    BdkError(String),
}

/// Implemented by the front end to apply view model changes.
pub trait WalletViewModelReconciler: Send + Sync + 'static {
    /// Tells the front end to reconcile the view model changes.
    fn reconcile(&self, message: WalletViewModelReconcileMessage);
}

} // verus!
