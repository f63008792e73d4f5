use vstd::prelude::*;

verus! {

/// A value could not be turned into stored bytes, or back.
#[derive(Debug, Clone, Hash, PartialEq, Eq)]
pub enum SerdeError {
    SerializationError(String),
    DeserializationError(String),
}

/// A failure of the key-value store.
#[derive(Debug, Clone, Hash, PartialEq, Eq)]
pub enum DatabaseError {
    DatabaseAccess(String),
    TableAccess(String),
    Serialization(SerdeError),
    GlobalBool(GlobalBoolTableError),
}

impl From<SerdeError> for DatabaseError {
    fn from(error: SerdeError) -> (r: Self) {
        DatabaseError::Serialization(error)
    }
}

impl vstd::std_specs::convert::FromSpecImpl<SerdeError> for DatabaseError {
    open spec fn obeys_from_spec() -> bool {
        true
    }

    open spec fn from_spec(error: SerdeError) -> DatabaseError {
        DatabaseError::Serialization(error)
    }
}

impl From<GlobalBoolTableError> for DatabaseError {
    fn from(error: GlobalBoolTableError) -> (r: Self) {
        DatabaseError::GlobalBool(error)
    }
}

impl vstd::std_specs::convert::FromSpecImpl<GlobalBoolTableError> for DatabaseError {
    open spec fn obeys_from_spec() -> bool {
        true
    }

    open spec fn from_spec(error: GlobalBoolTableError) -> DatabaseError {
        DatabaseError::GlobalBool(error)
    }
}

/// The keys of the table of global boolean settings.
#[derive(Debug, Clone, Copy, PartialEq, Eq, Structural)]
pub enum GlobalBoolConfigKey {
    CompletedOnboarding,
}

/// A failure to read or write a global boolean setting.
#[derive(Debug, Clone, Hash, PartialEq, Eq)]
pub enum GlobalBoolTableError {
    SaveError(String),
    ReadError(String),
}

} // verus!
