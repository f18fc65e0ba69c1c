use vstd::prelude::*;

use crate::types::{IdxId, RelId, TypeTag};

verus! {

/// Why a generic command or record could not be converted to a typed update.
#[derive(Clone, Debug, PartialEq, Eq)]
pub enum ConversionError {
    /// No relation has this name.
    UnknownRelation(String),
    /// The record's type is not the type the relation declares.
    RecordMismatch { relid: RelId, expected: TypeTag, actual: TypeTag },
    /// The relation declares no key, so a key-addressed command cannot name it.
    NoKey(RelId),
    /// The record's type is not the key type of the index.
    KeyMismatch { idxid: IdxId, expected: TypeTag, actual: TypeTag },
}

/// The errors the transactional interface reports.
#[derive(Clone, Debug, PartialEq, Eq)]
pub enum TxnError {
    UnknownRelation(String),
    UnknownRelationId(RelId),
    UnknownIndex(String),
    UnknownIndexId(IdxId),
    /// A typed value does not have the type its relation declares.
    TypeMismatch { relid: RelId, expected: TypeTag, actual: TypeTag },
    /// The command at `position` of a batch could not be converted.
    InvalidCommand { position: usize, cause: ConversionError },
    /// An update, commit or rollback with no transaction open.
    NoTransaction,
    /// `transaction_start` while a transaction is open.
    TransactionInProgress,
    /// A failure that the dataflow engine reported.
    EngineError(String),
    /// `dump_table` on an engine built without a snapshot store.
    NotMaterialized,
}

} // verus!
