//! Data types shared by the dispatch pipeline.

use vstd::prelude::*;

verus! {

/// An indexable event record emitted by one transaction.
pub struct Tag {
    pub key: Vec<u8>,
    pub value: Vec<u8>,
}

/// A batch-level side effect destined for the consensus layer.
pub struct OutgoingMessage {
    pub payload: Vec<u8>,
}

/// What a transaction acts on: account creation, or a call to a recipient.
#[derive(Clone, Copy)]
pub enum TxAction {
    Create,
    Call([u8; 20]),
}

/// The plain fields of a validated transaction that the dispatcher reads.
#[derive(Clone, Copy)]
pub struct TxInfo {
    pub sender: [u8; 20],
    pub action: TxAction,
}

/// A decoded call: owns the validated transaction for one slot.
#[derive(Clone, Copy)]
pub struct DecodedCall {
    pub transaction: TxInfo,
}

/// The validator's answer for one executed transaction.
///
/// `ShortCircuitSuccess` is the check-only success marker: a successful
/// validation payload smuggled back through the failure channel. It must be
/// re-encoded as a success envelope, never as an error.
pub enum TxVerdict {
    Accepted(Vec<u8>),
    Rejected(String),
    ShortCircuitSuccess(Vec<u8>),
}

impl TxVerdict {
    /// Whether this verdict is the plain success case, whose tags are kept.
    pub open spec fn is_accepted(&self) -> bool {
        self matches TxVerdict::Accepted(_)
    }
}

/// Per-slot outcome of a validate-only batch: an empty record on success,
/// a `{module, code, message}` triple on failure.
pub struct CheckTxResult {
    pub module: String,
    pub code: u32,
    pub message: String,
}

/// Per-slot outcome of an executed batch: a wire envelope plus event tags.
pub struct ExecuteTxResult {
    pub output: Vec<u8>,
    pub tags: Vec<Tag>,
}

/// Whole-batch outcome of execute mode.
pub struct ExecuteBatchResult {
    pub results: Vec<ExecuteTxResult>,
    pub messages: Vec<OutgoingMessage>,
}

/// Failure of the batch-level lifecycle hooks: the only error class that
/// aborts the entire call instead of producing per-slot results.
#[derive(Debug)]
pub struct FatalError {
    pub message: String,
}

} // verus!
