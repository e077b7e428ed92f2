use vstd::prelude::*;

use crate::chain::{Outpoint, Txid};
use crate::tx::{InputModel, OutputModel, TxModel};

verus! {

/// A request to the chain-query service that did not succeed.
#[derive(Clone, Debug, PartialEq, Eq)]
pub enum RemoteError {
    /// The service does not know the subject, or rejected the query at the protocol
    /// level in a way that cannot be told apart from that.
    NotFound(String),
    /// Any other failure: lost connection, timeout, malformed answer.
    Failure(String),
}

impl RemoteError {
    pub open spec fn is_failure(&self) -> bool {
        self is Failure
    }

    pub open spec fn spec_message(&self) -> String {
        match self {
            RemoteError::NotFound(m) => *m,
            RemoteError::Failure(m) => *m,
        }
    }
}

/// Whether a sub-request of a batch failed for a reason other than "not found".
pub open spec fn is_failed<T>(r: Result<T, RemoteError>) -> bool {
    r is Err && r->Err_0.is_failure()
}

/// `i` is the position of the first failed sub-request of a batch.
pub open spec fn first_failure<T>(rs: Seq<Result<T, RemoteError>>, i: int) -> bool {
    &&& 0 <= i < rs.len()
    &&& is_failed(rs[i])
    &&& forall|j: int| 0 <= j < i ==> !is_failed(#[trigger] rs[j])
}

/// The entries a sub-request of a batch contributes: none where it did not succeed.
pub open spec fn entries_of<T>(r: Result<Vec<T>, RemoteError>) -> Seq<T> {
    match r {
        Ok(v) => v@,
        Err(_) => Seq::empty(),
    }
}

/// A transaction input as the service returns it.
#[derive(Clone, Debug, PartialEq, Eq)]
pub struct RemoteTxIn {
    /// Identifier of the spent transaction, in consensus byte order.
    pub prev_txid: [u8; 32],
    pub prev_vout: u32,
    pub script_sig: Vec<u8>,
    pub sequence: u32,
    pub witness: Vec<Vec<u8>>,
}

/// A transaction output as the service returns it.
#[derive(Clone, Debug, PartialEq, Eq)]
pub struct RemoteTxOut {
    pub value: u64,
    pub script_pubkey: Vec<u8>,
}

/// A transaction as the service returns it.
#[derive(Clone, Debug, PartialEq, Eq)]
pub struct RemoteTx {
    pub version: i32,
    pub input: Vec<RemoteTxIn>,
    pub output: Vec<RemoteTxOut>,
    pub lock_time: u32,
}

impl RemoteTxIn {
    pub open spec fn model(&self) -> InputModel {
        InputModel {
            prev_output: Outpoint { txid: Txid { bytes: self.prev_txid }, vout: self.prev_vout },
            sig_script: self.script_sig@,
            sequence: self.sequence,
            witness: self.witness.deep_view(),
        }
    }
}

impl RemoteTxOut {
    pub open spec fn model(&self) -> OutputModel {
        OutputModel { value: self.value, script_pubkey: self.script_pubkey@ }
    }
}

impl RemoteTx {
    pub open spec fn model(&self) -> TxModel {
        TxModel {
            version: self.version,
            inputs: self.input@.map_values(|i: RemoteTxIn| i.model()),
            outputs: self.output@.map_values(|o: RemoteTxOut| o.model()),
            lock_time: self.lock_time,
        }
    }
}

/// One unspent output of a script, as the service lists it.
#[derive(Clone, Copy, Debug, PartialEq, Eq)]
pub struct ListUnspentRes {
    /// Hash of the transaction, in the service's (reversed) byte order.
    pub tx_hash: [u8; 32],
    pub tx_pos: u32,
    pub value: u64,
    /// Height of the confirming block; zero while unconfirmed.
    pub height: u64,
}

/// One history entry of a script, as the service lists it.
#[derive(Clone, Copy, Debug, PartialEq, Eq)]
pub struct GetHistoryRes {
    /// Hash of the transaction, in the service's (reversed) byte order.
    pub tx_hash: [u8; 32],
    /// Height of the confirming block; zero or below while unconfirmed.
    pub height: i64,
}

} // verus!
