use vstd::prelude::*;

use crate::chain::Outpoint;

verus! {

/// One input of a canonical consensus transaction.
#[derive(Clone, Debug, PartialEq, Eq)]
pub struct TxIn {
    pub prev_output: Outpoint,
    pub sig_script: Vec<u8>,
    pub sequence: u32,
    pub witness: Vec<Vec<u8>>,
}

/// One output of a canonical consensus transaction.
#[derive(Clone, Debug, PartialEq, Eq)]
pub struct TxOut {
    pub value: u64,
    pub script_pubkey: Vec<u8>,
}

/// A consensus transaction in the form the validation engine takes as ground truth.
#[derive(Clone, Debug, PartialEq, Eq)]
pub struct Tx {
    pub version: i32,
    pub inputs: Vec<TxIn>,
    pub outputs: Vec<TxOut>,
    pub lock_time: u32,
}

/// The consensus fields of a transaction input.
pub struct InputModel {
    pub prev_output: Outpoint,
    pub sig_script: Seq<u8>,
    pub sequence: u32,
    pub witness: Seq<Seq<u8>>,
}

/// The consensus fields of a transaction output.
pub struct OutputModel {
    pub value: u64,
    pub script_pubkey: Seq<u8>,
}

/// The consensus fields of a transaction: everything its serialization, and so its
/// identifier, is computed from.
pub struct TxModel {
    pub version: i32,
    pub inputs: Seq<InputModel>,
    pub outputs: Seq<OutputModel>,
    pub lock_time: u32,
}

impl TxIn {
    pub open spec fn model(&self) -> InputModel {
        InputModel {
            prev_output: self.prev_output,
            sig_script: self.sig_script@,
            sequence: self.sequence,
            witness: self.witness.deep_view(),
        }
    }
}

impl TxOut {
    pub open spec fn model(&self) -> OutputModel {
        OutputModel { value: self.value, script_pubkey: self.script_pubkey@ }
    }
}

impl Tx {
    pub open spec fn model(&self) -> TxModel {
        TxModel {
            version: self.version,
            inputs: self.inputs@.map_values(|i: TxIn| i.model()),
            outputs: self.outputs@.map_values(|o: TxOut| o.model()),
            lock_time: self.lock_time,
        }
    }
}

} // verus!
