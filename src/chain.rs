use vstd::prelude::*;

verus! {

/// Largest number of items a length-prefixed consensus array can hold.
pub const MAX_ARRAY_LEN: usize = 0xFFFF_FFFF;

/// A transaction identifier, in the canonical (internal) byte order.
#[derive(Clone, Copy, Debug, PartialEq, Eq, PartialOrd, Ord, Hash)]
pub struct Txid {
    pub bytes: [u8; 32],
}

impl Txid {
    /// Builds the canonical identifier from a hash as the chain-query service reports it,
    /// whose byte order is the reverse of the canonical one.
    pub fn from_remote_hash(hash: &[u8; 32]) -> (r: Txid)
        ensures
            r.bytes@ == hash@.reverse(),
    {
        let mut bytes: [u8; 32] = [0u8; 32];
        let mut i: usize = 0;
        while i < 32
            invariant
                0 <= i <= 32,
                forall|j: int| 0 <= j < i ==> bytes@[j] == hash@[31 - j],
            decreases 32 - i,
        {
            bytes.set(i, hash[31 - i]);
            i = i + 1;
        }
        assert(bytes@ =~= hash@.reverse());
        Txid { bytes }
    }
}

/// A reference to one output of a transaction.
#[derive(Clone, Copy, Debug, PartialEq, Eq, PartialOrd, Ord, Hash)]
pub struct Outpoint {
    pub txid: Txid,
    pub vout: u32,
}

/// How far a transaction has made it into the chain.
#[derive(Clone, Copy, Debug, PartialEq, Eq, PartialOrd, Ord, Hash)]
pub enum MiningStatus {
    /// Seen by the service, not yet in a block.
    Mempool,
    /// Included in the block at this height (always at least one).
    Blockchain(u64),
}

/// The status of a height as a chain-query service reports it: zero or below means
/// unconfirmed, anything above is the height of the confirming block.
pub open spec fn status_of_height(height: int) -> MiningStatus {
    if height <= 0 {
        MiningStatus::Mempool
    } else {
        MiningStatus::Blockchain(height as u64)
    }
}

impl MiningStatus {
    /// The status of a reported height.
    pub fn from_height(height: u64) -> (r: MiningStatus)
        ensures
            r == status_of_height(height as int),
    {
        if height == 0 {
            MiningStatus::Mempool
        } else {
            MiningStatus::Blockchain(height)
        }
    }

}

/// Where a contract witness transaction stands with respect to the chain.
#[derive(Clone, Copy, Debug, PartialEq, Eq, PartialOrd, Ord, Hash)]
pub enum WitnessOrd {
    /// The transaction is not known to the chain at all.
    OffChain,
    /// The transaction is known, unconfirmed or confirmed.
    OnChain(MiningStatus),
}

impl WitnessOrd {
    /// The status of a transaction observed at a reported height (zero: unconfirmed).
    pub fn with_mempool_or_height(height: u64) -> (r: WitnessOrd)
        ensures
            r == WitnessOrd::OnChain(status_of_height(height as int)),
    {
        WitnessOrd::OnChain(MiningStatus::from_height(height))
    }
}

/// How the script of a watched output was derived: keychain and index.
#[derive(Clone, Copy, Debug, PartialEq, Eq, PartialOrd, Ord, Hash)]
pub struct DeriveInfo {
    pub keychain: u8,
    pub index: u32,
}

/// An unspent output of a watched script, tagged with the script's derivation.
#[derive(Clone, Copy, Debug, PartialEq, Eq, PartialOrd, Ord, Hash)]
pub struct Utxo {
    pub derivation: DeriveInfo,
    pub outpoint: Outpoint,
    pub amount: u64,
    pub status: MiningStatus,
}

} // verus!
