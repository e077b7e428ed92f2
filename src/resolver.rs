use vstd::prelude::*;

use crate::chain::{status_of_height, MiningStatus, Outpoint, Txid, WitnessOrd, MAX_ARRAY_LEN};
use crate::remote::{
    entries_of, first_failure, is_failed, GetHistoryRes, RemoteError, RemoteTx, RemoteTxIn,
    RemoteTxOut,
};
use crate::tx::{OutputModel, Tx, TxIn, TxModel, TxOut};

verus! {

/// Why a transaction could not be resolved.
#[derive(Clone, Debug, PartialEq, Eq)]
pub enum TxResolverError {
    /// The service does not know the transaction: it may be off-chain.
    Unknown(Txid),
    /// The service could not be asked: the message says why.
    Other(Txid, String),
    /// The fetched transaction does not fit the consensus structure.
    Malformed(Txid),
}

/// Whether a transaction's input and output lists fit in length-prefixed consensus arrays.
pub open spec fn fits_consensus_arrays(m: TxModel) -> bool {
    m.inputs.len() <= MAX_ARRAY_LEN && m.outputs.len() <= MAX_ARRAY_LEN
}

/// The consensus fields of a fetch outcome.
pub open spec fn fetched_model(fetched: Result<RemoteTx, RemoteError>) -> Result<TxModel, RemoteError> {
    match fetched {
        Ok(t) => Ok(t.model()),
        Err(e) => Err(e),
    }
}

/// The consensus fields of a resolution outcome.
pub open spec fn resolved_model(r: Result<Tx, TxResolverError>) -> Result<TxModel, TxResolverError> {
    match r {
        Ok(t) => Ok(t.model()),
        Err(e) => Err(e),
    }
}

/// What resolving transaction `txid` yields, given what fetching it from the service gave.
pub open spec fn tx_outcome(txid: Txid, fetched: Result<TxModel, RemoteError>) -> Result<
    TxModel,
    TxResolverError,
> {
    match fetched {
        Err(RemoteError::NotFound(_)) => Err(TxResolverError::Unknown(txid)),
        Err(RemoteError::Failure(m)) => Err(TxResolverError::Other(txid, m)),
        Ok(m) => if fits_consensus_arrays(m) {
            Ok(m)
        } else {
            Err(TxResolverError::Malformed(txid))
        },
    }
}

/// Classifies a failed request about transaction `txid`.
pub fn classify_error(txid: Txid, err: RemoteError) -> (r: TxResolverError)
    ensures
        r == match err {
            RemoteError::NotFound(_) => TxResolverError::Unknown(txid),
            RemoteError::Failure(m) => TxResolverError::Other(txid, m),
        },
{
    match err {
        RemoteError::NotFound(_) => TxResolverError::Unknown(txid),
        RemoteError::Failure(m) => TxResolverError::Other(txid, m),
    }
}

fn reencode_input(txin: RemoteTxIn) -> (r: TxIn)
    ensures
        r.model() == txin.model(),
{
    TxIn {
        prev_output: Outpoint { txid: Txid { bytes: txin.prev_txid }, vout: txin.prev_vout },
        sig_script: txin.script_sig,
        sequence: txin.sequence,
        witness: txin.witness,
    }
}

fn reencode_output(txout: RemoteTxOut) -> (r: TxOut)
    ensures
        r.model() == txout.model(),
{
    TxOut { value: txout.value, script_pubkey: txout.script_pubkey }
}

/// Re-encodes transaction `txid`, as fetching it from the service gave it, into the
/// canonical consensus structure, field by field.
pub fn resolve_tx(txid: Txid, fetched: Result<RemoteTx, RemoteError>) -> (r: Result<
    Tx,
    TxResolverError,
>)
    ensures
        resolved_model(r) == tx_outcome(txid, fetched_model(fetched)),
{
    let remote = match fetched {
        Ok(remote) => remote,
        Err(err) => return Err(classify_error(txid, err)),
    };
    if remote.input.len() > MAX_ARRAY_LEN || remote.output.len() > MAX_ARRAY_LEN {
        return Err(TxResolverError::Malformed(txid));
    }
    let ghost remote_inputs = remote.input@;
    let ghost remote_outputs = remote.output@;
    let mut inputs: Vec<TxIn> = Vec::new();
    for txin in it: remote.input.into_iter()
        invariant
            it.seq() == remote_inputs,
            inputs@.len() == it.index(),
            forall|j: int|
                0 <= j < it.index() ==> (#[trigger] inputs@[j]).model() == remote_inputs[j].model(),
    {
        inputs.push(reencode_input(txin));
    }
    let mut outputs: Vec<TxOut> = Vec::new();
    for txout in it: remote.output.into_iter()
        invariant
            it.seq() == remote_outputs,
            outputs@.len() == it.index(),
            forall|j: int|
                0 <= j < it.index() ==> (#[trigger] outputs@[j]).model() == remote_outputs[j].model(),
    {
        outputs.push(reencode_output(txout));
    }
    let tx = Tx { version: remote.version, inputs, outputs, lock_time: remote.lock_time };
    assert(tx.model().inputs =~= remote_inputs.map_values(|i: RemoteTxIn| i.model()));
    assert(tx.model().outputs =~= remote_outputs.map_values(|o: RemoteTxOut| o.model()));
    Ok(tx)
}

/// What is left to do to settle a transaction's confirmation status.
#[derive(Clone, Debug, PartialEq, Eq)]
pub enum HeightQuery {
    /// The status is settled.
    Done(WitnessOrd),
    /// The history of each of these scripts is to be fetched, in one batch.
    History(Vec<Vec<u8>>),
}

/// The model of a [`HeightQuery`].
pub enum HeightStep {
    Done(WitnessOrd),
    History(Seq<Seq<u8>>),
}

impl HeightQuery {
    pub open spec fn model(&self) -> HeightStep {
        match self {
            HeightQuery::Done(w) => HeightStep::Done(*w),
            HeightQuery::History(scripts) => HeightStep::History(scripts.deep_view()),
        }
    }
}

pub open spec fn query_model(r: Result<HeightQuery, TxResolverError>) -> Result<HeightStep, TxResolverError> {
    match r {
        Ok(q) => Ok(q.model()),
        Err(e) => Err(e),
    }
}

/// The scripts of a transaction's outputs, in order.
pub open spec fn output_scripts(m: TxModel) -> Seq<Seq<u8>> {
    m.outputs.map_values(|o: OutputModel| o.script_pubkey)
}

/// What follows the resolution of a transaction when its confirmation status is sought:
/// an unknown transaction is off-chain; another error stands; a resolved one has the
/// history of its output scripts fetched.
pub open spec fn height_step(resolved: Result<TxModel, TxResolverError>) -> Result<
    HeightStep,
    TxResolverError,
> {
    match resolved {
        Err(TxResolverError::Unknown(_)) => Ok(HeightStep::Done(WitnessOrd::OffChain)),
        Err(e) => Err(e),
        Ok(m) => Ok(HeightStep::History(output_scripts(m))),
    }
}

/// Decides, from the resolution of a transaction, how its confirmation status is settled.
pub fn height_query(resolved: Result<Tx, TxResolverError>) -> (r: Result<
    HeightQuery,
    TxResolverError,
>)
    ensures
        query_model(r) == height_step(resolved_model(resolved)),
{
    match resolved {
        Err(TxResolverError::Unknown(_)) => Ok(HeightQuery::Done(WitnessOrd::OffChain)),
        Err(e) => Err(e),
        Ok(tx) => {
            let mut scripts: Vec<Vec<u8>> = Vec::new();
            let ghost outputs = tx.outputs@;
            let ghost m = tx.model();
            for txout in it: tx.outputs.into_iter()
                invariant
                    it.seq() == outputs,
                    scripts@.len() == it.index(),
                    forall|j: int|
                        0 <= j < it.index() ==> (#[trigger] scripts@[j])@ == outputs[j].script_pubkey@,
            {
                scripts.push(txout.script_pubkey);
            }
            assert forall|j: int| 0 <= j < scripts@.len() implies scripts.deep_view()[j]
                == output_scripts(m)[j] by {
                assert(scripts@[j].deep_view() =~= scripts@[j]@);
            }
            assert(scripts.deep_view() =~= output_scripts(m));
            Ok(HeightQuery::History(scripts))
        },
    }
}

/// First step in settling the confirmation status of transaction `txid`, given what
/// fetching it from the service gave.
pub fn resolve_height_query(txid: Txid, fetched: Result<RemoteTx, RemoteError>) -> (r: Result<
    HeightQuery,
    TxResolverError,
>)
    ensures
        query_model(r) == height_step(tx_outcome(txid, fetched_model(fetched))),
{
    height_query(resolve_tx(txid, fetched))
}

/// The heights that a batch of history sub-requests reports, flattened in order.
pub open spec fn all_heights(hs: Seq<Result<Vec<GetHistoryRes>, RemoteError>>) -> Seq<i64>
    decreases hs.len(),
{
    if hs.len() == 0 {
        Seq::empty()
    } else {
        all_heights(hs.drop_last()) + entries_of(hs.last()).map_values(|e: GetHistoryRes| e.height)
    }
}

/// `h` is the least positive height among `heights`.
pub open spec fn is_min_positive(heights: Seq<i64>, h: i64) -> bool {
    &&& h > 0
    &&& heights.contains(h)
    &&& forall|j: int| 0 <= j < heights.len() && heights[j] > 0 ==> h <= #[trigger] heights[j]
}

/// The confirmation status that a set of reported heights gives: off-chain when there is
/// none, confirmed at the least positive height when there is one, unconfirmed otherwise.
pub open spec fn confirmation_of(heights: Seq<i64>) -> WitnessOrd {
    if heights.len() == 0 {
        WitnessOrd::OffChain
    } else if exists|h: i64| is_min_positive(heights, h) {
        WitnessOrd::OnChain(
            MiningStatus::Blockchain((choose|h: i64| is_min_positive(heights, h)) as u64),
        )
    } else {
        WitnessOrd::OnChain(MiningStatus::Mempool)
    }
}

proof fn lemma_all_heights_step(hs: Seq<Result<Vec<GetHistoryRes>, RemoteError>>, i: int)
    requires
        0 <= i < hs.len(),
    ensures
        all_heights(hs.take(i + 1)) == all_heights(hs.take(i)) + entries_of(hs[i]).map_values(
            |e: GetHistoryRes| e.height,
        ),
{
    assert(hs.take(i + 1).drop_last() =~= hs.take(i));
}

/// The least positive height, where there is one, is the only such height.
proof fn lemma_min_positive_unique(heights: Seq<i64>, a: i64, b: i64)
    requires
        is_min_positive(heights, a),
        is_min_positive(heights, b),
    ensures
        a == b,
{
    let ia = choose|j: int| 0 <= j < heights.len() && heights[j] == a;
    let ib = choose|j: int| 0 <= j < heights.len() && heights[j] == b;
    assert(heights[ia] == a);
    assert(heights[ib] == b);
}

/// Settles the confirmation status of transaction `txid` from the history of its output
/// scripts, one sub-request per script. A failed sub-request fails the whole, with the
/// message of the first one; a script the service does not know has no history.
pub fn resolve_height(txid: Txid, histories: &Vec<Result<Vec<GetHistoryRes>, RemoteError>>) -> (r:
    Result<WitnessOrd, TxResolverError>)
    ensures
        r is Err <==> exists|i: int| first_failure(histories@, i),
        forall|i: int|
            first_failure(histories@, i) ==> r == Err::<WitnessOrd, TxResolverError>(
                TxResolverError::Other(txid, histories@[i]->Err_0.spec_message()),
            ),
        r is Ok ==> r->Ok_0 == confirmation_of(all_heights(histories@)),
{
    let ghost hs = histories@;
    let mut seen: bool = false;
    let mut best: u64 = 0;
    let mut i: usize = 0;
    while i < histories.len()
        invariant
            0 <= i <= hs.len(),
            hs == histories@,
            forall|j: int| 0 <= j < i ==> !is_failed(#[trigger] hs[j]),
            seen == (all_heights(hs.take(i as int)).len() > 0),
            best == 0 ==> forall|j: int|
                0 <= j < all_heights(hs.take(i as int)).len() ==> #[trigger] all_heights(
                    hs.take(i as int),
                )[j] <= 0,
            best > 0 ==> best <= i64::MAX && is_min_positive(all_heights(hs.take(i as int)), best as i64),
        decreases hs.len() - i,
    {
        proof {
            lemma_all_heights_step(hs, i as int);
        }
        match &histories[i] {
            Err(RemoteError::Failure(m)) => {
                assert(first_failure(hs, i as int));
                return Err(TxResolverError::Other(txid, m.clone()));
            },
            Err(RemoteError::NotFound(_)) => {
                assert(all_heights(hs.take(i + 1)) =~= all_heights(hs.take(i as int)));
            },
            Ok(entries) => {
                let ghost before = all_heights(hs.take(i as int));
                let ghost hv = entries@.map_values(|e: GetHistoryRes| e.height);
                let mut k: usize = 0;
                while k < entries.len()
                    invariant
                        0 <= k <= entries.len(),
                        hv == entries@.map_values(|e: GetHistoryRes| e.height),
                        seen == ((before + hv.take(k as int)).len() > 0),
                        best == 0 ==> forall|j: int|
                            0 <= j < (before + hv.take(k as int)).len() ==> #[trigger] (before
                                + hv.take(k as int))[j] <= 0,
                        best > 0 ==> best <= i64::MAX && is_min_positive(
                            before + hv.take(k as int),
                            best as i64,
                        ),
                    decreases entries.len() - k,
                {
                    let h = entries[k].height;
                    let ghost old_seq = before + hv.take(k as int);
                    let ghost new_seq = before + hv.take(k + 1);
                    assert(new_seq =~= old_seq.push(h));
                    seen = true;
                    if h > 0 && (best == 0 || (h as u64) < best) {
                        best = h as u64;
                        assert(new_seq[old_seq.len() as int] == h);
                    } else {
                        if best > 0 {
                            let ghost ib = choose|j: int| 0 <= j < old_seq.len() && old_seq[j] == best as i64;
                            assert(new_seq[ib] == best as i64);
                        }
                    }
                    k = k + 1;
                }
                assert(hv.take(entries.len() as int) =~= hv);
            },
        }
        i = i + 1;
    }
    assert(hs.take(hs.len() as int) =~= hs);
    let ghost all = all_heights(hs);
    if !seen {
        Ok(WitnessOrd::OffChain)
    } else if best == 0 {
        assert(!exists|h: i64| is_min_positive(all, h)) by {
            if exists|h: i64| is_min_positive(all, h) {
                let h = choose|h: i64| is_min_positive(all, h);
                let ih = choose|j: int| 0 <= j < all.len() && all[j] == h;
                assert(all[ih] <= 0);
            }
        }
        Ok(WitnessOrd::with_mempool_or_height(0))
    } else {
        proof {
            let c = choose|h: i64| is_min_positive(all, h);
            lemma_min_positive_unique(all, c, best as i64);
        }
        Ok(WitnessOrd::with_mempool_or_height(best))
    }
}

/// Re-encoding is lossless: a fetched transaction that fits the consensus arrays resolves
/// to exactly its consensus fields, so any identifier computed from them (its hash in
/// particular) is the one of the fetched transaction.
pub proof fn lemma_reencoding_keeps_identifier(
    txid: Txid,
    fetched: TxModel,
    identifier: spec_fn(TxModel) -> Seq<u8>,
)
    requires
        fits_consensus_arrays(fetched),
    ensures
        tx_outcome(txid, Ok(fetched)) == Ok::<TxModel, TxResolverError>(fetched),
        identifier(tx_outcome(txid, Ok(fetched))->Ok_0) == identifier(fetched),
{
}

/// A transaction that resolves as unknown is off-chain: settling its confirmation status
/// ends there, with no error.
pub proof fn lemma_unknown_tx_is_off_chain(txid: Txid, fetched: Result<TxModel, RemoteError>)
    requires
        tx_outcome(txid, fetched) == Err::<TxModel, TxResolverError>(TxResolverError::Unknown(txid)),
    ensures
        height_step(tx_outcome(txid, fetched)) == Ok::<HeightStep, TxResolverError>(
            HeightStep::Done(WitnessOrd::OffChain),
        ),
{
}

/// Where some reported height is positive, there is a least positive one.
proof fn lemma_min_positive_exists(heights: Seq<i64>, j: int)
    requires
        0 <= j < heights.len(),
        heights[j] > 0,
    ensures
        exists|h: i64| is_min_positive(heights, h),
    decreases heights.len(),
{
    let last = heights.last();
    let init = heights.drop_last();
    if exists|k: int| 0 <= k < init.len() && #[trigger] init[k] > 0 {
        let k = choose|k: int| 0 <= k < init.len() && #[trigger] init[k] > 0;
        lemma_min_positive_exists(init, k);
        let h = choose|h: i64| is_min_positive(init, h);
        let ih = choose|x: int| 0 <= x < init.len() && init[x] == h;
        assert(heights[ih] == h);
        if last > 0 && last < h {
            assert(heights[heights.len() - 1] == last);
            assert forall|x: int| 0 <= x < heights.len() && heights[x] > 0 implies last
                <= #[trigger] heights[x] by {
                if x < heights.len() - 1 {
                    assert(init[x] == heights[x]);
                }
            }
            assert(is_min_positive(heights, last));
        } else {
            assert forall|x: int| 0 <= x < heights.len() && heights[x] > 0 implies h
                <= #[trigger] heights[x] by {
                if x < heights.len() - 1 {
                    assert(init[x] == heights[x]);
                }
            }
            assert(is_min_positive(heights, h));
        }
    } else {
        assert(j == heights.len() - 1) by {
            if j < heights.len() - 1 {
                assert(init[j] == heights[j]);
            }
        }
        assert forall|x: int| 0 <= x < heights.len() && heights[x] > 0 implies last
            <= #[trigger] heights[x] by {
            if x < heights.len() - 1 {
                assert(init[x] == heights[x]);
            }
        }
        assert(heights[heights.len() - 1] == last);
        assert(is_min_positive(heights, last));
    }
}

/// How reported heights map to a status: zero or below is unconfirmed, above zero is
/// confirmed at that height; over several reports, any positive one makes the status
/// confirmed at the least positive height, and with none positive it is unconfirmed.
pub proof fn lemma_status_of_heights(heights: Seq<i64>, h: int)
    ensures
        h <= 0 ==> status_of_height(h) == MiningStatus::Mempool,
        h > 0 && h <= u64::MAX ==> status_of_height(h) == MiningStatus::Blockchain(h as u64),
        heights.len() > 0 && (forall|j: int| 0 <= j < heights.len() ==> #[trigger] heights[j] <= 0)
            ==> confirmation_of(heights) == WitnessOrd::OnChain(MiningStatus::Mempool),
        forall|j: int|
            0 <= j < heights.len() && #[trigger] heights[j] > 0 ==> exists|m: i64|
                {
                    &&& is_min_positive(heights, m)
                    &&& confirmation_of(heights) == WitnessOrd::OnChain(
                        MiningStatus::Blockchain(m as u64),
                    )
                },
{
    if heights.len() > 0 && (forall|j: int| 0 <= j < heights.len() ==> #[trigger] heights[j] <= 0) {
        assert(!exists|m: i64| is_min_positive(heights, m)) by {
            if exists|m: i64| is_min_positive(heights, m) {
                let m = choose|m: i64| is_min_positive(heights, m);
                let im = choose|x: int| 0 <= x < heights.len() && heights[x] == m;
                assert(heights[im] <= 0);
            }
        }
    }
    assert forall|j: int| 0 <= j < heights.len() && #[trigger] heights[j] > 0 implies exists|m: i64|
        {
            &&& is_min_positive(heights, m)
            &&& confirmation_of(heights) == WitnessOrd::OnChain(MiningStatus::Blockchain(m as u64))
        } by {
        lemma_min_positive_exists(heights, j);
        let m = choose|m: i64| is_min_positive(heights, m);
        assert(confirmation_of(heights) == WitnessOrd::OnChain(MiningStatus::Blockchain(m as u64)));
    }
}

} // verus!
