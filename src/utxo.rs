use vstd::prelude::*;

use crate::chain::{status_of_height, DeriveInfo, MiningStatus, Outpoint, Txid, Utxo};
use crate::remote::{entries_of, first_failure, is_failed, ListUnspentRes, RemoteError};

verus! {

/// `u` is the record that entry `e`, listed among the unspent outputs of the script
/// derived by `key`, gives.
pub open spec fn is_record_of(u: Utxo, key: DeriveInfo, e: ListUnspentRes) -> bool {
    &&& u.derivation == key
    &&& u.outpoint.txid.bytes@ == e.tx_hash@.reverse()
    &&& u.outpoint.vout == e.tx_pos
    &&& u.amount == e.value
    &&& u.status == status_of_height(e.height as int)
}

/// `u` is given by an entry of the first `i` sub-requests, or by one of the first `k`
/// entries of sub-request `i`.
pub open spec fn is_listed_before(
    keys: Seq<DeriveInfo>,
    rs: Seq<Result<Vec<ListUnspentRes>, RemoteError>>,
    i: int,
    k: int,
    u: Utxo,
) -> bool {
    exists|j: int, m: int|
        #![trigger is_record_of(u, keys[j], entries_of(rs[j])[m])]
        0 <= j <= i && j < rs.len() && 0 <= m < entries_of(rs[j]).len() && (j < i || m < k)
            && is_record_of(u, keys[j], entries_of(rs[j])[m])
}

/// `u` is one of the unspent outputs that the batch `rs` lists, sub-request `i` being
/// about the script derived by `keys[i]`.
pub open spec fn is_unspent_of(
    keys: Seq<DeriveInfo>,
    rs: Seq<Result<Vec<ListUnspentRes>, RemoteError>>,
    u: Utxo,
) -> bool {
    is_listed_before(keys, rs, rs.len() as int, 0, u)
}

fn same_txid(a: &Txid, b: &Txid) -> (r: bool)
    ensures
        r == (*a == *b),
{
    let mut i: usize = 0;
    while i < 32
        invariant
            0 <= i <= 32,
            forall|j: int| 0 <= j < i ==> a.bytes@[j] == b.bytes@[j],
        decreases 32 - i,
    {
        if a.bytes[i] != b.bytes[i] {
            return false;
        }
        i = i + 1;
    }
    assert(a.bytes =~= b.bytes);
    true
}

fn same_status(a: MiningStatus, b: MiningStatus) -> (r: bool)
    ensures
        r == (a == b),
{
    match (a, b) {
        (MiningStatus::Mempool, MiningStatus::Mempool) => true,
        (MiningStatus::Blockchain(x), MiningStatus::Blockchain(y)) => x == y,
        _ => false,
    }
}

fn same_utxo(a: &Utxo, b: &Utxo) -> (r: bool)
    ensures
        r == (*a == *b),
{
    a.derivation.keychain == b.derivation.keychain && a.derivation.index == b.derivation.index
        && a.outpoint.vout == b.outpoint.vout && a.amount == b.amount && same_status(
        a.status,
        b.status,
    ) && same_txid(&a.outpoint.txid, &b.outpoint.txid)
}

fn contains_utxo(v: &Vec<Utxo>, u: &Utxo) -> (r: bool)
    ensures
        r == v@.contains(*u),
{
    let mut i: usize = 0;
    while i < v.len()
        invariant
            0 <= i <= v.len(),
            forall|j: int| 0 <= j < i ==> v@[j] != *u,
        decreases v.len() - i,
    {
        if same_utxo(&v[i], u) {
            return true;
        }
        i = i + 1;
    }
    false
}

impl Utxo {
    /// The record of an unspent output listed for the script derived by `derivation`.
    pub fn with(derivation: DeriveInfo, res: &ListUnspentRes) -> (r: Utxo)
        ensures
            is_record_of(r, derivation, *res),
    {
        Utxo {
            derivation,
            outpoint: Outpoint { txid: Txid::from_remote_hash(&res.tx_hash), vout: res.tx_pos },
            amount: res.value,
            status: MiningStatus::from_height(res.height),
        }
    }
}

/// Collects the unspent outputs of watched scripts from one batched answer of the
/// service, sub-request `i` being about the script derived by `keys[i]`. An answer with
/// another number of sub-requests, or with a failed one, fails the whole (with the
/// message of the first failure); a script the service does not know has none.
pub fn resolve_utxo(
    keys: &Vec<DeriveInfo>,
    responses: &Vec<Result<Vec<ListUnspentRes>, RemoteError>>,
) -> (r: Result<Vec<Utxo>, String>)
    ensures
        keys@.len() != responses@.len() ==> r is Err,
        keys@.len() == responses@.len() ==> (r is Err <==> exists|i: int|
            first_failure(responses@, i)),
        keys@.len() == responses@.len() ==> forall|i: int|
            first_failure(responses@, i) ==> r == Err::<Vec<Utxo>, String>(
                responses@[i]->Err_0.spec_message(),
            ),
        r is Ok ==> r->Ok_0@.no_duplicates(),
        r is Ok ==> forall|u: Utxo| r->Ok_0@.contains(u) <==> is_unspent_of(keys@, responses@, u),
{
    if keys.len() != responses.len() {
        return Err("the service answered another number of requests than was sent".to_owned());
    }
    let ghost ks = keys@;
    let ghost rs = responses@;
    let mut out: Vec<Utxo> = Vec::new();
    let mut i: usize = 0;
    while i < responses.len()
        invariant
            0 <= i <= rs.len(),
            rs == responses@,
            ks == keys@,
            ks.len() == rs.len(),
            forall|j: int| 0 <= j < i ==> !is_failed(#[trigger] rs[j]),
            out@.no_duplicates(),
            forall|u: Utxo| out@.contains(u) <==> is_listed_before(ks, rs, i as int, 0, u),
        decreases rs.len() - i,
    {
        match &responses[i] {
            Err(RemoteError::Failure(m)) => {
                assert(first_failure(rs, i as int));
                return Err(m.clone());
            },
            Err(RemoteError::NotFound(_)) => {
                assert forall|u: Utxo|
                    is_listed_before(ks, rs, i + 1, 0, u) == is_listed_before(
                        ks,
                        rs,
                        i as int,
                        0,
                        u,
                    ) by {
                    if is_listed_before(ks, rs, i + 1, 0, u) {
                        let (j, m) = choose|j: int, m: int|
                            0 <= j <= i + 1 && j < rs.len() && 0 <= m < entries_of(rs[j]).len()
                                && (j < i + 1 || m < 0) && is_record_of(
                                u,
                                ks[j],
                                entries_of(rs[j])[m],
                            );
                        assert(is_record_of(u, ks[j], entries_of(rs[j])[m]));
                    }
                    if is_listed_before(ks, rs, i as int, 0, u) {
                        let (j, m) = choose|j: int, m: int|
                            0 <= j <= i && j < rs.len() && 0 <= m < entries_of(rs[j]).len() && (j
                                < i || m < 0) && is_record_of(u, ks[j], entries_of(rs[j])[m]);
                        assert(is_record_of(u, ks[j], entries_of(rs[j])[m]));
                    }
                }
            },
            Ok(entries) => {
                let key = keys[i];
                let mut k: usize = 0;
                assert forall|u: Utxo|
                    is_listed_before(ks, rs, i as int, 0, u) == is_listed_before(
                        ks,
                        rs,
                        i as int,
                        k as int,
                        u,
                    ) by {
                    if is_listed_before(ks, rs, i as int, 0, u) {
                        let (j, m) = choose|j: int, m: int|
                            0 <= j <= i && j < rs.len() && 0 <= m < entries_of(rs[j]).len() && (j
                                < i || m < 0) && is_record_of(u, ks[j], entries_of(rs[j])[m]);
                        assert(is_record_of(u, ks[j], entries_of(rs[j])[m]));
                    }
                    if is_listed_before(ks, rs, i as int, k as int, u) {
                        let (j, m) = choose|j: int, m: int|
                            0 <= j <= i && j < rs.len() && 0 <= m < entries_of(rs[j]).len() && (j
                                < i || m < k) && is_record_of(u, ks[j], entries_of(rs[j])[m]);
                        assert(is_record_of(u, ks[j], entries_of(rs[j])[m]));
                    }
                }
                while k < entries.len()
                    invariant
                        0 <= i < rs.len(),
                        rs == responses@,
                        ks == keys@,
                        ks.len() == rs.len(),
                        key == ks[i as int],
                        rs[i as int] == Ok::<Vec<ListUnspentRes>, RemoteError>(*entries),
                        0 <= k <= entries.len(),
                        out@.no_duplicates(),
                        forall|u: Utxo|
                            out@.contains(u) <==> is_listed_before(ks, rs, i as int, k as int, u),
                    decreases entries.len() - k,
                {
                    let u = Utxo::with(key, &entries[k]);
                    assert(entries_of(rs[i as int])[k as int] == entries@[k as int]);
                    let ghost old_out = out@;
                    if !contains_utxo(&out, &u) {
                        out.push(u);
                        assert(out@[old_out.len() as int] == u);
                    }
                    assert(out@.contains(u));
                    assert(is_record_of(u, ks[i as int], entries_of(rs[i as int])[k as int]));
                    assert forall|v: Utxo|
                        out@.contains(v) <==> is_listed_before(ks, rs, i as int, k + 1, v) by {
                        if is_listed_before(ks, rs, i as int, k + 1, v) {
                            let (j, m) = choose|j: int, m: int|
                                0 <= j <= i && j < rs.len() && 0 <= m < entries_of(rs[j]).len()
                                    && (j < i || m < k + 1) && is_record_of(
                                    v,
                                    ks[j],
                                    entries_of(rs[j])[m],
                                );
                            if j == i && m == k {
                                assert(v.outpoint.txid.bytes =~= u.outpoint.txid.bytes);
                                assert(v == u);
                            } else {
                                assert(is_listed_before(ks, rs, i as int, k as int, v));
                                assert(old_out.contains(v));
                                let idx = choose|idx: int| 0 <= idx < old_out.len() && old_out[idx] == v;
                                assert(out@[idx] == v);
                            }
                        }
                        if out@.contains(v) {
                            if v != u {
                                let idx = choose|idx: int| 0 <= idx < out@.len() && out@[idx] == v;
                                assert(old_out[idx] == v);
                                assert(old_out.contains(v));
                                let (j, m) = choose|j: int, m: int|
                                    0 <= j <= i && j < rs.len() && 0 <= m < entries_of(rs[j]).len()
                                        && (j < i || m < k) && is_record_of(
                                        v,
                                        ks[j],
                                        entries_of(rs[j])[m],
                                    );
                                assert(is_record_of(v, ks[j], entries_of(rs[j])[m]));
                            }
                        }
                    }
                    k = k + 1;
                }
                assert forall|u: Utxo|
                    is_listed_before(ks, rs, i + 1, 0, u) == is_listed_before(
                        ks,
                        rs,
                        i as int,
                        entries.len() as int,
                        u,
                    ) by {
                    if is_listed_before(ks, rs, i + 1, 0, u) {
                        let (j, m) = choose|j: int, m: int|
                            0 <= j <= i + 1 && j < rs.len() && 0 <= m < entries_of(rs[j]).len()
                                && (j < i + 1 || m < 0) && is_record_of(
                                u,
                                ks[j],
                                entries_of(rs[j])[m],
                            );
                        assert(is_record_of(u, ks[j], entries_of(rs[j])[m]));
                    }
                    if is_listed_before(ks, rs, i as int, entries.len() as int, u) {
                        let (j, m) = choose|j: int, m: int|
                            0 <= j <= i && j < rs.len() && 0 <= m < entries_of(rs[j]).len() && (j
                                < i || m < entries.len()) && is_record_of(
                                u,
                                ks[j],
                                entries_of(rs[j])[m],
                            );
                        assert(is_record_of(u, ks[j], entries_of(rs[j])[m]));
                    }
                }
            },
        }
        i = i + 1;
    }
    Ok(out)
}

/// Where one sub-request of a batch failed, there is a first failed one: the batch then
/// fails as a whole, with no partial result.
pub proof fn lemma_failed_sub_request_fails_batch<T>(rs: Seq<Result<T, RemoteError>>, i: int)
    requires
        0 <= i < rs.len(),
        is_failed(rs[i]),
    ensures
        exists|j: int| first_failure(rs, j),
    decreases i,
{
    if exists|j: int| 0 <= j < i && is_failed(#[trigger] rs[j]) {
        let j = choose|j: int| 0 <= j < i && is_failed(#[trigger] rs[j]);
        lemma_failed_sub_request_fails_batch(rs, j);
    } else {
        assert(first_failure(rs, i));
    }
}

/// Scripts that the service does not know contribute no unspent output, and are no
/// failure: a batch made of them alone resolves to the empty set.
pub proof fn lemma_unknown_scripts_have_no_utxo(
    keys: Seq<DeriveInfo>,
    rs: Seq<Result<Vec<ListUnspentRes>, RemoteError>>,
)
    requires
        keys.len() == rs.len(),
        forall|i: int| 0 <= i < rs.len() ==> #[trigger] rs[i] is Err && rs[i]->Err_0 is NotFound,
    ensures
        !exists|i: int| first_failure(rs, i),
        forall|u: Utxo| !is_unspent_of(keys, rs, u),
{
    assert forall|u: Utxo| !is_unspent_of(keys, rs, u) by {
        if is_unspent_of(keys, rs, u) {
            let (j, m) = choose|j: int, m: int|
                0 <= j <= rs.len() && j < rs.len() && 0 <= m < entries_of(rs[j]).len() && (j
                    < rs.len() || m < 0) && is_record_of(u, keys[j], entries_of(rs[j])[m]);
            assert(rs[j] is Err);
        }
    }
}

} // verus!
