use rgb_electrum::chain::{DeriveInfo, MiningStatus, Outpoint, Txid, Utxo, WitnessOrd};
use rgb_electrum::remote::{
    GetHistoryRes, ListUnspentRes, RemoteError, RemoteTx, RemoteTxIn, RemoteTxOut,
};
use rgb_electrum::resolver::{
    classify_error, height_query, resolve_height, resolve_height_query, resolve_tx, HeightQuery,
    TxResolverError,
};
use rgb_electrum::tx::{Tx, TxIn, TxOut};
use rgb_electrum::utxo::resolve_utxo;

fn hash(first: u8, last: u8) -> [u8; 32] {
    let mut h = [0u8; 32];
    h[0] = first;
    h[31] = last;
    h
}

fn key(index: u32) -> DeriveInfo {
    DeriveInfo { keychain: 0, index }
}

fn unspent(tx_hash: [u8; 32], tx_pos: u32, value: u64, height: u64) -> ListUnspentRes {
    ListUnspentRes { tx_hash, tx_pos, value, height }
}

fn sample_tx() -> RemoteTx {
    RemoteTx {
        version: 2,
        input: vec![
            RemoteTxIn {
                prev_txid: hash(7, 9),
                prev_vout: 3,
                script_sig: vec![0x51],
                sequence: 0xFFFF_FFFD,
                witness: vec![vec![1, 2, 3], vec![]],
            },
            RemoteTxIn {
                prev_txid: hash(8, 1),
                prev_vout: 0,
                script_sig: vec![],
                sequence: 0,
                witness: vec![],
            },
        ],
        output: vec![
            RemoteTxOut { value: 5000, script_pubkey: vec![0x00, 0x14, 0xAA] },
            RemoteTxOut { value: 0, script_pubkey: vec![0x6a] },
        ],
        lock_time: 840_000,
    }
}

fn sample_txid() -> Txid {
    Txid { bytes: hash(0xAB, 0xCD) }
}

#[test]
fn remote_hash_is_reversed() {
    let mut h = [0u8; 32];
    for (i, b) in h.iter_mut().enumerate() {
        *b = i as u8;
    }
    let id = Txid::from_remote_hash(&h);
    for i in 0..32 {
        assert_eq!(id.bytes[i], 31 - i as u8);
    }
}

#[test]
fn status_from_heights() {
    assert_eq!(MiningStatus::from_height(0), MiningStatus::Mempool);
    assert_eq!(MiningStatus::from_height(1), MiningStatus::Blockchain(1));
    assert_eq!(MiningStatus::from_height(700_000), MiningStatus::Blockchain(700_000));
    assert_eq!(
        WitnessOrd::with_mempool_or_height(0),
        WitnessOrd::OnChain(MiningStatus::Mempool)
    );
    assert_eq!(
        WitnessOrd::with_mempool_or_height(12),
        WitnessOrd::OnChain(MiningStatus::Blockchain(12))
    );
}

#[test]
fn utxo_scenario_mempool_and_empty() {
    let a = key(0);
    let b = key(1);
    let responses = vec![Ok(vec![unspent(hash(1, 2), 4, 1000, 0)]), Ok(vec![])];
    let set = resolve_utxo(&vec![a, b], &responses).unwrap();
    assert_eq!(
        set,
        vec![Utxo {
            derivation: a,
            outpoint: Outpoint { txid: Txid { bytes: hash(2, 1) }, vout: 4 },
            amount: 1000,
            status: MiningStatus::Mempool,
        }]
    );
}

#[test]
fn utxo_not_found_script_gives_empty_set() {
    let responses = vec![Err(RemoteError::NotFound("unknown script".to_string()))];
    assert_eq!(resolve_utxo(&vec![key(3)], &responses), Ok(vec![]));
}

#[test]
fn utxo_failed_sub_request_fails_batch() {
    let responses = vec![
        Ok(vec![unspent(hash(1, 2), 0, 10, 5)]),
        Err(RemoteError::Failure("connection reset".to_string())),
        Ok(vec![unspent(hash(3, 4), 1, 20, 6)]),
        Err(RemoteError::Failure("timeout".to_string())),
    ];
    let keys = vec![key(0), key(1), key(2), key(3)];
    assert_eq!(resolve_utxo(&keys, &responses), Err("connection reset".to_string()));
}

#[test]
fn utxo_count_mismatch_is_error() {
    let responses = vec![Ok(vec![unspent(hash(1, 2), 0, 10, 5)])];
    assert!(resolve_utxo(&vec![key(0), key(1)], &responses).is_err());
}

#[test]
fn utxo_confirmed_and_duplicates_collapse() {
    let e = unspent(hash(9, 9), 2, 77, 812_345);
    let responses = vec![Ok(vec![e, e, unspent(hash(9, 9), 3, 1, 812_345)])];
    let set = resolve_utxo(&vec![key(5)], &responses).unwrap();
    assert_eq!(set.len(), 2);
    assert_eq!(set[0].status, MiningStatus::Blockchain(812_345));
    assert_eq!(set[0].outpoint.vout, 2);
    assert_eq!(set[1].outpoint.vout, 3);
    assert_eq!(set[0].derivation, key(5));
}

#[test]
fn tx_reencoding_keeps_every_field() {
    let txid = sample_txid();
    let tx = resolve_tx(txid, Ok(sample_tx())).unwrap();
    let expected = Tx {
        version: 2,
        inputs: vec![
            TxIn {
                prev_output: Outpoint { txid: Txid { bytes: hash(7, 9) }, vout: 3 },
                sig_script: vec![0x51],
                sequence: 0xFFFF_FFFD,
                witness: vec![vec![1, 2, 3], vec![]],
            },
            TxIn {
                prev_output: Outpoint { txid: Txid { bytes: hash(8, 1) }, vout: 0 },
                sig_script: vec![],
                sequence: 0,
                witness: vec![],
            },
        ],
        outputs: vec![
            TxOut { value: 5000, script_pubkey: vec![0x00, 0x14, 0xAA] },
            TxOut { value: 0, script_pubkey: vec![0x6a] },
        ],
        lock_time: 840_000,
    };
    assert_eq!(tx, expected);
}

#[test]
fn tx_not_found_is_unknown() {
    let txid = sample_txid();
    let r = resolve_tx(txid, Err(RemoteError::NotFound("no such transaction".to_string())));
    assert_eq!(r, Err(TxResolverError::Unknown(txid)));
}

#[test]
fn tx_transport_failure_is_other() {
    let txid = sample_txid();
    let r = resolve_tx(txid, Err(RemoteError::Failure("broken pipe".to_string())));
    assert_eq!(r, Err(TxResolverError::Other(txid, "broken pipe".to_string())));
    assert_eq!(
        classify_error(txid, RemoteError::NotFound("x".to_string())),
        TxResolverError::Unknown(txid)
    );
}

#[test]
fn unknown_tx_is_off_chain() {
    let txid = sample_txid();
    let r = resolve_height_query(txid, Err(RemoteError::NotFound("missing".to_string())));
    assert_eq!(r, Ok(HeightQuery::Done(WitnessOrd::OffChain)));
    let r = height_query(Err(TxResolverError::Unknown(txid)));
    assert_eq!(r, Ok(HeightQuery::Done(WitnessOrd::OffChain)));
}

#[test]
fn height_query_propagates_operational_error() {
    let txid = sample_txid();
    let r = resolve_height_query(txid, Err(RemoteError::Failure("down".to_string())));
    assert_eq!(r, Err(TxResolverError::Other(txid, "down".to_string())));
}

#[test]
fn height_query_asks_for_output_scripts() {
    let r = resolve_height_query(sample_txid(), Ok(sample_tx()));
    assert_eq!(r, Ok(HeightQuery::History(vec![vec![0x00, 0x14, 0xAA], vec![0x6a]])));
}

#[test]
fn height_scenario_minimum_positive_wins() {
    let x = hash(0xAB, 0xCD);
    let y = hash(0x11, 0x22);
    let histories = vec![Ok(vec![
        GetHistoryRes { tx_hash: x, height: 700_000 },
        GetHistoryRes { tx_hash: y, height: 0 },
    ])];
    assert_eq!(
        resolve_height(sample_txid(), &histories),
        Ok(WitnessOrd::OnChain(MiningStatus::Blockchain(700_000)))
    );
}

#[test]
fn height_least_positive_across_scripts() {
    let histories = vec![
        Ok(vec![GetHistoryRes { tx_hash: hash(1, 1), height: 800_010 }]),
        Err(RemoteError::NotFound("unknown script".to_string())),
        Ok(vec![
            GetHistoryRes { tx_hash: hash(2, 2), height: -1 },
            GetHistoryRes { tx_hash: hash(3, 3), height: 800_003 },
        ]),
    ];
    assert_eq!(
        resolve_height(sample_txid(), &histories),
        Ok(WitnessOrd::OnChain(MiningStatus::Blockchain(800_003)))
    );
}

#[test]
fn height_unconfirmed_only() {
    let histories = vec![Ok(vec![
        GetHistoryRes { tx_hash: hash(1, 1), height: 0 },
        GetHistoryRes { tx_hash: hash(2, 2), height: -1 },
    ])];
    assert_eq!(
        resolve_height(sample_txid(), &histories),
        Ok(WitnessOrd::OnChain(MiningStatus::Mempool))
    );
}

#[test]
fn height_no_history_is_off_chain() {
    let histories: Vec<Result<Vec<GetHistoryRes>, RemoteError>> = vec![Ok(vec![]), Ok(vec![])];
    assert_eq!(resolve_height(sample_txid(), &histories), Ok(WitnessOrd::OffChain));
    assert_eq!(resolve_height(sample_txid(), &vec![]), Ok(WitnessOrd::OffChain));
}

#[test]
fn height_history_failure_is_other() {
    let txid = sample_txid();
    let histories = vec![
        Ok(vec![GetHistoryRes { tx_hash: hash(1, 1), height: 5 }]),
        Err(RemoteError::Failure("lost connection".to_string())),
    ];
    assert_eq!(
        resolve_height(txid, &histories),
        Err(TxResolverError::Other(txid, "lost connection".to_string()))
    );
}
