use ord_wallet::error::WalletError;
use ord_wallet::outpoint::{compare_outpoints, OutPoint};
use ord_wallet::reconcile::{
    check_indexed, collect_sat_ranges, locked_output_amount, reconcile_outputs, rune_balance,
    runic_outputs, IndexedOutput, RuneBalance,
};
use ord_wallet::utxo::UtxoSet;

fn op(first: u8, vout: u32) -> OutPoint {
    let mut txid = [0u8; 32];
    txid[0] = first;
    OutPoint { txid, vout }
}

fn indexed(ranges: Option<Vec<(u64, u64)>>) -> IndexedOutput {
    IndexedOutput { indexed: true, sat_ranges: ranges, inscriptions: Vec::new(), runes: Vec::new() }
}

fn unindexed() -> IndexedOutput {
    IndexedOutput { indexed: false, sat_ranges: None, inscriptions: Vec::new(), runes: Vec::new() }
}

fn entries(set: &UtxoSet) -> Vec<(OutPoint, u64)> {
    (0..set.len()).map(|i| set.entry(i)).collect()
}

#[test]
fn outpoints_order_by_txid_then_vout() {
    assert!(compare_outpoints(&op(1, 5), &op(2, 0)) < 0);
    assert!(compare_outpoints(&op(2, 0), &op(1, 5)) > 0);
    assert!(compare_outpoints(&op(1, 0), &op(1, 1)) < 0);
    assert_eq!(compare_outpoints(&op(3, 3), &op(3, 3)), 0);
    let mut late = [0u8; 32];
    late[31] = 1;
    assert!(compare_outpoints(&op(0, 9), &OutPoint { txid: late, vout: 0 }) < 0);
}

#[test]
fn set_keeps_outpoint_order_and_replaces_amounts() {
    let mut set = UtxoSet::new();
    set.insert(op(3, 0), 30);
    set.insert(op(1, 0), 10);
    set.insert(op(2, 1), 21);
    set.insert(op(2, 0), 20);
    set.insert(op(1, 0), 11);
    assert_eq!(
        entries(&set),
        vec![(op(1, 0), 11), (op(2, 0), 20), (op(2, 1), 21), (op(3, 0), 30)]
    );
    assert_eq!(set.get(&op(2, 1)), Some(21));
    assert_eq!(set.get(&op(9, 9)), None);
    assert_eq!(set.keys(), vec![op(1, 0), op(2, 0), op(2, 1), op(3, 0)]);
}

#[test]
fn reconciles_spendable_and_locked_outputs() {
    let unspent = vec![(op(5, 0), 500), (op(1, 1), 100)];
    let locked = vec![(op(3, 2), 300)];
    let set = reconcile_outputs(&unspent, &locked);
    assert_eq!(entries(&set), vec![(op(1, 1), 100), (op(3, 2), 300), (op(5, 0), 500)]);
}

#[test]
fn locked_amount_comes_from_transaction_output() {
    let values = vec![1000, 2000, 3000];
    assert_eq!(locked_output_amount(&values, 1), Some(2000));
    assert_eq!(locked_output_amount(&values, 3), None);
    assert_eq!(locked_output_amount(&Vec::new(), 0), None);
}

#[test]
fn every_reconciled_output_must_be_indexed() {
    let set = reconcile_outputs(&vec![(op(1, 0), 10), (op(2, 0), 20), (op(3, 0), 30)], &Vec::new());
    let all = vec![indexed(None), indexed(None), indexed(None)];
    assert_eq!(check_indexed(&set, &all), Ok(()));
    let some_missing = vec![indexed(None), unindexed(), unindexed()];
    assert_eq!(check_indexed(&set, &some_missing), Err(WalletError::NotIndexed(op(2, 0))));
}

#[test]
fn collects_sat_ranges_per_output() {
    let set = reconcile_outputs(&vec![(op(1, 0), 10), (op(2, 0), 20)], &Vec::new());
    let outputs = vec![indexed(Some(vec![(0, 10)])), indexed(Some(vec![(50, 60), (70, 80)]))];
    assert_eq!(
        collect_sat_ranges(&set, &outputs, true),
        Ok(vec![(op(1, 0), vec![(0, 10)]), (op(2, 0), vec![(50, 60), (70, 80)])])
    );
    assert_eq!(collect_sat_ranges(&set, &outputs, false), Err(WalletError::SatIndexRequired));
    let spent = vec![indexed(Some(vec![(0, 10)])), indexed(None)];
    assert_eq!(collect_sat_ranges(&set, &spent, true), Err(WalletError::SpentInIndex(op(2, 0))));
    let missing = vec![unindexed(), indexed(None)];
    assert_eq!(collect_sat_ranges(&set, &missing, true), Err(WalletError::NotIndexed(op(1, 0))));
}

#[test]
fn finds_runic_outputs() {
    let set = reconcile_outputs(&vec![(op(1, 0), 10), (op(2, 0), 20)], &Vec::new());
    let mut runic = indexed(None);
    runic.runes.push(RuneBalance { rune: 7, spacers: 0, amount: 5 });
    let outputs = vec![indexed(None), runic];
    assert_eq!(runic_outputs(&set, &outputs), Ok(vec![op(2, 0)]));
    assert_eq!(
        runic_outputs(&set, &vec![unindexed(), indexed(None)]),
        Err(WalletError::NotIndexed(op(1, 0)))
    );
}

#[test]
fn sums_balance_of_one_rune() {
    let balances = vec![
        RuneBalance { rune: 7, spacers: 0, amount: 5 },
        RuneBalance { rune: 8, spacers: 1, amount: 100 },
        RuneBalance { rune: 7, spacers: 2, amount: 6 },
    ];
    assert_eq!(rune_balance(&balances, 7), Some(11));
    assert_eq!(rune_balance(&balances, 9), Some(0));
    let huge = vec![
        RuneBalance { rune: 1, spacers: 0, amount: u128::MAX },
        RuneBalance { rune: 1, spacers: 0, amount: 1 },
    ];
    assert_eq!(rune_balance(&huge, 1), None);
}
