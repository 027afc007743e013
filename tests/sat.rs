use ord_wallet::error::WalletError;
use ord_wallet::outpoint::OutPoint;
use ord_wallet::reconcile::reconcile_outputs;
use ord_wallet::sat::{find_sat_in_outputs, sat_ranges_valid, SatPoint};

fn op(first: u8, vout: u32) -> OutPoint {
    let mut txid = [0u8; 32];
    txid[0] = first;
    OutPoint { txid, vout }
}

#[test]
fn resolves_sat_to_offset_within_output() {
    let set = reconcile_outputs(&vec![(op(1, 0), 100)], &Vec::new());
    let ranges = vec![Some(vec![(100, 150), (150, 200)])];
    assert_eq!(
        find_sat_in_outputs(175, &set, &ranges, true),
        Ok(SatPoint { outpoint: op(1, 0), offset: 75 })
    );
    assert_eq!(
        find_sat_in_outputs(100, &set, &ranges, true),
        Ok(SatPoint { outpoint: op(1, 0), offset: 0 })
    );
}

#[test]
fn resolves_in_later_output_and_skips_spent_ones() {
    let set = reconcile_outputs(&vec![(op(1, 0), 10), (op(2, 0), 10), (op(3, 0), 20)], &Vec::new());
    let ranges = vec![Some(vec![(0, 10)]), None, Some(vec![(500, 505), (900, 915)])];
    assert_eq!(
        find_sat_in_outputs(910, &set, &ranges, true),
        Ok(SatPoint { outpoint: op(3, 0), offset: 15 })
    );
}

#[test]
fn uncovered_sat_is_not_found() {
    let set = reconcile_outputs(&vec![(op(1, 0), 100)], &Vec::new());
    let ranges = vec![Some(vec![(100, 150), (150, 200)])];
    assert_eq!(find_sat_in_outputs(200, &set, &ranges, true), Err(WalletError::SatNotFound(200)));
    assert_eq!(find_sat_in_outputs(99, &set, &ranges, true), Err(WalletError::SatNotFound(99)));
    let empty = reconcile_outputs(&Vec::new(), &Vec::new());
    assert_eq!(find_sat_in_outputs(0, &empty, &Vec::new(), true), Err(WalletError::SatNotFound(0)));
}

#[test]
fn requires_sat_index() {
    let set = reconcile_outputs(&vec![(op(1, 0), 100)], &Vec::new());
    let ranges = vec![Some(vec![(100, 200)])];
    assert_eq!(find_sat_in_outputs(150, &set, &ranges, false), Err(WalletError::SatIndexRequired));
}

#[test]
fn checks_range_lists() {
    assert!(sat_ranges_valid(&vec![(100, 150), (150, 200)]));
    assert!(sat_ranges_valid(&Vec::new()));
    assert!(!sat_ranges_valid(&vec![(100, 150), (140, 200)]));
    assert!(!sat_ranges_valid(&vec![(150, 100)]));
}
