use ord_wallet::error::WalletError;
use ord_wallet::index::{check_inscription_response, is_client_error, rune_known};
use ord_wallet::sync::IndexSyncGate;

#[test]
fn client_error_class_is_four_hundreds() {
    assert!(is_client_error(404));
    assert!(is_client_error(400));
    assert!(!is_client_error(200));
    assert!(!is_client_error(500));
}

#[test]
fn unknown_inscription_is_not_found() {
    assert_eq!(check_inscription_response(200, "abci0"), Ok(()));
    assert_eq!(
        check_inscription_response(404, "abci0"),
        Err(WalletError::InscriptionNotFound { id: "abci0".to_string() })
    );
}

#[test]
fn unknown_rune_is_absent() {
    assert!(rune_known(200));
    assert!(!rune_known(404));
}

#[test]
fn skipped_gate_does_not_poll() {
    assert!(IndexSyncGate::new(5, false).must_poll());
    assert!(!IndexSyncGate::new(5, true).must_poll());
}
