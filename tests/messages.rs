use ord_wallet::error::WalletError;
use ord_wallet::outpoint::OutPoint;
use ord_wallet::version::check_version;


fn sample() -> OutPoint {
    let mut txid = [0u8; 32];
    txid[0] = 0x01;
    txid[31] = 0xab;
    OutPoint { txid, vout: 7 }
}

#[test]
fn outpoint_text_shows_txid_in_display_order() {
    let o = sample();
    let expected = format!("ab{}01:7", "00".repeat(30));
    assert_eq!(o.to_text(), expected);
    let theirs = bitcoin::OutPoint::new(<bitcoin::Txid as bitcoin::hashes::Hash>::from_byte_array(o.txid), o.vout);
    assert_eq!(o.to_text(), theirs.to_string());
}

#[test]
fn error_messages_name_their_subject() {
    let o = sample();
    assert_eq!(
        WalletError::NotIndexed(o).message(),
        format!("output in Bitcoin Core wallet but not in ord index: {}", o.to_text())
    );
    assert_eq!(
        WalletError::SpentInIndex(o).message(),
        format!("output {} in wallet but is spent according to index", o.to_text())
    );
    assert_eq!(
        WalletError::SatNotFound(5000000000).message(),
        "could not find sat `5000000000` in wallet outputs"
    );
    assert_eq!(
        WalletError::SatIndexRequired.message(),
        "index must be built with `--index-sats` to use `--sat`"
    );
    assert!(WalletError::WalletShape { wallet: "foo".to_string() }
        .message()
        .starts_with("wallet \"foo\" contains unexpected output descriptors"));
    assert_eq!(
        WalletError::SyncTimeout { target: 3 }.message(),
        "wallet failed to synchronize to index"
    );
    assert_eq!(WalletError::InvalidMnemonic.message(), "invalid mnemonic phrase");
    assert_eq!(
        WalletError::InscriptionNotFound { id: "abci0".to_string() }.message(),
        "inscription abci0 not found"
    );
    let version = check_version(230100).unwrap_err();
    assert_eq!(WalletError::Version(version).message(), version.message());
    assert!(WalletError::MissingOutput(o).message().contains(&o.to_text()));
}
