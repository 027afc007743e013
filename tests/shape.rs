use ord_wallet::error::WalletError;
use ord_wallet::shape::{check_wallet_shape, classify_descriptor, DescriptorKind};

fn strings(ds: &[&str]) -> Vec<String> {
    ds.iter().map(|d| d.to_string()).collect()
}

#[test]
fn classifies_by_leading_tag() {
    assert_eq!(classify_descriptor("tr([abcd]xpub/0/*)#x"), DescriptorKind::Taproot);
    assert_eq!(classify_descriptor("rawtr(xpub)#x"), DescriptorKind::RawTaproot);
    assert_eq!(classify_descriptor("wpkh(xpub)"), DescriptorKind::Other);
    assert_eq!(classify_descriptor("tr"), DescriptorKind::Other);
    assert_eq!(classify_descriptor(""), DescriptorKind::Other);
}

#[test]
fn accepts_two_taproot_descriptors() {
    assert!(check_wallet_shape("ord", &strings(&["tr(a)", "tr(b)"])).is_ok());
}

#[test]
fn accepts_raw_taproot_shadows() {
    assert!(check_wallet_shape("ord", &strings(&["tr(a)", "rawtr(x)", "tr(b)", "rawtr(y)"])).is_ok());
}

#[test]
fn rejects_foreign_descriptor() {
    let r = check_wallet_shape("foo", &strings(&["tr(a)", "wpkh(b)"]));
    assert_eq!(r, Err(WalletError::WalletShape { wallet: "foo".to_string() }));
}

#[test]
fn rejects_three_taproot_descriptors() {
    assert!(check_wallet_shape("ord", &strings(&["tr(a)", "tr(b)", "tr(c)"])).is_err());
}

#[test]
fn rejects_empty_wallet() {
    assert!(check_wallet_shape("ord", &Vec::new()).is_err());
}
