use ord_wallet::version::{check_version, format_bitcoin_core_version, MIN_VERSION};

#[test]
fn formats_versions_by_two_digit_components() {
    assert_eq!(format_bitcoin_core_version(240000), "24.0.0");
    assert_eq!(format_bitcoin_core_version(230100), "23.1.0");
    assert_eq!(format_bitcoin_core_version(250101), "25.1.1");
    assert_eq!(format_bitcoin_core_version(0), "0.0.0");
    assert_eq!(format_bitcoin_core_version(1234567), "123.45.67");
}

#[test]
fn accepts_version_above_minimum() {
    assert_eq!(check_version(250000), Ok(()));
    assert_eq!(check_version(MIN_VERSION), Ok(()));
}

#[test]
fn rejects_version_below_minimum_naming_both() {
    let err = check_version(230100).unwrap_err();
    assert_eq!(err.required, 240000);
    assert_eq!(err.actual, 230100);
    let message = err.message();
    assert!(message.contains("24.0.0"));
    assert!(message.contains("23.1.0"));
    assert_eq!(
        message,
        "Bitcoin Core 24.0.0 or newer required, current version is 23.1.0"
    );
    assert!(check_version(239999).is_err());
}
