use godcoin::asset::{Asset, AssetError, AssetErrorKind};

fn get_asset(s: &str) -> Asset {
    s.parse().unwrap()
}

#[test]
fn asset_checked_arithmetic() {
    let a = get_asset("2.00000 GRAEL");
    let b = get_asset("3.00000 GRAEL");
    assert_eq!(a.checked_add(b), Some(get_asset("5.00000 GRAEL")));
    assert_eq!(b.checked_sub(a), Some(get_asset("1.00000 GRAEL")));
    assert_eq!(a.checked_mul(b), Some(get_asset("6.00000 GRAEL")));

    let max = Asset::new(i64::MAX);
    assert_eq!(max.checked_add(Asset::new(1)), None);
    assert_eq!(Asset::new(i64::MIN).checked_sub(Asset::new(1)), None);
    assert_eq!(max.checked_mul(max), None);
}

#[test]
fn asset_pow() {
    let two = get_asset("2.00000 GRAEL");
    assert_eq!(two.pow(0), Some(get_asset("1.00000 GRAEL")));
    assert_eq!(two.pow(1), Some(two));
    assert_eq!(two.pow(10), Some(get_asset("1024.00000 GRAEL")));
    assert_eq!(two.pow(1000), None);
}

#[test]
fn asset_string_round_trip() {
    for s in [
        "0.00000 GRAEL",
        "1.00000 GRAEL",
        "1.23000 GRAEL",
        "123.00000 GRAEL",
        "-4.20000 GRAEL",
        "92233720368547.75807 GRAEL",
    ] {
        let a = get_asset(s);
        assert_eq!(a.to_string(), s);
    }
    assert_eq!(Asset::new(25).to_string(), "0.00025 GRAEL");
    assert_eq!(Asset::new(-1).to_string(), "-0.00001 GRAEL");
}

#[test]
fn asset_parse_errors() {
    fn kind(s: &str) -> AssetErrorKind {
        s.parse::<Asset>().unwrap_err().kind
    }
    assert_eq!(kind(".00000 GRAEL"), AssetErrorKind::InvalidFormat);
    assert_eq!(kind("1 GRAEL"), AssetErrorKind::InvalidFormat);
    assert_eq!(kind("1.000 GRAEL"), AssetErrorKind::InvalidAmount);
    assert_eq!(kind("1.00000 TEST"), AssetErrorKind::InvalidAssetType);
    assert_eq!(kind("1.00000"), AssetErrorKind::InvalidAssetType);
    assert_eq!(
        kind("99999999999999.00000 GRAEL"),
        AssetErrorKind::InvalidAmount
    );
    assert_eq!(
        kind("0.00000 GRAEL 0.00000 GRAEL 0.00000 GRAEL"),
        AssetErrorKind::StrTooLarge
    );
    let err: AssetError = "x".parse::<Asset>().unwrap_err();
    assert_eq!(err.kind, AssetErrorKind::InvalidFormat);
}
