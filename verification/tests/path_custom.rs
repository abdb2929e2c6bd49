use hdpath::{CustomHDPath, Error, HDPath, PathValue, StandardHDPath};
use std::convert::TryFrom;
use std::str::FromStr;

#[test]
fn path_custom_to_string() {
    assert_eq!(
        CustomHDPath::try_from("m/44'/0'/0'/0/0").unwrap().to_string(),
        "m/44'/0'/0'/0/0".to_string()
    );

    assert_eq!(
        CustomHDPath::try_from("m/84'/1'/2'/3/4").unwrap().to_string(),
        "m/84'/1'/2'/3/4".to_string()
    );

    assert_eq!(
        CustomHDPath::try_from("m/1'").unwrap().to_string(),
        "m/1'".to_string()
    );

    assert_eq!(
        CustomHDPath::try_from("m/44'/0'/1'/2/3/4'/5/67'/8'/910").unwrap().to_string(),
        "m/44'/0'/1'/2/3/4'/5/67'/8'/910".to_string()
    );
}

#[test]
fn try_from_common() {
    let act = CustomHDPath::try_from("m/44'/0'/0'/0/0").unwrap();
    act.0[0].as_number();
    assert_eq!(5, act.0.len());
    assert_eq!(&PathValue::Hardened(44), act.0.get(0).unwrap());
    assert_eq!(&PathValue::Hardened(0), act.0.get(1).unwrap());
    assert_eq!(&PathValue::Hardened(0), act.0.get(2).unwrap());
    assert_eq!(&PathValue::Normal(0), act.0.get(3).unwrap());
    assert_eq!(&PathValue::Normal(0), act.0.get(4).unwrap());
}

#[test]
fn try_from_common_trait() {
    let source = StandardHDPath::from_str("m/84'/0'/1'/2/3").unwrap();
    let as_trait: &dyn HDPath = &source;
    let act = CustomHDPath::from_path(as_trait);
    assert_eq!(
        CustomHDPath::try_from("m/84'/0'/1'/2/3").unwrap(), act
    );
}

#[test]
fn try_from_bignum() {
    let act = CustomHDPath::try_from("m/44'/12'/345'/6789/101112").unwrap();
    assert_eq!(5, act.0.len());
    assert_eq!(&PathValue::Hardened(44), act.0.get(0).unwrap());
    assert_eq!(&PathValue::Hardened(12), act.0.get(1).unwrap());
    assert_eq!(&PathValue::Hardened(345), act.0.get(2).unwrap());
    assert_eq!(&PathValue::Normal(6789), act.0.get(3).unwrap());
    assert_eq!(&PathValue::Normal(101112), act.0.get(4).unwrap());
}

#[test]
fn try_from_long() {
    let act = CustomHDPath::try_from("m/44'/0'/1'/2/3/4'/5/67'/8'/910").unwrap();
    assert_eq!(10, act.0.len());
    assert_eq!(&PathValue::Hardened(44), act.0.get(0).unwrap());
    assert_eq!(&PathValue::Hardened(0), act.0.get(1).unwrap());
    assert_eq!(&PathValue::Hardened(1), act.0.get(2).unwrap());
    assert_eq!(&PathValue::Normal(2), act.0.get(3).unwrap());
    assert_eq!(&PathValue::Normal(3), act.0.get(4).unwrap());
    assert_eq!(&PathValue::Hardened(4), act.0.get(5).unwrap());
    assert_eq!(&PathValue::Normal(5), act.0.get(6).unwrap());
    assert_eq!(&PathValue::Hardened(67), act.0.get(7).unwrap());
    assert_eq!(&PathValue::Hardened(8), act.0.get(8).unwrap());
    assert_eq!(&PathValue::Normal(910), act.0.get(9).unwrap());
}

#[test]
fn try_from_all_hardened() {
    let act = CustomHDPath::try_from("m/44'/0'/0'/0'/1'").unwrap();
    assert_eq!(5, act.0.len());
    assert_eq!(&PathValue::Hardened(44), act.0.get(0).unwrap());
    assert_eq!(&PathValue::Hardened(0), act.0.get(1).unwrap());
    assert_eq!(&PathValue::Hardened(0), act.0.get(2).unwrap());
    assert_eq!(&PathValue::Hardened(0), act.0.get(3).unwrap());
    assert_eq!(&PathValue::Hardened(1), act.0.get(4).unwrap());
}

#[test]
fn try_from_all_normal() {
    let act = CustomHDPath::try_from("m/44/0/0/0/1").unwrap();
    assert_eq!(5, act.0.len());
    assert_eq!(&PathValue::Normal(44), act.0.get(0).unwrap());
    assert_eq!(&PathValue::Normal(0), act.0.get(1).unwrap());
    assert_eq!(&PathValue::Normal(0), act.0.get(2).unwrap());
    assert_eq!(&PathValue::Normal(0), act.0.get(3).unwrap());
    assert_eq!(&PathValue::Normal(1), act.0.get(4).unwrap());
}

#[test]
fn try_from_other_format() {
    let act = CustomHDPath::try_from("M/44H/0H/0H/1/5").unwrap();
    assert_eq!(5, act.0.len());
    assert_eq!(&PathValue::Hardened(44), act.0.get(0).unwrap());
    assert_eq!(&PathValue::Hardened(0), act.0.get(1).unwrap());
    assert_eq!(&PathValue::Hardened(0), act.0.get(2).unwrap());
    assert_eq!(&PathValue::Normal(1), act.0.get(3).unwrap());
    assert_eq!(&PathValue::Normal(5), act.0.get(4).unwrap());
}

#[test]
fn error_on_invalid_path() {
    let paths = vec![
        "", "1", "m44",
        "m/", "m/44/", "m/44/0/", "m/44''/0/0/0/1", "m/44/H0/0/0/1",
    ];
    for p in paths {
        assert!(CustomHDPath::try_from(p).is_err(), "test: {}", p);
    }
}

#[test]
fn fail_incorrect_hardened() {
    let custom = CustomHDPath::try_from("m/2147483692'/0'/0'/0/0");
    assert!(custom.is_err());
}

#[test]
fn cannot_create_too_long() {
    let mut path = Vec::with_capacity(0xff + 1);
    for _i in 0..path.capacity() {
        path.push(PathValue::Normal(1));
    }
    let custom = CustomHDPath::try_new(path);
    assert!(custom.is_err());
    assert_eq!(Error::InvalidLength(256), custom.expect_err("not error"));
}
