use hdpath::{CustomHDPath, HDPath, PathValue, Purpose, StandardHDPath};
use rand::{thread_rng, Rng};
use std::convert::TryFrom;
use std::str::FromStr;

#[test]
fn from_custom() {
    let act = StandardHDPath::try_from(
        CustomHDPath::try_new(vec![
            PathValue::Hardened(49), PathValue::Hardened(0), PathValue::Hardened(1),
            PathValue::Normal(0), PathValue::Normal(5)
        ]).unwrap()
    ).unwrap();
    assert_eq!(
        StandardHDPath::new(Purpose::ScriptHash, 0, 1, 0, 5),
        act
    );

    let act = StandardHDPath::try_from(
        CustomHDPath::try_new(vec![
            PathValue::Hardened(44), PathValue::Hardened(60), PathValue::Hardened(1),
            PathValue::Normal(0), PathValue::Normal(0)
        ]).unwrap()
    ).unwrap();
    assert_eq!(
        StandardHDPath::new(Purpose::Pubkey, 60, 1, 0, 0),
        act
    );
}

#[test]
fn create_from_str() {
    let standard = StandardHDPath::from_str("m/49'/0'/1'/0/5").unwrap();
    let act = CustomHDPath::from(standard);
    assert_eq!(5, act.0.len());
    assert_eq!(&PathValue::Hardened(49), act.0.get(0).unwrap());
    assert_eq!(&PathValue::Hardened(0), act.0.get(1).unwrap());
    assert_eq!(&PathValue::Hardened(1), act.0.get(2).unwrap());
    assert_eq!(&PathValue::Normal(0), act.0.get(3).unwrap());
    assert_eq!(&PathValue::Normal(5), act.0.get(4).unwrap());
}

#[test]
fn from_standard_to_custom() {
    let standard = StandardHDPath::try_from("m/49'/0'/1'/0/5").unwrap();
    let act = CustomHDPath::from(standard);
    assert_eq!(5, act.0.len());
    assert_eq!(&PathValue::Hardened(49), act.0.get(0).unwrap());
    assert_eq!(&PathValue::Hardened(0), act.0.get(1).unwrap());
    assert_eq!(&PathValue::Hardened(1), act.0.get(2).unwrap());
    assert_eq!(&PathValue::Normal(0), act.0.get(3).unwrap());
    assert_eq!(&PathValue::Normal(5), act.0.get(4).unwrap());
}

#[test]
fn to_standard_path_with_custom_purpose() {
    let act = StandardHDPath::try_from("m/101'/0'/1'/0/5").unwrap();
    assert_eq!(
        StandardHDPath::new(Purpose::Custom(101), 0, 1, 0, 5),
        act
    );
}

#[test]
fn err_to_standard_path_not_hardened() {
    let paths = vec![
        "m/49/0'/1'/0/5",
        "m/49'/0/1'/0/5",
        "m/49'/0'/1/0/5",
        "m/49/0/1'/0/5",
    ];
    for p in paths {
        let custom = CustomHDPath::try_from(p).expect(format!("failed for: {}", p).as_str());
        assert!(StandardHDPath::try_from(custom).is_err(), "test: {}", p);
    }
}

#[test]
fn to_string_standard_all() {
    let paths = vec![
        "m/44'/0'/0'/0/0",
        "m/44'/60'/0'/0/1",
        "m/44'/60'/160720'/0/2",
        "m/49'/0'/0'/0/0",
        "m/49'/0'/1'/0/5",
        "m/84'/0'/0'/0/0",
        "m/84'/0'/0'/1/120",
        "m/101'/0'/0'/1/101",
    ];
    for p in paths {
        assert_eq!(p, StandardHDPath::try_from(p).unwrap().to_string())
    }
}

#[test]
fn path_standard_order() {
    let path1 = StandardHDPath::new(Purpose::Pubkey, 0, 0, 0, 0);
    let path2 = StandardHDPath::new(Purpose::Pubkey, 0, 0, 0, 1);
    let path3 = StandardHDPath::new(Purpose::Pubkey, 0, 0, 1, 1);
    let path4 = StandardHDPath::new(Purpose::Witness, 0, 2, 0, 100);
    let path5 = StandardHDPath::new(Purpose::Witness, 0, 3, 0, 0);

    assert!(path1 < path2);
    assert!(path1 < path3);
    assert!(path1 < path4);
    assert!(path1 < path5);

    assert!(path2 > path1);
    assert!(path2 < path3);
    assert!(path2 < path4);
    assert!(path2 < path5);

    assert!(path3 > path1);
    assert!(path3 > path2);
    assert!(path3 < path4);
    assert!(path3 < path5);

    assert!(path4 > path1);
    assert!(path4 > path2);
    assert!(path4 > path3);
    assert!(path4 < path5);

    assert!(path5 > path1);
    assert!(path5 > path2);
    assert!(path5 > path3);
    assert!(path5 > path4);
}

#[test]
fn order_with_custom_purpose() {
    let path1 = StandardHDPath::new(Purpose::Pubkey, 0, 0, 0, 0);
    let path2 = StandardHDPath::new(Purpose::Custom(60), 0, 0, 0, 0);
    let path3 = StandardHDPath::new(Purpose::Witness, 0, 0, 0, 0);

    assert!(path1 < path2);
    assert!(path2 < path3);
}

#[test]
fn err_to_create_invalid_coin() {
    let act = StandardHDPath::try_new(Purpose::Pubkey, 2147483692, 0, 0, 1);
    assert_eq!(act, Err(("coin_type".to_string(), 2147483692)))
}

#[test]
fn err_to_create_invalid_account() {
    let act = StandardHDPath::try_new(Purpose::Pubkey, 60, 2147483792, 0, 1);
    assert_eq!(act, Err(("account".to_string(), 2147483792)))
}

#[test]
fn err_to_create_invalid_change() {
    let act = StandardHDPath::try_new(Purpose::Pubkey, 61, 0, 2147484692, 1);
    assert_eq!(act, Err(("change".to_string(), 2147484692)))
}

#[test]
fn err_to_create_invalid_index() {
    let act = StandardHDPath::try_new(Purpose::Pubkey, 0, 0, 0, 2474893692);
    assert_eq!(act, Err(("index".to_string(), 2474893692)))
}

#[test]
fn convert_to_bytes_base() {
    let exp: [u8; 21] = [
        5,
        0x80, 0, 0, 44,
        0x80, 0, 0, 0,
        0x80, 0, 0, 0,
        0, 0, 0, 0,
        0, 0, 0, 0,
    ];

    let parsed = StandardHDPath::try_from("m/44'/0'/0'/0/0").unwrap();
    assert_eq!(parsed.to_bytes(), exp)
}

#[test]
fn convert_from_bytes_base() {
    let data: [u8; 21] = [
        5,
        0x80, 0, 0, 44,
        0x80, 0, 0, 0,
        0x80, 0, 0, 0,
        0, 0, 0, 0,
        0, 0, 0, 0,
    ];

    assert_eq!(StandardHDPath::from_bytes(&data).unwrap(),
               StandardHDPath::try_from("m/44'/0'/0'/0/0").unwrap())
}

#[test]
fn convert_to_bytes_large_account() {
    let exp: [u8; 21] = [
        5,
        0x80, 0, 0, 44,
        0x80, 0, 0, 60,
        0x80, 0x02, 0x73, 0xd0,
        0, 0, 0, 0,
        0, 0, 0, 0,
    ];

    let parsed = StandardHDPath::try_from("m/44'/60'/160720'/0/0").unwrap();
    assert_eq!(parsed.to_bytes(), exp)
}

#[test]
fn convert_from_bytes_large_account() {
    let data: [u8; 21] = [
        5,
        0x80, 0, 0, 44,
        0x80, 0, 0, 60,
        0x80, 0x02, 0x73, 0xd0,
        0, 0, 0, 0,
        0, 0, 0, 0,
    ];

    assert_eq!(StandardHDPath::from_bytes(&data).unwrap(),
               StandardHDPath::try_from("m/44'/60'/160720'/0/0").unwrap())
}

#[test]
fn convert_to_bytes_witness() {
    let exp: [u8; 21] = [
        5,
        0x80, 0, 0, 84,
        0x80, 0, 0, 0,
        0x80, 0, 0, 2,
        0, 0, 0, 0,
        0, 0, 0, 101,
    ];

    let parsed = StandardHDPath::try_from("m/84'/0'/2'/0/101").unwrap();
    assert_eq!(parsed.to_bytes(), exp)
}

#[test]
fn convert_from_bytes_large_witness() {
    let data: [u8; 21] = [
        5,
        0x80, 0, 0, 84,
        0x80, 0, 0, 0,
        0x80, 0, 0, 2,
        0, 0, 0, 0,
        0, 0, 0, 101,
    ];

    assert_eq!(StandardHDPath::from_bytes(&data).unwrap(),
               StandardHDPath::try_from("m/84'/0'/2'/0/101").unwrap())
}

#[test]
fn convert_to_bytes_change() {
    let exp: [u8; 21] = [
        5,
        0x80, 0, 0, 44,
        0x80, 0, 0, 0,
        0x80, 0, 0, 5,
        0, 0, 0, 1,
        0, 0, 0, 7,
    ];

    let parsed = StandardHDPath::try_from("m/44'/0'/5'/1/7").unwrap();
    assert_eq!(parsed.to_bytes(), exp)
}

#[test]
fn convert_from_bytes_change() {
    let data: [u8; 21] = [
        5,
        0x80, 0, 0, 44,
        0x80, 0, 0, 0,
        0x80, 0, 0, 5,
        0, 0, 0, 1,
        0, 0, 0, 7,
    ];

    assert_eq!(StandardHDPath::from_bytes(&data).unwrap(),
               StandardHDPath::try_from("m/44'/0'/5'/1/7").unwrap())
}

#[test]
fn convert_to_bytes_index() {
    let exp: [u8; 21] = [
        5,
        0x80, 0, 0, 44,
        0x80, 0, 0, 60,
        0x80, 0x02, 0x73, 0xd0,
        0, 0, 0, 0,
        0, 0, 0x02, 0x45,
    ];

    let parsed = StandardHDPath::try_from("m/44'/60'/160720'/0/581").unwrap();
    assert_eq!(parsed.to_bytes(), exp)
}

#[test]
fn convert_from_bytes_index() {
    let data: [u8; 21] = [
        5,
        0x80, 0, 0, 44,
        0x80, 0, 0, 60,
        0x80, 0x02, 0x73, 0xd0,
        0, 0, 0, 0,
        0, 0, 0x02, 0x45,
    ];

    assert_eq!(StandardHDPath::from_bytes(&data).unwrap(),
               StandardHDPath::try_from("m/44'/60'/160720'/0/581").unwrap())
}

#[test]
fn cannot_convert_from_short_bytes() {
    let data: [u8; 17] = [
        5,
        0x80, 0, 0, 44,
        0x80, 0, 0, 60,
        0x80, 0x02, 0x73, 0xd0,
        0, 0, 0, 0,
    ];

    assert!(StandardHDPath::from_bytes(&data).is_err())
}

#[test]
fn cannot_convert_from_invalid_prefix() {
    let data: [u8; 21] = [
        4,
        0x80, 0, 0, 44,
        0x80, 0, 0, 60,
        0x80, 0x02, 0x73, 0xd0,
        0, 0, 0, 0,
        0, 0, 0, 0,
    ];

    assert!(StandardHDPath::from_bytes(&data).is_err())
}

#[test]
fn test_random_conversion() {
    let range = |count: usize| {
        let mut rng = thread_rng();
        let mut result: Vec<u32> = Vec::with_capacity(count);
        for _i in 0..count {
            result.push(rng.gen_range(0u32, 0x80000000u32));
        }
        result
    };

    for purpose in [Purpose::Pubkey, Purpose::ScriptHash, Purpose::Witness, Purpose::Custom(101), Purpose::Custom(0x11223344)].iter() {
        for coin_type in [0u32, 60, 61, 1001, 0x01234567].iter() {
            for account in range(100) {
                for change in 0..1 {
                    for index in range(1000) {
                        let orig = StandardHDPath::new(
                            purpose.clone(), *coin_type, account,
                            change, index
                        );
                        let bytes = orig.to_bytes();
                        let parsed = StandardHDPath::from_bytes(&bytes).expect("Should parse");
                        assert_eq!(
                            parsed, orig,
                            "test m/{}'/{}'/{}'/{}/{}", purpose.as_value().as_number(), coin_type, account, change, index
                        )
                    }
                }
            }

        }
    }
}
