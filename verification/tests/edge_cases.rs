use hdpath::{
    AccountHDPath, CustomHDPath, Error, HDPath, PathValue, Purpose, ShortHDPath, StandardHDPath,
};
use std::convert::TryFrom;
use std::str::FromStr;

#[test]
fn parse_largest_magnitude() {
    assert_eq!(
        CustomHDPath::from_str("m/2147483647").unwrap().0,
        vec![PathValue::Normal(2147483647)]
    );
    assert_eq!(
        CustomHDPath::from_str("m/2147483647'/1").unwrap().0,
        vec![PathValue::Hardened(2147483647), PathValue::Normal(1)]
    );
    assert_eq!(CustomHDPath::from_str("m/2147483648"), Err(Error::InvalidFormat));
    assert_eq!(CustomHDPath::from_str("m/2147483648'"), Err(Error::InvalidFormat));
    assert_eq!(CustomHDPath::from_str("m/2147483648/1"), Err(Error::InvalidFormat));
}

#[test]
fn parse_numbers_beyond_the_machine_word() {
    assert_eq!(CustomHDPath::from_str("m/4294967340"), Err(Error::InvalidFormat));
    assert_eq!(CustomHDPath::from_str("m/4294967296'"), Err(Error::InvalidFormat));
    assert_eq!(CustomHDPath::from_str("m/18446744073709551660/0"), Err(Error::InvalidFormat));
    assert_eq!(
        CustomHDPath::from_str("m/99999999999999999999999999999999999999999999"),
        Err(Error::InvalidFormat)
    );
}

#[test]
fn parse_leading_zeros() {
    assert_eq!(
        CustomHDPath::from_str("m/000000000000000000000000044'/00").unwrap().0,
        vec![PathValue::Hardened(44), PathValue::Normal(0)]
    );
}

#[test]
fn parse_lower_case_marker_and_upper_case_root() {
    assert_eq!(
        CustomHDPath::from_str("M/44h/1").unwrap().0,
        vec![PathValue::Hardened(44), PathValue::Normal(1)]
    );
}

#[test]
fn parse_refuses_bytes_outside_ascii() {
    assert_eq!(CustomHDPath::from_str("m/4\u{e9}"), Err(Error::InvalidFormat));
    assert_eq!(CustomHDPath::from_str("m/\u{661}"), Err(Error::InvalidFormat));
    assert_eq!(CustomHDPath::parse(&[109, 47, 52, 200]), Err(Error::InvalidFormat));
    assert_eq!(CustomHDPath::parse(&[109, 47, 52, 0]), Err(Error::InvalidFormat));
}

#[test]
fn parse_bytes_as_text() {
    assert_eq!(
        CustomHDPath::parse(b"m/44'/7").unwrap().0,
        vec![PathValue::Hardened(44), PathValue::Normal(7)]
    );
    assert_eq!(
        StandardHDPath::parse(b"m/44'/0'/0'/0/7"),
        Ok(StandardHDPath::new(Purpose::Pubkey, 0, 0, 0, 7))
    );
    assert_eq!(
        ShortHDPath::parse(b"m/44'/0'/0'/7"),
        Ok(ShortHDPath { purpose: Purpose::Pubkey, coin_type: 0, account: 0, index: 7 })
    );
    assert_eq!(
        AccountHDPath::parse(b"m/44'/0'/9'/x/x"),
        Ok(AccountHDPath::new(Purpose::Pubkey, 0, 9))
    );
}

#[test]
fn parse_up_to_the_longest_path() {
    let mut text = String::from("m");
    for i in 0..255 {
        text.push_str(format!("/{}", i).as_str());
    }
    let path = CustomHDPath::from_str(text.as_str()).unwrap();
    assert_eq!(path.len(), 255);
    assert_eq!(path.get(254), Some(PathValue::Normal(254)));
    assert_eq!(path.to_string(), text);
    assert_eq!(path.to_bytes().len(), 1 + 4 * 255);
    assert_eq!(CustomHDPath::from_bytes(&path.to_bytes()), Ok(path));

    text.push_str("/255");
    assert_eq!(CustomHDPath::from_str(text.as_str()), Err(Error::InvalidLength(256)));
}

#[test]
fn account_text_with_unused_places() {
    assert_eq!(
        AccountHDPath::from_str("m/84'/0'/5'/x/x"),
        Ok(AccountHDPath::new(Purpose::Witness, 0, 5))
    );
    assert_eq!(AccountHDPath::from_str("m/84'/0'/5/x/x"), Err(Error::InvalidStructure));
    assert_eq!(AccountHDPath::from_str("m/84'/0'/x/x"), Err(Error::InvalidLength(2)));
    assert_eq!(AccountHDPath::from_str("m/x/x"), Err(Error::InvalidFormat));
    assert_eq!(AccountHDPath::from_str("m//x/x"), Err(Error::InvalidStructure));
    assert_eq!(AccountHDPath::from_str("/x/x"), Err(Error::InvalidFormat));
    assert_eq!(AccountHDPath::from_str("m/84'/0'/5'/x"), Err(Error::InvalidFormat));
    assert_eq!(AccountHDPath::from_str("m/84'/0'/5'/x/x/x/x"), Err(Error::InvalidFormat));
    assert_eq!(
        AccountHDPath::from_str("m/84'/0'/5'/1'/2'/3'"),
        Ok(AccountHDPath::new(Purpose::Witness, 0, 5))
    );
}

#[test]
fn decode_refuses_wrong_layout() {
    assert_eq!(CustomHDPath::from_bytes(&[]), Err(Error::InvalidFormat));
    assert_eq!(CustomHDPath::from_bytes(&[1]), Err(Error::InvalidFormat));
    assert_eq!(CustomHDPath::from_bytes(&[1, 0, 0, 0]), Err(Error::InvalidFormat));
    assert_eq!(CustomHDPath::from_bytes(&[1, 0, 0, 0, 0, 0]), Err(Error::InvalidFormat));
    assert_eq!(CustomHDPath::from_bytes(&[0, 0]), Err(Error::InvalidFormat));
    assert_eq!(CustomHDPath::from_bytes(&[0]), Ok(CustomHDPath(vec![])));
    assert_eq!(
        CustomHDPath::from_bytes(&[1, 0xff, 0xff, 0xff, 0xff]),
        Ok(CustomHDPath(vec![PathValue::Hardened(0x7fffffff)]))
    );
    assert_eq!(StandardHDPath::from_bytes(&[]), Err(Error::InvalidFormat));
    assert_eq!(StandardHDPath::from_bytes(&[5]), Err(Error::InvalidFormat));
}

#[test]
fn decode_refuses_wrong_arity() {
    let account = AccountHDPath::new(Purpose::Pubkey, 0, 0).to_bytes();
    let short = ShortHDPath { purpose: Purpose::Pubkey, coin_type: 0, account: 0, index: 0 }
        .to_bytes();
    let standard = StandardHDPath::new(Purpose::Pubkey, 0, 0, 0, 0).to_bytes();
    assert_eq!(StandardHDPath::from_bytes(&account), Err(Error::InvalidFormat));
    assert_eq!(StandardHDPath::from_bytes(&short), Err(Error::InvalidFormat));
    assert_eq!(ShortHDPath::from_bytes(&account), Err(Error::InvalidFormat));
    assert_eq!(ShortHDPath::from_bytes(&standard), Err(Error::InvalidFormat));
    assert_eq!(AccountHDPath::from_bytes(&short), Err(Error::InvalidFormat));
    assert_eq!(AccountHDPath::from_bytes(&standard), Err(Error::InvalidFormat));
}

#[test]
fn decode_refuses_wrong_hardness() {
    let purpose_normal = [5, 0, 0, 0, 44, 0x80, 0, 0, 0, 0x80, 0, 0, 0, 0, 0, 0, 0, 0, 0, 0, 0];
    assert_eq!(StandardHDPath::from_bytes(&purpose_normal), Err(Error::InvalidStructure));
    let coin_normal = [5, 0x80, 0, 0, 44, 0, 0, 0, 0, 0x80, 0, 0, 0, 0, 0, 0, 0, 0, 0, 0, 0];
    assert_eq!(StandardHDPath::from_bytes(&coin_normal), Err(Error::InvalidStructure));
    let change_hardened =
        [5, 0x80, 0, 0, 44, 0x80, 0, 0, 0, 0x80, 0, 0, 0, 0x80, 0, 0, 0, 0, 0, 0, 0];
    assert_eq!(StandardHDPath::from_bytes(&change_hardened), Err(Error::InvalidStructure));
    let index_hardened =
        [5, 0x80, 0, 0, 44, 0x80, 0, 0, 0, 0x80, 0, 0, 0, 0, 0, 0, 0, 0x80, 0, 0, 1];
    assert_eq!(StandardHDPath::from_bytes(&index_hardened), Err(Error::InvalidStructure));
    assert_eq!(
        AccountHDPath::from_bytes(&[3, 0x80, 0, 0, 44, 0x80, 0, 0, 0, 0, 0, 0, 0]),
        Err(Error::InvalidStructure)
    );
    assert_eq!(
        ShortHDPath::from_bytes(&[4, 0x80, 0, 0, 44, 0x80, 0, 0, 0, 0x80, 0, 0, 0, 0x80, 0, 0, 0]),
        Err(Error::InvalidStructure)
    );
}

#[test]
fn shape_check_refuses_magnitudes_out_of_range() {
    let custom = CustomHDPath(vec![
        PathValue::Hardened(0x80000000),
        PathValue::Hardened(0),
        PathValue::Hardened(0),
    ]);
    assert_eq!(AccountHDPath::try_from(custom), Err(Error::HighBitIsSet));
    let custom = CustomHDPath(vec![
        PathValue::Hardened(44),
        PathValue::Hardened(0),
        PathValue::Hardened(0xffffffff),
    ]);
    assert_eq!(AccountHDPath::try_from(custom), Err(Error::HighBitIsSet));
    let custom = CustomHDPath(vec![
        PathValue::Hardened(44),
        PathValue::Normal(0),
        PathValue::Hardened(0xffffffff),
    ]);
    assert_eq!(AccountHDPath::try_from(custom), Err(Error::InvalidStructure));
}

#[test]
fn empty_path() {
    let empty = CustomHDPath::try_new(vec![]).unwrap();
    assert_eq!(empty.len(), 0);
    assert_eq!(empty.get(0), None);
    assert_eq!(empty.to_bytes(), vec![0]);
    assert_eq!(empty.to_string(), "m");
    assert_eq!(empty.parent(), None);
    assert_eq!(empty.as_custom(), empty);
}

#[test]
fn parent_drops_the_last_segment() {
    let one = CustomHDPath::from_str("m/7'").unwrap();
    assert_eq!(one.parent(), Some(CustomHDPath(vec![])));
    let short = ShortHDPath { purpose: Purpose::Witness, coin_type: 1, account: 2, index: 3 };
    assert_eq!(short.parent(), Some(CustomHDPath::from_str("m/84'/1'/2'").unwrap()));
    assert_eq!(short.as_custom(), CustomHDPath::from_str("m/84'/1'/2'/3").unwrap());
}

#[test]
fn length_and_places() {
    let standard = StandardHDPath::new(Purpose::Witness, 1, 2, 3, 4);
    assert_eq!(standard.len(), 5);
    assert_eq!(standard.get(0), Some(PathValue::Hardened(84)));
    assert_eq!(standard.get(1), Some(PathValue::Hardened(1)));
    assert_eq!(standard.get(2), Some(PathValue::Hardened(2)));
    assert_eq!(standard.get(3), Some(PathValue::Normal(3)));
    assert_eq!(standard.get(4), Some(PathValue::Normal(4)));
    assert_eq!(standard.get(5), None);
    assert_eq!(standard.get(255), None);

    let short = ShortHDPath { purpose: Purpose::Custom(9), coin_type: 1, account: 2, index: 3 };
    assert_eq!(short.len(), 4);
    assert_eq!(short.get(0), Some(PathValue::Hardened(9)));
    assert_eq!(short.get(3), Some(PathValue::Normal(3)));
    assert_eq!(short.get(4), None);

    let account = AccountHDPath::new(Purpose::Unspecified, 1, 2);
    assert_eq!(account.len(), 3);
    assert_eq!(account.get(0), Some(PathValue::Hardened(0)));
    assert_eq!(account.get(2), Some(PathValue::Hardened(2)));
    assert_eq!(account.get(3), None);

    let custom = CustomHDPath::from_str("m/5/6'").unwrap();
    assert_eq!(custom.len(), 2);
    assert_eq!(custom.get(1), Some(PathValue::Hardened(6)));
    assert_eq!(custom.get(2), None);
    assert_eq!(CustomHDPath::from_path(&standard).0.len(), 5);
}

#[test]
fn try_new_names_the_first_field_out_of_range() {
    let big = 0x80000000u32;
    assert_eq!(
        StandardHDPath::try_new(Purpose::Custom(big), big, big, big, big),
        Err(("purpose".to_string(), big))
    );
    assert_eq!(
        StandardHDPath::try_new(Purpose::Custom(1), big + 1, big, big, big),
        Err(("coin_type".to_string(), big + 1))
    );
    assert_eq!(
        StandardHDPath::try_new(Purpose::Custom(1), 1, big + 2, big, big),
        Err(("account".to_string(), big + 2))
    );
    assert_eq!(
        StandardHDPath::try_new(Purpose::Custom(1), 1, 1, big + 3, big),
        Err(("change".to_string(), big + 3))
    );
    assert_eq!(
        StandardHDPath::try_new(Purpose::Custom(1), 1, 1, 1, big + 4),
        Err(("index".to_string(), big + 4))
    );
    assert_eq!(
        StandardHDPath::try_new(Purpose::Custom(0x7fffffff), 0x7fffffff, 0x7fffffff, 0x7fffffff, 0x7fffffff),
        Ok(StandardHDPath::new(Purpose::Custom(0x7fffffff), 0x7fffffff, 0x7fffffff, 0x7fffffff, 0x7fffffff))
    );

    assert_eq!(
        AccountHDPath::try_new(Purpose::Custom(big), big, big),
        Err(("purpose".to_string(), big))
    );
    assert_eq!(
        AccountHDPath::try_new(Purpose::Witness, big, big),
        Err(("coin_type".to_string(), big))
    );
    assert_eq!(
        AccountHDPath::try_new(Purpose::Witness, 0, 0xffffffff),
        Err(("account".to_string(), 0xffffffff))
    );
    assert_eq!(
        AccountHDPath::try_new(Purpose::Witness, 0, 1),
        Ok(AccountHDPath::new(Purpose::Witness, 0, 1))
    );
}

#[test]
fn address_at_names_the_field_out_of_range() {
    let account = AccountHDPath::new(Purpose::Witness, 0, 1);
    assert_eq!(account.address_at(0x80000000, 0), Err(("change".to_string(), 0x80000000)));
    assert_eq!(account.address_at(0, 0x80000005), Err(("index".to_string(), 0x80000005)));
    assert_eq!(
        account.address_at(0x80000001, 0x80000005),
        Err(("change".to_string(), 0x80000001))
    );
    assert_eq!(account.address_at(1, 2), Ok(StandardHDPath::new(Purpose::Witness, 0, 1, 1, 2)));
}

#[test]
fn purpose_from_numbers() {
    assert!(matches!(Purpose::try_from(0u32), Ok(Purpose::Custom(0))));
    assert!(matches!(Purpose::try_from(44u32), Ok(Purpose::Pubkey)));
    assert!(matches!(Purpose::try_from(49u32), Ok(Purpose::ScriptHash)));
    assert!(matches!(Purpose::try_from(84u32), Ok(Purpose::Witness)));
    assert!(matches!(Purpose::try_from(0x7fffffffu32), Ok(Purpose::Custom(0x7fffffff))));
    assert_eq!(Purpose::try_from(0x80000000u32), Err(Error::HighBitIsSet));
    assert_eq!(Purpose::try_from(0xffffffffu32), Err(Error::HighBitIsSet));

    assert!(matches!(Purpose::try_from(84usize), Ok(Purpose::Witness)));
    assert_eq!(Purpose::try_from(0x80000000usize), Err(Error::HighBitIsSet));
    assert_eq!(Purpose::try_from(usize::MAX), Err(Error::HighBitIsSet));

    assert!(matches!(Purpose::try_from(49i32), Ok(Purpose::ScriptHash)));
    assert!(matches!(Purpose::try_from(i32::MAX), Ok(Purpose::Custom(0x7fffffff))));
    assert_eq!(Purpose::try_from(-1i32), Err(Error::InvalidPurpose(0)));
    assert_eq!(Purpose::try_from(i32::MIN), Err(Error::InvalidPurpose(0)));

    assert!(matches!(Purpose::try_from(PathValue::Hardened(44)), Ok(Purpose::Pubkey)));
    assert!(matches!(Purpose::try_from(PathValue::Normal(45)), Ok(Purpose::Custom(45))));
}

#[test]
fn purpose_to_numbers() {
    assert_eq!(u32::from(Purpose::Unspecified), 0);
    assert_eq!(u32::from(Purpose::Pubkey), 44);
    assert_eq!(u32::from(Purpose::ScriptHash), 49);
    assert_eq!(u32::from(&Purpose::Witness), 84);
    assert_eq!(u32::from(&Purpose::Custom(1234)), 1234);
    assert_eq!(Purpose::Witness.as_number(), 84);
    assert_eq!(Purpose::Unspecified.as_value(), PathValue::Hardened(0));
    assert_eq!(Purpose::Pubkey.as_value(), PathValue::Hardened(44));
    assert_eq!(Purpose::Custom(5).as_value(), PathValue::Hardened(5));
}

#[test]
fn error_messages() {
    assert_eq!(Error::HighBitIsSet.to_string(), "High bit is set");
    assert_eq!(Error::InvalidLength(0).to_string(), "Invalid length: 0");
    assert_eq!(Error::InvalidLength(256).to_string(), "Invalid length: 256");
    assert_eq!(Error::InvalidPurpose(0).to_string(), "Invalid purpose: 0");
    assert_eq!(Error::InvalidPurpose(4294967295).to_string(), "Invalid purpose: 4294967295");
    assert_eq!(Error::InvalidStructure.to_string(), "Invalid structure");
    assert_eq!(Error::InvalidFormat.to_string(), "Invalid format");
}

#[test]
fn segment_text() {
    assert_eq!(PathValue::Normal(0).to_string(), "0");
    assert_eq!(PathValue::Normal(10).to_string(), "10");
    assert_eq!(PathValue::Normal(2147483647).to_string(), "2147483647");
    assert_eq!(PathValue::Hardened(2147483647).to_string(), "2147483647'");
    assert_eq!(PathValue::Hardened(1090).to_string(), "1090'");
}

#[test]
fn default_standard_path() {
    let path = StandardHDPath::default();
    assert_eq!(path, StandardHDPath::from_str("m/44'/0'/0'/0/0").unwrap());
    assert!(matches!(path.purpose(), Purpose::Pubkey));
}

#[test]
fn too_long_a_vector_is_refused_with_its_length() {
    let values = vec![PathValue::Normal(1); 255];
    assert!(CustomHDPath::try_new(values).is_ok());
    let values = vec![PathValue::Normal(1); 300];
    assert_eq!(CustomHDPath::try_new(values), Err(Error::InvalidLength(300)));
}

#[test]
fn generic_paths_compare_by_their_segments() {
    let a = CustomHDPath::from_str("m/1/2'").unwrap();
    assert_eq!(a, CustomHDPath(vec![PathValue::Normal(1), PathValue::Hardened(2)]));
    assert_ne!(a, CustomHDPath(vec![PathValue::Normal(1), PathValue::Normal(2)]));
    assert_ne!(a, CustomHDPath(vec![PathValue::Normal(1)]));
    assert_ne!(a, CustomHDPath(vec![PathValue::Normal(1), PathValue::Hardened(2), PathValue::Normal(0)]));
}

#[test]
fn validity_of_values_made_by_hand() {
    assert!(PathValue::Normal(0x7fffffff).is_valid());
    assert!(!PathValue::Normal(0x80000000).is_valid());
    assert!(!PathValue::Hardened(0xffffffff).is_valid());
    assert!(Purpose::Witness.is_valid());
    assert!(Purpose::Custom(0x7fffffff).is_valid());
    assert!(!Purpose::Custom(0x80000000).is_valid());

    assert!(StandardHDPath { purpose: Purpose::Pubkey, coin_type: 0, account: 0, change: 0, index: 0 }
        .is_valid());
    assert!(!StandardHDPath {
        purpose: Purpose::Custom(0x80000000),
        coin_type: 0,
        account: 0,
        change: 0,
        index: 0
    }
    .is_valid());
    assert!(!StandardHDPath {
        purpose: Purpose::Pubkey,
        coin_type: 0,
        account: 0,
        change: 0,
        index: 0x80000000
    }
    .is_valid());
    assert!(!StandardHDPath {
        purpose: Purpose::Pubkey,
        coin_type: 0,
        account: 0,
        change: 0x80000000,
        index: 0
    }
    .is_valid());
    assert!(AccountHDPath { purpose: Purpose::Pubkey, coin_type: 1, account: 2 }.is_valid());
    assert!(!AccountHDPath { purpose: Purpose::Pubkey, coin_type: 0x80000000, account: 2 }
        .is_valid());
    assert!(!AccountHDPath { purpose: Purpose::Pubkey, coin_type: 1, account: 0x80000000 }
        .is_valid());
    assert!(ShortHDPath { purpose: Purpose::Pubkey, coin_type: 1, account: 2, index: 3 }.is_valid());
    assert!(!ShortHDPath { purpose: Purpose::Pubkey, coin_type: 1, account: 2, index: 0x80000000 }
        .is_valid());

    assert!(CustomHDPath(vec![]).is_valid());
    assert!(CustomHDPath(vec![PathValue::Normal(1); 255]).is_valid());
    assert!(!CustomHDPath(vec![PathValue::Normal(1); 256]).is_valid());
    assert!(!CustomHDPath(vec![PathValue::Normal(1), PathValue::Hardened(0x80000000)]).is_valid());
}

#[test]
fn copies_are_equal() {
    let custom = CustomHDPath::from_str("m/1'/2/3'").unwrap();
    assert_eq!(custom.clone(), custom);
    assert_eq!(custom.clone().0, vec![
        PathValue::Hardened(1),
        PathValue::Normal(2),
        PathValue::Hardened(3),
    ]);
}
