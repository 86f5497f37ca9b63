use std::cmp::Ordering;
use validated_scalars::twid::{
    gender_from_text, get_gender_from_twid, get_region_number, is_valid_taiwan_id, is_valid_twid,
    twid_gender, twid_region, upper_char, Gender, Twid,
};

#[test]
fn test_valid_taiwan_ids() {
    assert!(is_valid_taiwan_id("A123456789"));
    assert!(is_valid_taiwan_id("F131232216"));

    assert!(is_valid_taiwan_id("a123456789"));
    assert!(is_valid_taiwan_id("f131232216"));
}

#[test]
fn test_invalid_taiwan_ids() {
    assert!(!is_valid_taiwan_id("A12345678"));
    assert!(!is_valid_taiwan_id("A1234567890"));

    assert!(!is_valid_taiwan_id("1123456789"));
    assert!(!is_valid_taiwan_id("!123456789"));

    assert!(!is_valid_taiwan_id("?123456789"));

    assert!(!is_valid_taiwan_id("A12345678A"));
    assert!(!is_valid_taiwan_id("AB23456789"));

    assert!(!is_valid_taiwan_id("A323456789"));
    assert!(!is_valid_taiwan_id("A523456789"));

    assert!(!is_valid_taiwan_id(""));
}

#[test]
fn test_twid_creation() {
    let twid = Twid::from_str("A123456789");
    assert!(twid.is_ok());

    let twid = Twid::from_str("F131232216");
    assert!(twid.is_ok());

    let twid = Twid::from_str("invalid");
    assert!(twid.is_err());
}

#[test]
fn test_twid_gender() {
    assert_eq!(get_gender_from_twid("A123456789"), "M");
    assert_eq!(get_gender_from_twid("A223456789"), "F");
    assert_eq!(get_gender_from_twid("A823456789"), "M");
    assert_eq!(get_gender_from_twid("A923456789"), "F");
    assert_eq!(get_gender_from_twid("A323456789"), "U");
}

#[test]
fn test_region_mapping() {
    assert_eq!(get_region_number('A'), Some(10));
    assert_eq!(get_region_number('B'), Some(11));
    assert_eq!(get_region_number('J'), Some(18));
    assert_eq!(get_region_number('I'), Some(34));
    assert_eq!(get_region_number('O'), Some(35));
    assert_eq!(get_region_number('?'), None);
}

#[test]
fn test_case_insensitive() {
    let twid_lower = Twid::from_str("a123456789");
    let twid_upper = Twid::from_str("A123456789");

    assert!(twid_lower.is_ok());
    assert!(twid_upper.is_ok());
    assert_eq!(twid_lower.unwrap().as_str(), twid_upper.unwrap().as_str());
}

#[test]
fn region_table_is_the_allocation_order() {
    let order = "ABCDEFGHJKLMNPQRSTUVXYWZIO";
    for (i, letter) in order.chars().enumerate() {
        assert_eq!(get_region_number(letter), Some(10 + i as u16));
    }
    for letter in 'a'..='z' {
        assert_eq!(get_region_number(letter), None);
    }
    assert_eq!(get_region_number('W'), Some(32));
    assert_eq!(get_region_number('X'), Some(30));
    assert_eq!(get_region_number('Z'), Some(33));
    assert_eq!(get_region_number('@'), None);
    assert_eq!(get_region_number('['), None);
    assert_eq!(get_region_number('\u{c9}'), None);
}

#[test]
fn checksum_decides_the_last_digit() {
    // A = 10: 1*1 + 0*9 + 1*8 + 2*7 + 3*6 + 4*5 + 5*4 + 6*3 + 7*2 + 8*1 + 9*1 = 130
    assert!(is_valid_taiwan_id("A123456789"));
    for last in "012345678".chars() {
        let text = format!("A12345678{}", last);
        assert!(!is_valid_taiwan_id(&text));
    }
    // I = 34: 3*1 + 4*9 + 1*8 + 3*1 = 50
    assert!(is_valid_taiwan_id("I100000003"));
    assert!(!is_valid_taiwan_id("I100000000"));
    // O = 35: 3*1 + 5*9 + 2*8 + 6*1 = 70
    assert!(is_valid_taiwan_id("O200000006"));
    // W = 32: 3*1 + 2*9 + 8*8 + 5*1 = 90
    assert!(is_valid_taiwan_id("W800000005"));
    // Z = 33: 3*1 + 3*9 + 9*8 + 8*1 = 110
    assert!(is_valid_taiwan_id("z900000008"));
}

#[test]
fn text_of_the_wrong_width_is_rejected() {
    // ten bytes, nine characters
    assert!(!is_valid_taiwan_id("\u{131}12345678"));
    assert!(!is_valid_taiwan_id("\u{131}12345679"));
    assert!(!is_valid_taiwan_id("\u{17f}12345678"));
    // ten characters, more bytes
    assert!(!is_valid_taiwan_id("\u{c9}123456789"));
    assert!(!is_valid_taiwan_id("A12345678\u{663}"));
    assert!(Twid::from_str("\u{131}12345678").is_err());
    assert!(!is_valid_taiwan_id("A 23456789"));
    assert!(!is_valid_taiwan_id("A123456789\n"));
}

#[test]
fn parsing_stores_the_upper_case_form() {
    let id = Twid::from_str("f131232216").unwrap();
    assert_eq!(id.as_str(), "F131232216");
    assert_eq!(id.to_text(), "F131232216");
    assert_eq!(id, Twid::from_str("F131232216").unwrap());
    assert_eq!(Twid::from_str("a123456789"), Twid::from_str("A123456789"));
}

#[test]
fn twid_round_trip() {
    for text in ["A123456789", "a123456789", "F131232216", "z900000008"] {
        let id = Twid::from_str(text).unwrap();
        let again = Twid::from_text(&id.to_text()).unwrap();
        assert_eq!(again, id);
        assert_eq!(again.to_text(), id.to_text());
        assert_eq!(id.clone(), id);
    }
}

#[test]
fn twid_rejections_carry_the_one_error() {
    for text in ["", "A12345678", "A1234567890", "1123456789", "AB23456789", "A323456789", "A523456789", "A123456780"] {
        assert!(Twid::from_str(text).is_err());
        assert!(Twid::from_text(text).is_err());
    }
}

#[test]
fn twid_region_and_gender() {
    let id = Twid::from_str("a123456789").unwrap();
    assert_eq!(id.region(), 'A');
    assert_eq!(id.gender(), Gender::Male);
    let id = Twid::from_str("O200000006").unwrap();
    assert_eq!(id.region(), 'O');
    assert_eq!(id.gender(), Gender::Female);
    assert_eq!(Twid::from_str("W800000005").unwrap().gender(), Gender::Male);
    assert_eq!(Twid::from_str("z900000008").unwrap().gender(), Gender::Female);
    assert_eq!(Twid::from_str("z900000008").unwrap().region(), 'Z');
}

#[test]
fn gender_of_unvalidated_text() {
    assert_eq!(gender_from_text("A1"), Gender::Male);
    assert_eq!(gender_from_text("?2"), Gender::Female);
    assert_eq!(gender_from_text("x8zzz"), Gender::Male);
    assert_eq!(gender_from_text("x9"), Gender::Female);
    for other in "03456 7aM".chars() {
        assert_eq!(gender_from_text(&format!("A{}2", other)), Gender::Unknown);
    }
    assert_eq!(gender_from_text(""), Gender::Unknown);
    assert_eq!(gender_from_text("A"), Gender::Unknown);
    // two bytes, one character
    assert_eq!(gender_from_text("\u{e9}"), Gender::Unknown);
    assert_eq!(gender_from_text("\u{e9}1"), Gender::Male);
    assert_eq!(get_gender_from_twid("\u{e9}"), "U");
    assert_eq!(get_gender_from_twid(""), "U");
    assert_eq!(Gender::Male.code(), "M");
    assert_eq!(Gender::Female.code(), "F");
    assert_eq!(Gender::Unknown.code(), "U");
}

#[test]
fn twid_order_is_that_of_the_stored_text() {
    let a = Twid::from_str("A123456789").unwrap();
    let f = Twid::from_str("f131232216").unwrap();
    let z = Twid::from_str("Z900000008").unwrap();
    assert!(a < f);
    assert!(f < z);
    assert!(a < z);
    assert!(z > a);
    assert!(a <= a.clone());
    assert_eq!(a.cmp(&f), Ordering::Less);
    assert_eq!(f.cmp(&a), Ordering::Greater);
    assert_eq!(a.cmp(&a), Ordering::Equal);
    assert_eq!(a.partial_cmp(&z), Some(Ordering::Less));
    assert_eq!(Ord::cmp(&a, &f), a.cmp(&f));
    let mut all = vec![z.clone(), a.clone(), f.clone()];
    all.sort();
    assert_eq!(all, vec![a, f, z]);
}

#[test]
fn twid_parsing_is_repeatable() {
    for text in ["A123456789", "a123456789", "A123456780", "", "F131232216", "AB23456789"] {
        let first = Twid::from_str(text);
        let second = Twid::from_str(text);
        assert_eq!(first, second);
        assert_eq!(is_valid_taiwan_id(text), first.is_ok());
        assert_eq!(is_valid_taiwan_id(text), is_valid_taiwan_id(text));
    }
}

#[test]
fn twid_order_is_total() {
    let texts = ["A123456789", "a123456789", "F131232216", "I100000003", "O200000006", "W800000005", "Z900000008"];
    let ids: Vec<Twid> = texts.iter().map(|t| Twid::from_str(t).unwrap()).collect();
    for a in &ids {
        for b in &ids {
            let less = a < b;
            let equal = a == b;
            let greater = a > b;
            assert_eq!(less as u8 + equal as u8 + greater as u8, 1);
            assert_eq!(equal, a.as_str() == b.as_str());
            assert_eq!(a.cmp(b), b.cmp(a).reverse());
            for c in &ids {
                if a < b && b < c {
                    assert!(a < c);
                }
            }
        }
    }
}

#[test]
fn twid_free_functions() {
    assert!(is_valid_twid("a123456789"));
    assert!(!is_valid_twid("a123456788"));
    assert_eq!(twid_gender(Twid::from_str("a123456789").unwrap()), "M");
    assert_eq!(twid_gender(Twid::from_str("O200000006").unwrap()), "F");
    assert_eq!(twid_region(Twid::from_str("a123456789").unwrap()), "A");
    assert_eq!(twid_region(Twid::from_str("z900000008").unwrap()), "Z");
    assert_eq!(upper_char('a'), 'A');
    assert_eq!(upper_char('z'), 'Z');
    assert_eq!(upper_char('m'), 'M');
    assert_eq!(upper_char('A'), 'A');
    assert_eq!(upper_char('5'), '5');
    assert_eq!(upper_char('`'), '`');
    assert_eq!(upper_char('{'), '{');
    assert_eq!(upper_char('\u{e9}'), '\u{e9}');
    assert_eq!(upper_char('\u{131}'), '\u{131}');
}
