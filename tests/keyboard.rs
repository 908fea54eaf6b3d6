use clef_rush::keyboard::{is_valid_key, range, Key, KeyPos, Keyboard};

#[test]
fn key_codes() {
    assert_eq!(Key::try_from_midi(21).unwrap(), Key { pos: KeyPos::A, oct: 0 });
    assert_eq!(Key::try_from_midi(22).unwrap(), Key { pos: KeyPos::ASharp, oct: 0 });
    assert_eq!(Key::try_from_midi(23).unwrap(), Key { pos: KeyPos::B, oct: 0 });
    assert_eq!(Key::try_from_midi(24).unwrap(), Key { pos: KeyPos::C, oct: 1 });

    assert!(!is_valid_key(20));
    assert!(!is_valid_key(109));
    assert!(is_valid_key(21));
    assert!(is_valid_key(108));
}

#[test]
fn device_codes_round_trip() {
    for key in 0..128u8 {
        if is_valid_key(key) {
            let parsed = Key::try_from_midi(key).unwrap();
            assert_eq!(key, parsed.to_midi());
        } else {
            assert!(Key::try_from_midi(key).is_err());
        }
    }
    assert!((21..=108u8).all(|c| Key::try_from_midi(c).is_ok()));
}

#[test]
fn middle_c_code() {
    assert_eq!(KeyPos::C.oct(4).to_midi(), 60);
    assert_eq!(KeyPos::C.oct(4).code(), 60);
    assert_eq!(KeyPos::B.oct(20).code(), 263);
    assert_eq!(Key::try_from_midi(108).unwrap(), KeyPos::C.oct(8));
}

#[test]
fn keyboard() {
    let kbd = Keyboard::standard_88_key();
    assert_eq!(kbd.num_keys(), 88);
    assert_eq!(kbd.num_sharp_keys(), 36);
    assert_eq!(kbd.num_natural_keys(), 52);
    assert_eq!(kbd.first(), KeyPos::A.oct(0));
    assert_eq!(kbd.last(), KeyPos::C.oct(8));
    assert_eq!(kbd.iter_keys().len(), 88);
    assert!(kbd.iter_natural_keys().iter().all(|k| k.is_natural()));
    assert!(kbd.iter_sharp_keys().iter().all(|k| k.is_sharp()));
}

#[test]
fn range_is_inclusive_and_ascending() {
    let keys = range(&KeyPos::C.oct(4), &KeyPos::C.oct(5));
    assert_eq!(keys.len(), 13);
    assert_eq!(keys[0], KeyPos::C.oct(4));
    assert_eq!(keys[1], KeyPos::CSharp.oct(4));
    assert_eq!(keys[12], KeyPos::C.oct(5));
    for w in keys.windows(2) {
        assert!(w[0].to_midi() < w[1].to_midi());
    }
    let a = KeyPos::A.oct(0);
    let b = KeyPos::C.oct(8);
    assert_eq!(range(&a, &b).len(), (b.to_midi() - a.to_midi()) as usize + 1);
}

#[test]
fn range_of_one_and_reversed() {
    let k = KeyPos::G.oct(3);
    assert_eq!(range(&k, &k), vec![k]);
    assert!(range(&KeyPos::C.oct(5), &KeyPos::C.oct(4)).is_empty());
}

#[test]
fn pitch_class_names() {
    assert_eq!(KeyPos::CSharp.as_str(), "C#");
    assert_eq!(KeyPos::B.as_str(), "B");
    assert_eq!(KeyPos::FSharp.pitch_name(), "f");
    assert_eq!(KeyPos::E.pitch_name(), "e");
    assert_eq!(KeyPos::G.natural_idx(), Some(4));
    assert_eq!(KeyPos::GSharp.natural_idx(), None);
    assert_eq!(KeyPos::ASharp.scale_idx(), 10);
    assert!(KeyPos::DSharp.is_sharp());
    assert!(KeyPos::E.is_natural());
    assert_eq!(KeyPos::from_u8(11), KeyPos::B);
    assert!(Key::new(KeyPos::F, 2).is_natural());
    assert!(Key::new(KeyPos::FSharp, 2).is_sharp());
}

#[test]
fn keys_order_by_device_code() {
    assert!(KeyPos::B.oct(3) < KeyPos::C.oct(4));
    assert!(KeyPos::CSharp.oct(4) > KeyPos::C.oct(4));
    assert!(KeyPos::A.oct(0) <= KeyPos::A.oct(0));
    let mut keys = vec![KeyPos::C.oct(5), KeyPos::B.oct(4), KeyPos::D.oct(1), KeyPos::ASharp.oct(4)];
    keys.sort();
    let codes: Vec<u8> = keys.iter().map(|k| k.to_midi()).collect();
    assert_eq!(codes, vec![26, 70, 71, 72]);
    assert_eq!(KeyPos::B.oct(3).partial_cmp(&KeyPos::C.oct(4)), Some(std::cmp::Ordering::Less));
    assert_eq!(KeyPos::B.oct(3).cmp(&KeyPos::C.oct(4)), std::cmp::Ordering::Less);
}
