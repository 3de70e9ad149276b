use codepage_437::{cp437_control, BorrowFromCp437, Cp437Error, FromCp437, IntoCp437, ToCp437};
use std::borrow::Cow;

const ALL_CP437: [u8; 256] = [
    0x00, 0x01, 0x02, 0x03, 0x04, 0x05, 0x06, 0x07, 0x08, 0x09, 0x0A, 0x0B, 0x0C, 0x0D, 0x0E, 0x0F,
    0x10, 0x11, 0x12, 0x13, 0x14, 0x15, 0x16, 0x17, 0x18, 0x19, 0x1A, 0x1B, 0x1C, 0x1D, 0x1E, 0x1F,
    0x20, 0x21, 0x22, 0x23, 0x24, 0x25, 0x26, 0x27, 0x28, 0x29, 0x2A, 0x2B, 0x2C, 0x2D, 0x2E, 0x2F,
    0x30, 0x31, 0x32, 0x33, 0x34, 0x35, 0x36, 0x37, 0x38, 0x39, 0x3A, 0x3B, 0x3C, 0x3D, 0x3E, 0x3F,
    0x40, 0x41, 0x42, 0x43, 0x44, 0x45, 0x46, 0x47, 0x48, 0x49, 0x4A, 0x4B, 0x4C, 0x4D, 0x4E, 0x4F,
    0x50, 0x51, 0x52, 0x53, 0x54, 0x55, 0x56, 0x57, 0x58, 0x59, 0x5A, 0x5B, 0x5C, 0x5D, 0x5E, 0x5F,
    0x60, 0x61, 0x62, 0x63, 0x64, 0x65, 0x66, 0x67, 0x68, 0x69, 0x6A, 0x6B, 0x6C, 0x6D, 0x6E, 0x6F,
    0x70, 0x71, 0x72, 0x73, 0x74, 0x75, 0x76, 0x77, 0x78, 0x79, 0x7A, 0x7B, 0x7C, 0x7D, 0x7E, 0x7F,
    0x80, 0x81, 0x82, 0x83, 0x84, 0x85, 0x86, 0x87, 0x88, 0x89, 0x8A, 0x8B, 0x8C, 0x8D, 0x8E, 0x8F,
    0x90, 0x91, 0x92, 0x93, 0x94, 0x95, 0x96, 0x97, 0x98, 0x99, 0x9A, 0x9B, 0x9C, 0x9D, 0x9E, 0x9F,
    0xA0, 0xA1, 0xA2, 0xA3, 0xA4, 0xA5, 0xA6, 0xA7, 0xA8, 0xA9, 0xAA, 0xAB, 0xAC, 0xAD, 0xAE, 0xAF,
    0xB0, 0xB1, 0xB2, 0xB3, 0xB4, 0xB5, 0xB6, 0xB7, 0xB8, 0xB9, 0xBA, 0xBB, 0xBC, 0xBD, 0xBE, 0xBF,
    0xC0, 0xC1, 0xC2, 0xC3, 0xC4, 0xC5, 0xC6, 0xC7, 0xC8, 0xC9, 0xCA, 0xCB, 0xCC, 0xCD, 0xCE, 0xCF,
    0xD0, 0xD1, 0xD2, 0xD3, 0xD4, 0xD5, 0xD6, 0xD7, 0xD8, 0xD9, 0xDA, 0xDB, 0xDC, 0xDD, 0xDE, 0xDF,
    0xE0, 0xE1, 0xE2, 0xE3, 0xE4, 0xE5, 0xE6, 0xE7, 0xE8, 0xE9, 0xEA, 0xEB, 0xEC, 0xED, 0xEE, 0xEF,
    0xF0, 0xF1, 0xF2, 0xF3, 0xF4, 0xF5, 0xF6, 0xF7, 0xF8, 0xF9, 0xFA, 0xFB, 0xFC, 0xFD, 0xFE, 0xFF,
];

const ALL_UTF8: &str = "\u{0}\u{1}\u{2}\u{3}\u{4}\u{5}\u{6}\u{7}\u{8}\u{9}\u{a}\u{b}\u{c}\u{d}\u{e}\u{f}\u{10}\u{11}\u{12}\u{13}\u{14}\u{15}\u{16}\u{17}\u{18}\u{19}\u{1a}\u{1b}\u{1c}\u{1d}\u{1e}\u{1f}\
    \u{20}!\"#$%&'()*+,-./0123456789:;<=>?\
    @ABCDEFGHIJKLMNOPQRSTUVWXYZ[\\]^_\
    `abcdefghijklmnopqrstuvwxyz{|}~\u{7f}\
    ÇüéâäàåçêëèïîìÄÅÉæÆôöòûùÿÖÜ¢£¥₧ƒ\
    áíóúñÑªº¿⌐¬½¼¡«»░▒▓│┤╡╢╖╕╣║╗╝╜╛┐\
    └┴┬├─┼╞╟╚╔╩╦╠═╬╧╨╤╥╙╘╒╓╫╪┘┌█▄▌▐▀\
    αßΓπΣσµτΦΘΩδ∞φε∩≡±≥≤⌠⌡÷≈°∙·√ⁿ²■\u{a0}";

const VARIANTS_CP437: [u8; 17] = [
    0x7F, 0xE1, 0xE3, 0xE3, 0xE4, 0xE6, 0xEB, 0xEB, 0xED, 0xED, 0xED, 0xED, 0xED, 0xED, 0xEE, 0xEE,
    0xFB,
];

const VARIANTS_UTF8: &str = "ΔβΠ∏∑μð∂ϕ𝜙∅⌀Øø∈€✓";

fn is_borrowed<T: ToOwned + ?Sized>(who: &Cow<T>) -> bool {
    match who {
        &Cow::Borrowed(_) => true,
        &Cow::Owned(_) => false,
    }
}

#[test]
fn decode() {
    let cp437_control = cp437_control();
    let mut full_size = 0;
    for (cnt, (&b, c)) in ALL_CP437.iter().zip(ALL_UTF8.chars()).enumerate() {
        assert_eq!(cp437_control.decode(b), c);

        if b.is_ascii() {
            assert_eq!(b as char, c);
        }

        assert_eq!(b as usize, cnt); // Verify test data is consecutive
        full_size = cnt;
    }

    // Verify test data covers all 256 bytes
    assert_eq!(full_size, 0xFF);
}

#[test]
fn cp437_to_unicode() {
    let cp437_control = cp437_control();
    let mut full_size = 0;
    for (cnt, (&b, c)) in ALL_CP437.iter().zip(ALL_UTF8.chars()).enumerate() {
        assert_eq!(cp437_control.decode(b), c);

        if b.is_ascii() {
            assert_eq!(b as char, c);
        }

        assert_eq!(b as usize, cnt); // Verify test data is consecutive
        full_size = cnt;
    }

    // Verify test data covers all 256 bytes
    assert_eq!(full_size, 0xFF);
}

#[test]
fn normal() {
    let cp437_control = cp437_control();
    for (&b, c) in ALL_CP437.iter().zip(ALL_UTF8.chars()) {
        assert_eq!(cp437_control.encode(c), Some(b));
    }
}

#[test]
fn variants() {
    let cp437_control = cp437_control();
    for (&b, c) in VARIANTS_CP437.iter().zip(VARIANTS_UTF8.chars()) {
        assert_eq!(cp437_control.encode(c), Some(b));
    }
}

#[test]
fn unmapped() {
    let cp437_control = cp437_control();
    for c in "ĄĘĆŹŻŃŁąęćźżńł".chars() {
        assert_eq!(cp437_control.encode(c), None);
    }
}

#[test]
fn borrowed_for_ascii_subset() {
    let cp437_control = cp437_control();
    let mut data = vec![];
    while data.len() <= 0x7F {
        let dlen = data.len();
        data.push(dlen as u8);

        assert!(is_borrowed(&Cow::borrow_from_cp437(&data, &cp437_control)));
        assert!(is_borrowed(&Cow::borrow_from_cp437(&[*data.last().unwrap()], &cp437_control)));
    }
}

#[test]
fn owned_for_ascii_superset() {
    let cp437_control = cp437_control();
    let mut data = vec![];
    while data.len() <= (0xFF - 0x80) {
        let dlen = data.len();
        data.push((dlen + 0x80) as u8);

        assert!(!is_borrowed(&Cow::borrow_from_cp437(&data, &cp437_control)));
        assert!(!is_borrowed(&Cow::borrow_from_cp437(&[*data.last().unwrap()], &cp437_control)));
    }
}

#[test]
fn owned_for_both() {
    let cp437_control = cp437_control();
    let mut superset_idx = 0;
    let mut data = vec![0x80];

    while data.len() <= 0x7F {
        data.pop();
        let dlen = data.len();
        data.push(dlen as u8);
        data.push((0x80 + (superset_idx % (0xFF - 0x80))) as u8);
        superset_idx += 1;

        assert!(!is_borrowed(&Cow::borrow_from_cp437(&data, &cp437_control)));
        assert!(!is_borrowed(&Cow::borrow_from_cp437(&[data[dlen], data[dlen + 1]], &cp437_control)));
    }
}

#[test]
fn control_borrow_slice() {
    let cp437_control = cp437_control();
    assert_eq!(Cow::borrow_from_cp437(&ALL_CP437[..], &cp437_control), ALL_UTF8);
    assert_eq!(String::borrow_from_cp437(&ALL_CP437[..], &cp437_control), ALL_UTF8);
}

#[test]
fn control_from_vec() {
    let cp437_control = cp437_control();
    assert_eq!(String::from_cp437(ALL_CP437.to_vec(), &cp437_control), ALL_UTF8);
    assert_eq!(String::from_cp437(ALL_CP437, &cp437_control), ALL_UTF8);
    assert_eq!(String::from_cp437(ALL_CP437[..0x80].to_vec(), &cp437_control), &ALL_UTF8[..0x80]);
}

#[test]
fn into_cp437_good() {
    let cp437_control = cp437_control();
    let everything_utf8 = ALL_UTF8.to_string() + VARIANTS_UTF8;
    let mut everything_cp437 = ALL_CP437.to_vec();
    everything_cp437.extend(VARIANTS_CP437);

    assert_eq!(everything_utf8.into_cp437(&cp437_control), Ok(everything_cp437));
}

#[test]
fn into_cp437_unrepresentable() {
    let cp437_control = cp437_control();
    let err = "Jurek je żurek w żupanie.".to_string().into_cp437(&cp437_control).unwrap_err();

    assert_eq!(err.as_str(), "Jurek je żurek w żupanie.");
    assert_eq!(err.cp437_error(), Cp437Error { representable_up_to: 9 });
    assert_eq!(err.into_string(), "Jurek je żurek w żupanie.");
}

#[test]
fn borrowed_for_ascii() {
    let cp437_control = cp437_control();
    let mut data = String::new();
    for c in ALL_UTF8.chars().take(0x80) {
        data.push(c);

        assert!(is_borrowed(&data.to_cp437(&cp437_control).unwrap()));
        assert!(is_borrowed(&[c].into_iter().collect::<String>().to_cp437(&cp437_control).unwrap()));
    }
}

#[test]
fn owned_for_beyond_ascii() {
    let cp437_control = cp437_control();
    let mut data = String::new();
    for c in ALL_UTF8.chars().skip(0x80).chain(VARIANTS_UTF8.chars()) {
        data.push(c);

        assert!(!is_borrowed(&data.to_cp437(&cp437_control).unwrap()));
        assert!(!is_borrowed(&[c].into_iter().collect::<String>().to_cp437(&cp437_control).unwrap()));
    }
}

#[test]
fn borrowing_owned_for_both() {
    let cp437_control = cp437_control();
    let mut beyond_iter = ALL_UTF8.chars().skip(0x80).chain(VARIANTS_UTF8.chars()).cycle();

    let mut data = String::new();
    data.push(beyond_iter.next().unwrap());

    for c in ALL_UTF8.chars().take(0x80) {
        let new_beyond = beyond_iter.next().unwrap();

        data.pop();
        data.push(c);
        data.push(new_beyond);

        assert!(!is_borrowed(&data.to_cp437(&cp437_control).unwrap()));
        assert!(!is_borrowed(&[c, new_beyond].into_iter().collect::<String>().to_cp437(&cp437_control).unwrap()));
    }
}

#[test]
fn conversion_good() {
    let cp437_control = cp437_control();
    let everything_utf8 = ALL_UTF8.to_string() + VARIANTS_UTF8;
    let mut everything_cp437 = ALL_CP437.to_vec();
    everything_cp437.extend(VARIANTS_CP437);

    assert_eq!(everything_utf8.to_cp437(&cp437_control), Ok(everything_cp437[..].into()));
    assert_eq!(everything_utf8[..].to_cp437(&cp437_control), Ok(everything_cp437[..].into()));
}

#[test]
fn conversion_unrepresentable() {
    let cp437_control = cp437_control();
    assert_eq!("Jurek je żurek w żupanie.".to_cp437(&cp437_control), Err(Cp437Error { representable_up_to: 9 }));
}

#[test]
fn control_latin_ligature_goes_round() {
    let cp437_control = cp437_control();
    assert_eq!(cp437_control.decode(0x91), '\u{00E6}');
    assert_eq!(cp437_control.encode('\u{00E6}'), Some(0x91));
    assert_eq!("\u{00E6}\u{00E6}\u{017B}\u{00E6}".to_cp437(&cp437_control), Err(Cp437Error { representable_up_to: 2 }));
    assert_eq!("\u{017B}".to_cp437(&cp437_control), Err(Cp437Error { representable_up_to: 0 }));
}

#[test]
fn control_overlap_is_ascii() {
    let cp437_control = cp437_control();
    for b in 0..=0xFFu8 {
        assert_eq!(cp437_control.overlap_cp437(b), b <= 0x7F);
        if cp437_control.overlap_cp437(b) {
            assert_eq!(cp437_control.encode(cp437_control.decode(b)), Some(b));
            assert!(cp437_control.overlap_unicode(b as char));
        }
    }
    assert!(!cp437_control.overlap_unicode('\u{80}'));
    assert!(!cp437_control.overlap_unicode('\u{00E6}'));
}
