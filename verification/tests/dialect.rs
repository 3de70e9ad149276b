use codepage_437::{
    cp437_control, cp437_wingdings, BorrowFromCp437, Cp437Dialect, Cp437Error, FromCp437,
    InconsistentOverlap, IntoCp437, Mapping, Overlap, ToCp437,
};
use std::borrow::Cow;

fn mapping(cp437: u8, unicode: char) -> Mapping {
    Mapping { cp437, unicode, comment: String::new() }
}

#[test]
fn simple() {
    let cp437_wingdings = cp437_wingdings();
    assert_eq!(cp437_wingdings.encode('√'), Some(0xFB));
    assert_eq!(cp437_wingdings.encode('✓'), Some(0xFB));

    assert_eq!(cp437_wingdings.decode(0xFB), '√');

    let mut mapping = cp437_wingdings.clone();
    mapping.remap(0xFB, '✓');

    assert_eq!(mapping.encode('√'), Some(0xFB));
    assert_eq!(mapping.encode('✓'), Some(0xFB));

    assert_eq!(mapping.decode(0xFB), '✓');
}

#[test]
fn hard() {
    let cp437_wingdings = cp437_wingdings();
    assert_eq!(cp437_wingdings.encode('Ź'), None);
    assert_eq!(cp437_wingdings.encode('A'), Some(0x41));

    assert_eq!(cp437_wingdings.decode(0x41), 'A');

    let mut mapping = cp437_wingdings.clone();
    mapping.remap(0x41, 'Ź');

    assert_eq!(mapping.encode('Ź'), Some(0x41));
    assert_eq!(mapping.encode('A'), Some(0x41)); // NB: still holds

    assert_eq!(mapping.decode(0x41), 'Ź');
}

#[test]
fn double() {
    let cp437_wingdings = cp437_wingdings();
    assert_eq!(cp437_wingdings.encode('Ź'), None);
    assert_eq!(cp437_wingdings.encode('A'), Some(0x41));
    assert_eq!(cp437_wingdings.encode('√'), Some(0xFB));
    assert_eq!(cp437_wingdings.encode('✓'), Some(0xFB));

    assert_eq!(cp437_wingdings.decode(0x41), 'A');
    assert_eq!(cp437_wingdings.decode(0xFB), '√');

    let mut mapping = cp437_wingdings.clone();
    mapping.remap(0x41, 'Ź');
    mapping.remap(0xFB, '✓');

    assert_eq!(mapping.encode('Ź'), Some(0x41));
    assert_eq!(mapping.encode('A'), Some(0x41)); // NB: still holds
    assert_eq!(mapping.encode('√'), Some(0xFB));
    assert_eq!(mapping.encode('✓'), Some(0xFB));

    assert_eq!(mapping.decode(0x41), 'Ź');
    assert_eq!(mapping.decode(0xFB), '✓');
}

#[test]
fn remap_chains_and_leaves_the_clone_source() {
    let cp437_control = cp437_control();
    let mut remapped = cp437_control.clone();
    remapped.remap(0x41, 'Ź').remap(0x42, 'Ż');

    assert_eq!(remapped.decode(0x41), 'Ź');
    assert_eq!(remapped.decode(0x42), 'Ż');
    assert_eq!(remapped.encode('Ż'), Some(0x42));
    assert_eq!(remapped.decode(0x43), 'C');

    assert_eq!(cp437_control.decode(0x41), 'A');
    assert_eq!(cp437_control.decode(0x42), 'B');
    assert_eq!(cp437_control.encode('Ż'), None);
}

#[test]
fn remap_ends_the_overlap() {
    let mut dialect = cp437_control();
    assert!(dialect.overlap_cp437(0x41));
    assert!(dialect.overlap_unicode('A'));
    assert!(dialect.overlap_unicode('B'));

    dialect.remap(0x41, 'B');

    assert!(!dialect.overlap_cp437(0x41));
    assert!(!dialect.overlap_unicode('A'));
    assert!(dialect.overlap_cp437(0x42));
    assert!(!dialect.overlap_unicode('B'));
    assert!(dialect.overlap_cp437(0x43));
    assert!(dialect.overlap_unicode('C'));

    assert_eq!(dialect.decode(0x41), 'B');
    assert_eq!(dialect.decode(0x42), 'B');
    assert_eq!(dialect.encode('B'), Some(0x41));
    assert_eq!(dialect.encode('A'), Some(0x41));
}

#[test]
fn remap_to_an_overlapping_scalar_breaks_its_round_trip() {
    let mut dialect = cp437_control();
    assert_eq!(dialect.encode(dialect.decode(0x41)), Some(0x41));

    dialect.remap(0x42, 'A');

    assert!(dialect.overlap_cp437(0x41));
    assert_eq!(dialect.decode(0x41), 'A');
    assert_eq!(dialect.encode('A'), Some(0x42));
}

#[test]
fn last_remap_wins() {
    let mut dialect = cp437_control();
    dialect.remap(0x41, 'Ź');
    dialect.remap(0x42, 'Ź');
    assert_eq!(dialect.encode('Ź'), Some(0x42));
    assert_eq!(dialect.decode(0x41), 'Ź');
    assert_eq!(dialect.decode(0x42), 'Ź');

    dialect.remap(0x41, 'Ż');
    assert_eq!(dialect.decode(0x41), 'Ż');
    assert_eq!(dialect.encode('Ż'), Some(0x41));
    assert_eq!(dialect.encode('Ź'), Some(0x42));

    dialect.remap(0x41, 'A');
    assert_eq!(dialect.decode(0x41), 'A');
    assert_eq!(dialect.encode('A'), Some(0x41));
    assert!(!dialect.overlap_cp437(0x41));
    assert!(!dialect.overlap_unicode('A'));
}

#[test]
fn remapped_text_is_converted_not_borrowed() {
    let mut dialect = cp437_control();
    dialect.remap(0x41, 'Ź');

    assert_eq!(String::from_cp437(vec![0x41, 0x42, 0x41], &dialect), "ŹBŹ");
    assert_eq!("ŹBŹ".to_cp437(&dialect), Ok([0x41, 0x42, 0x41][..].into()));
    assert_eq!("ABŹ".to_string().into_cp437(&dialect), Ok(vec![0x41, 0x42, 0x41]));
}

#[test]
fn compile_empty_definition_is_identity() {
    let dialect = Cp437Dialect::compile(&[], &[], Overlap::Ascii).unwrap();
    for b in 0..=0xFFu8 {
        assert_eq!(dialect.decode(b), b as char);
    }
    assert_eq!(dialect.encode('A'), Some(0x41));
    assert_eq!(dialect.encode('\u{7F}'), Some(0x7F));
    assert_eq!(dialect.encode('\u{80}'), None);
    assert_eq!(dialect.encode('\u{E6}'), None);
}

#[test]
fn compile_last_primary_wins() {
    let primary = [mapping(0x80, 'Ç'), mapping(0x81, 'ü'), mapping(0x80, 'é')];
    let dialect = Cp437Dialect::compile(&primary, &[], Overlap::Ascii).unwrap();
    assert_eq!(dialect.decode(0x80), 'é');
    assert_eq!(dialect.decode(0x81), 'ü');
    assert_eq!(dialect.decode(0x82), '\u{82}');
    assert_eq!(dialect.encode('Ç'), Some(0x80));
    assert_eq!(dialect.encode('é'), Some(0x80));
}

#[test]
fn compile_many_scalars_to_one_byte() {
    let primary = [mapping(0xFB, '√')];
    let variants = [mapping(0xFB, '✓'), mapping(0xFB, '✔')];
    let dialect = Cp437Dialect::compile(&primary, &variants, Overlap::Printable).unwrap();
    assert_eq!(dialect.encode('√'), Some(0xFB));
    assert_eq!(dialect.encode('✓'), Some(0xFB));
    assert_eq!(dialect.encode('✔'), Some(0xFB));
    assert_eq!(dialect.decode(0xFB), '√');
}

#[test]
fn variant_comes_before_primary() {
    let primary = [mapping(0x90, '✓'), mapping(0x91, 'æ')];
    let variants = [mapping(0xFB, '✓')];
    let dialect = Cp437Dialect::compile(&primary, &variants, Overlap::Ascii).unwrap();
    assert_eq!(dialect.encode('✓'), Some(0xFB));
    assert_eq!(dialect.decode(0x90), '✓');
    assert_eq!(dialect.decode(0xFB), '\u{FB}');
    assert_eq!(dialect.encode('æ'), Some(0x91));
}

#[test]
fn last_variant_wins() {
    let variants = [mapping(0xE3, 'Π'), mapping(0xE4, 'Π')];
    let dialect = Cp437Dialect::compile(&[], &variants, Overlap::Ascii).unwrap();
    assert_eq!(dialect.encode('Π'), Some(0xE4));

    let primary = [mapping(0x90, 'é'), mapping(0x82, 'é')];
    let dialect = Cp437Dialect::compile(&primary, &[], Overlap::Ascii).unwrap();
    assert_eq!(dialect.encode('é'), Some(0x82));
}

#[test]
fn compile_refuses_a_primary_on_an_overlapping_byte() {
    let primary = [mapping(0x80, 'Ç'), mapping(0x41, 'Ź')];
    assert_eq!(
        Cp437Dialect::compile(&primary, &[], Overlap::Ascii).err(),
        Some(InconsistentOverlap { cp437: 0x41 })
    );
    assert_eq!(
        Cp437Dialect::compile(&primary, &[], Overlap::Printable).err(),
        Some(InconsistentOverlap { cp437: 0x41 })
    );
}

#[test]
fn compile_refuses_a_mapping_of_an_overlapping_scalar() {
    let variants = [mapping(0x42, 'A')];
    assert_eq!(
        Cp437Dialect::compile(&[], &variants, Overlap::Ascii).err(),
        Some(InconsistentOverlap { cp437: 0x41 })
    );
    let primary = [mapping(0x80, 'z'), mapping(0x81, '0')];
    assert_eq!(
        Cp437Dialect::compile(&primary, &[], Overlap::Ascii).err(),
        Some(InconsistentOverlap { cp437: 0x30 })
    );
}

#[test]
fn compile_overlap_rule_decides() {
    let primary = [mapping(0x01, '☺'), mapping(0x7F, '⌂')];
    assert_eq!(
        Cp437Dialect::compile(&primary, &[], Overlap::Ascii).err(),
        Some(InconsistentOverlap { cp437: 0x01 })
    );
    let dialect = Cp437Dialect::compile(&primary, &[], Overlap::Printable).unwrap();
    assert_eq!(dialect.decode(0x01), '☺');
    assert_eq!(dialect.decode(0x7F), '⌂');
    assert_eq!(dialect.decode(0x02), '\u{02}');
    assert_eq!(dialect.encode('\u{02}'), None);
    assert_eq!(dialect.encode('☺'), Some(0x01));
    assert!(!dialect.overlap_cp437(0x02));
    assert!(dialect.overlap_cp437(0x00));
}

#[test]
fn compile_accepts_an_identity_mapping_of_an_overlapping_byte() {
    let primary = [mapping(0x41, 'Ź'), mapping(0x41, 'A')];
    let dialect = Cp437Dialect::compile(&primary, &[], Overlap::Ascii).unwrap();
    assert_eq!(dialect.decode(0x41), 'A');
    assert_eq!(dialect.encode('A'), Some(0x41));
    assert_eq!(dialect.encode('Ź'), Some(0x41));
}

#[test]
fn from_pairs_is_compile_without_comments() {
    let dialect = Cp437Dialect::from_pairs(vec![(0x91, 'æ')], vec![(0x91, 'ǽ')], Overlap::Ascii).unwrap();
    assert_eq!(dialect.decode(0x91), 'æ');
    assert_eq!(dialect.encode('ǽ'), Some(0x91));
    assert_eq!(
        Cp437Dialect::from_pairs(vec![(0x20, '_')], vec![], Overlap::Printable).err(),
        Some(InconsistentOverlap { cp437: 0x20 })
    );
}

#[test]
fn cut_point_counts_characters() {
    let cp437_control = cp437_control();
    assert_eq!("ABξC".to_cp437(&cp437_control), Err(Cp437Error { representable_up_to: 2 }));
    let err = "ABξC".to_string().into_cp437(&cp437_control).unwrap_err();
    assert_eq!(err.cp437_error().representable_up_to, 2);
    assert_eq!(err.as_str(), "ABξC");
    assert_eq!(err.into_string(), "ABξC");

    assert_eq!("æ√ξC".to_cp437(&cp437_control), Err(Cp437Error { representable_up_to: 2 }));
    assert_eq!("ξ".to_cp437(&cp437_control), Err(Cp437Error { representable_up_to: 0 }));
    assert_eq!("".to_cp437(&cp437_control), Ok([][..].into()));
}

#[test]
fn overlap_rules() {
    for b in 0..=0xFFu8 {
        assert_eq!(Overlap::Ascii.overlap_cp437(b), b < 0x80);
        assert_eq!(Overlap::Printable.overlap_cp437(b), b == 0 || (b >= 0x20 && b <= 0x7E));
        assert_eq!(Overlap::Ascii.overlap_unicode(b as char), b < 0x80);
        assert_eq!(Overlap::Printable.overlap_unicode(b as char), b == 0 || (b >= 0x20 && b <= 0x7E));
    }
    assert!(!Overlap::Ascii.overlap_unicode('√'));
    assert!(!Overlap::Printable.overlap_unicode('\u{10FFFF}'));
}

#[test]
fn dialects_compare_by_what_they_hold() {
    let control = cp437_control();
    assert_eq!(control, cp437_control());
    assert_eq!(control, control.clone());
    assert_ne!(control, cp437_wingdings());

    let mut remapped = control.clone();
    remapped.remap(0x41, 'A');
    assert_ne!(remapped, control);

    let mut again = control.clone();
    again.remap(0x41, 'A');
    assert_eq!(remapped, again);
    assert_eq!(remapped.clone(), again);
}

#[test]
fn old_scalar_of_a_remapped_byte_overlaps_no_longer() {
    let mut dialect = cp437_control();
    assert!(dialect.overlap_unicode('A'));
    assert!(matches!("A".to_cp437(&dialect), Ok(Cow::Borrowed(_))));

    dialect.remap(0x41, 'Ź');

    assert_eq!(dialect.decode(0x41), 'Ź');
    assert!(!dialect.overlap_unicode('A'));
    assert!(!dialect.overlap_unicode('Ź'));
    assert!(!dialect.overlap_cp437(0x41));
    assert_eq!(dialect.encode('A'), Some(0x41));

    let converted = "A".to_cp437(&dialect);
    assert!(matches!(converted, Ok(Cow::Owned(_))));
    assert_eq!(converted, Ok([0x41][..].into()));
    assert_eq!("A".to_string().into_cp437(&dialect), Ok(vec![0x41]));

    assert!(matches!("B".to_cp437(&dialect), Ok(Cow::Borrowed(_))));
    let decoded: Cow<str> = Cow::borrow_from_cp437(&[0x42u8, 0x43][..], &dialect);
    assert!(matches!(decoded, Cow::Borrowed("BC")));
    let decoded: Cow<str> = Cow::borrow_from_cp437(&[0x41u8][..], &dialect);
    assert!(matches!(decoded, Cow::Owned(_)));
    assert_eq!(decoded, "Ź");
}

#[test]
fn overlap_reads_the_decode_table_and_the_history() {
    for base in [cp437_control(), cp437_wingdings()] {
        let mut dialect = base.clone();
        dialect.remap(0x41, 'Ź').remap(0x42, 'C').remap(0x30, '0').remap(0x91, 'x').remap(0x00, '\u{1}');
        let remapped_bytes = [0x41u8, 0x42, 0x30, 0x91, 0x00];
        let remapped_to = ['Ź', 'C', '0', 'x', '\u{1}'];
        for b in 0..=0xFFu8 {
            let c = b as char;
            assert_eq!(
                dialect.overlap_cp437(b),
                dialect.decode(b) == c && !remapped_bytes.contains(&b),
                "byte {:#04x}",
                b
            );
            assert_eq!(
                dialect.overlap_unicode(c),
                dialect.decode(b) == c && !remapped_to.contains(&c),
                "scalar {:#04x}",
                b
            );
        }
        assert!(!dialect.overlap_unicode('\u{100}'));
        assert!(!dialect.overlap_unicode('Ź'));
    }
}
