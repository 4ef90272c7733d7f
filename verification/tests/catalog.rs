use tiltr::catalog::{catalog_id, color_name, lookup, tilt_uuids, CATALOG_LEN};

const NAMES: [&str; 8] = [
    "Red", "Green", "Black", "Purple", "Orange", "Blue", "Yellow", "Pink",
];

#[test]
fn every_identifier_resolves_to_its_colour() {
    for color in 0..CATALOG_LEN {
        let id = catalog_id(color);
        assert_eq!(id.len(), 16);
        assert_eq!(lookup(&id), Some(color));
        assert_eq!(color_name(color), NAMES[color]);
    }
}

#[test]
fn identifiers_differ_only_in_the_fourth_byte() {
    for color in 0..CATALOG_LEN {
        let id = catalog_id(color);
        assert_eq!(id[3], 16 * (color as u8 + 1));
        assert_eq!(
            id,
            vec![
                0xa4,
                0x95,
                0xbb,
                16 * (color as u8 + 1),
                0xc5,
                0xb1,
                0x4b,
                0x44,
                0xb5,
                0x12,
                0x13,
                0x70,
                0xf0,
                0x2d,
                0x74,
                0xde,
            ]
        );
    }
}

#[test]
fn unknown_identifiers_resolve_to_nothing() {
    assert_eq!(lookup(&[]), None);
    assert_eq!(lookup(&[0xa4; 16]), None);
    assert_eq!(lookup(&[0xa4, 0x95, 0xbb]), None);

    let mut near_miss = catalog_id(0);
    near_miss[15] = 0xdf;
    assert_eq!(lookup(&near_miss), None);

    let mut short = catalog_id(7);
    short.pop();
    assert_eq!(lookup(&short), None);

    let mut long = catalog_id(7);
    long.push(0);
    assert_eq!(lookup(&long), None);
}

#[test]
fn the_catalog_lists_all_eight_devices() {
    let entries = tilt_uuids();
    assert_eq!(entries.len(), 8);
    for (color, (id, name)) in entries.iter().enumerate() {
        assert_eq!(*id, catalog_id(color));
        assert_eq!(*name, NAMES[color]);
    }
    assert_eq!(entries[7].1, "Pink");
}
