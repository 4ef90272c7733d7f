//! The device catalog: the fixed mapping from a 16-byte device identifier
//! to the colour name of the hydrometer that broadcasts it.
//!
//! The mapping is a protocol constant. All eight identifiers share the same
//! bytes except for the fourth one, which is `0x10` for the first colour,
//! `0x20` for the second, and so on; lookup nevertheless compares the full
//! sixteen bytes.

use vstd::prelude::*;

verus! {

/// Number of entries in the catalog.
pub const CATALOG_LEN: usize = 8;

/// The 16-byte identifier of the catalog entry at `color`.
pub open spec fn spec_catalog_id(color: int) -> Seq<u8> {
    seq![
        0xa4u8,
        0x95u8,
        0xbbu8,
        (16 * (color + 1)) as u8,
        0xc5u8,
        0xb1u8,
        0x4bu8,
        0x44u8,
        0xb5u8,
        0x12u8,
        0x13u8,
        0x70u8,
        0xf0u8,
        0x2du8,
        0x74u8,
        0xdeu8,
    ]
}

/// The colour name of the catalog entry at `color`.
pub open spec fn spec_color_name(color: int) -> Seq<char> {
    if color == 0 {
        "Red"@
    } else if color == 1 {
        "Green"@
    } else if color == 2 {
        "Black"@
    } else if color == 3 {
        "Purple"@
    } else if color == 4 {
        "Orange"@
    } else if color == 5 {
        "Blue"@
    } else if color == 6 {
        "Yellow"@
    } else {
        "Pink"@
    }
}

/// Catalog lookup as a mathematical function: the index of the entry whose
/// identifier is `id`, or `None` when no entry has it.
pub open spec fn spec_lookup(id: Seq<u8>) -> Option<int> {
    if id == spec_catalog_id(0) {
        Some(0int)
    } else if id == spec_catalog_id(1) {
        Some(1int)
    } else if id == spec_catalog_id(2) {
        Some(2int)
    } else if id == spec_catalog_id(3) {
        Some(3int)
    } else if id == spec_catalog_id(4) {
        Some(4int)
    } else if id == spec_catalog_id(5) {
        Some(5int)
    } else if id == spec_catalog_id(6) {
        Some(6int)
    } else if id == spec_catalog_id(7) {
        Some(7int)
    } else {
        None
    }
}

/// A lookup result is the only catalog index whose identifier matches.
pub proof fn lemma_lookup_unique(id: Seq<u8>)
    ensures
        match spec_lookup(id) {
            Some(c) => 0 <= c < CATALOG_LEN && id == spec_catalog_id(c) && forall|j: int|
                0 <= j < CATALOG_LEN && j != c ==> id != spec_catalog_id(j),
            None => forall|j: int| 0 <= j < CATALOG_LEN ==> id != spec_catalog_id(j),
        },
{
    assert forall|c: int, j: int|
        0 <= c < CATALOG_LEN && 0 <= j < CATALOG_LEN && c != j implies spec_catalog_id(c)
        != spec_catalog_id(j) by {
        assert(spec_catalog_id(c)[3] != spec_catalog_id(j)[3]);
    }
}

/// Colour names are unique within the catalog, as the identifiers are.
pub proof fn lemma_names_unique(c: int, j: int)
    requires
        0 <= c < CATALOG_LEN,
        0 <= j < CATALOG_LEN,
        c != j,
    ensures
        spec_color_name(c) != spec_color_name(j),
{
    reveal_strlit("Red");
    reveal_strlit("Green");
    reveal_strlit("Black");
    reveal_strlit("Purple");
    reveal_strlit("Orange");
    reveal_strlit("Blue");
    reveal_strlit("Yellow");
    reveal_strlit("Pink");
    assert("Red"@.len() == 3 && "Green"@.len() == 5 && "Black"@.len() == 5);
    assert("Purple"@.len() == 6 && "Orange"@.len() == 6 && "Yellow"@.len() == 6);
    assert("Blue"@.len() == 4 && "Pink"@.len() == 4);
    assert("Green"@[0] == 'G' && "Black"@[0] == 'B');
    assert("Purple"@[0] == 'P' && "Orange"@[0] == 'O' && "Yellow"@[0] == 'Y');
    assert("Blue"@[0] == 'B' && "Pink"@[0] == 'P');
}

/// The identifier of the catalog entry at `color`, as bytes.
pub fn catalog_id(color: usize) -> (r: Vec<u8>)
    requires
        color < CATALOG_LEN,
    ensures
        r@ == spec_catalog_id(color as int),
{
    let fourth: u8 = 16 * (color as u8 + 1);
    let r = vec![
        0xa4u8, 0x95, 0xbb, fourth, 0xc5, 0xb1, 0x4b, 0x44, 0xb5, 0x12, 0x13, 0x70, 0xf0, 0x2d,
        0x74, 0xde,
    ];
    proof {
        assert(r@ =~= spec_catalog_id(color as int));
    }
    r
}

/// The colour name of the catalog entry at `color`.
pub fn color_name(color: usize) -> (r: String)
    requires
        color < CATALOG_LEN,
    ensures
        r@ == spec_color_name(color as int),
{
    match color {
        0 => "Red".to_owned(),
        1 => "Green".to_owned(),
        2 => "Black".to_owned(),
        3 => "Purple".to_owned(),
        4 => "Orange".to_owned(),
        5 => "Blue".to_owned(),
        6 => "Yellow".to_owned(),
        _ => "Pink".to_owned(),
    }
}

fn bytes_match(a: &[u8], b: &Vec<u8>) -> (r: bool)
    ensures
        r == (a@ == b@),
{
    if a.len() != b.len() {
        return false;
    }
    let n = a.len();
    let mut i: usize = 0;
    while i < n
        invariant
            n == a@.len() == b@.len(),
            0 <= i <= n,
            forall|j: int| 0 <= j < i ==> a@[j] == b@[j],
        decreases n - i,
    {
        if a[i] != b[i] {
            return false;
        }
        i += 1;
    }
    proof {
        assert(a@ =~= b@);
    }
    true
}

/// Catalog lookup: the index of the entry whose identifier equals `id`
/// byte for byte, or `None` when `id` belongs to no entry. Total over all
/// byte slices and deterministic; the catalog itself never changes.
pub fn lookup(id: &[u8]) -> (r: Option<usize>)
    ensures
        match r {
            Some(c) => c < CATALOG_LEN && spec_lookup(id@) == Some(c as int),
            None => spec_lookup(id@) is None,
        },
{
    let mut color: usize = 0;
    while color < CATALOG_LEN
        invariant
            0 <= color <= CATALOG_LEN,
            forall|j: int| 0 <= j < color ==> id@ != spec_catalog_id(j),
        decreases CATALOG_LEN - color,
    {
        let entry = catalog_id(color);
        if bytes_match(id, &entry) {
            return Some(color);
        }
        color += 1;
    }
    None
}

/// The whole catalog: the eight identifier/name pairs, in index order.
pub fn tilt_uuids() -> (r: Vec<(Vec<u8>, String)>)
    ensures
        r@.len() == CATALOG_LEN,
        forall|c: int|
            0 <= c < CATALOG_LEN ==> (#[trigger] r@[c]).0@ == spec_catalog_id(c) && r@[c].1@
                == spec_color_name(c),
{
    let mut r: Vec<(Vec<u8>, String)> = Vec::new();
    let mut color: usize = 0;
    while color < CATALOG_LEN
        invariant
            0 <= color <= CATALOG_LEN,
            r@.len() == color,
            forall|c: int|
                0 <= c < color ==> (#[trigger] r@[c]).0@ == spec_catalog_id(c) && r@[c].1@
                    == spec_color_name(c),
        decreases CATALOG_LEN - color,
    {
        let id = catalog_id(color);
        let name = color_name(color);
        r.push((id, name));
        color += 1;
    }
    r
}

} // verus!
