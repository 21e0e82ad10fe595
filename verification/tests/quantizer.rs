use chroma_quant::{chroma_of_index, index_of_chroma, Chroma, SENTINEL_NANOS, TABLE_LEN};

#[test]
fn test_exact() {
    for i in 0..16 {
        assert_eq!(i, index_of_chroma(chroma_of_index(i)));
    }
}

#[test]
fn test_inexact() {
    assert_eq!(0, index_of_chroma(Chroma { nanos: -500_000_000 }));
    assert_eq!(0, index_of_chroma(Chroma { nanos: -300_000_000 }));
    assert_eq!(1, index_of_chroma(Chroma { nanos: -250_000_000 }));
    assert_eq!(4, index_of_chroma(Chroma { nanos: -80_000_000 }));
    assert_eq!(7, index_of_chroma(Chroma { nanos: -10 }));
    assert_eq!(7, index_of_chroma(Chroma { nanos: 0 }));
    assert_eq!(8, index_of_chroma(Chroma { nanos: 10 }));
    assert_eq!(12, index_of_chroma(Chroma { nanos: 120_000_000 }));
    assert_eq!(14, index_of_chroma(Chroma { nanos: 250_000_000 }));
    assert_eq!(15, index_of_chroma(Chroma { nanos: 300_000_000 }));
    assert_eq!(15, index_of_chroma(Chroma { nanos: 500_000_000 }));
}

#[test]
#[should_panic]
fn test_out_of_bounds() {
    chroma_of_index(20);
}

#[test]
fn test_table_values() {
    assert_eq!(Chroma { nanos: -350_000_000 }, chroma_of_index(0));
    assert_eq!(Chroma { nanos: -11_000_000 }, chroma_of_index(7));
    assert_eq!(Chroma { nanos: 11_000_000 }, chroma_of_index(8));
    assert_eq!(Chroma { nanos: 350_000_000 }, chroma_of_index(15));
}

#[test]
fn test_boundary_entries_quantize_to_ends() {
    assert_eq!(0, index_of_chroma(Chroma { nanos: -350_000_000 }));
    assert_eq!(15, index_of_chroma(Chroma { nanos: 350_000_000 }));
}

#[test]
fn test_ties_pick_lower_index() {
    // Exactly halfway between entries 0 (-0.35) and 1 (-0.20).
    assert_eq!(0, index_of_chroma(Chroma { nanos: -275_000_000 }));
    // Exactly halfway between entries 8 (0.011) and 9 (0.033).
    assert_eq!(8, index_of_chroma(Chroma { nanos: 22_000_000 }));
}

#[test]
fn test_sentinel_fallback() {
    // Inputs farther than one whole unit from every entry keep the
    // fallback index 0, even far above the table's last entry.
    let last = chroma_of_index(TABLE_LEN - 1).nanos;
    assert_eq!(0, index_of_chroma(Chroma { nanos: 2_000_000_000 }));
    assert_eq!(0, index_of_chroma(Chroma { nanos: i64::MAX }));
    assert_eq!(0, index_of_chroma(Chroma { nanos: i64::MIN }));
    // Just inside the sentinel radius of the last entry: still index 15.
    assert_eq!(15, index_of_chroma(Chroma { nanos: last + SENTINEL_NANOS - 1 }));
    // At the sentinel radius the strict comparison no longer improves.
    assert_eq!(0, index_of_chroma(Chroma { nanos: last + SENTINEL_NANOS }));
}
