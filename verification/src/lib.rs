//! Nearest-entry chroma quantizer over a fixed sixteen-entry table.
//!
//! Chroma values are carried in fixed point, as signed counts of nano-units
//! (billionths of one chroma unit). Every entry of the quantization table is
//! exact in nano-units, so the nearest-entry search is decided by exact
//! integer arithmetic.
//!
//! The table is strictly increasing and symmetric around zero, with a gap at
//! the center. `chroma_of_index` reads an entry; `index_of_chroma` scans the
//! table in ascending index order and keeps the first index whose distance to
//! the input strictly improves on the best distance seen so far, starting
//! from index 0 with a sentinel distance of one whole unit. On an exact tie
//! the lower index therefore wins, and an input farther than the sentinel
//! from every entry falls back to index 0.

use vstd::prelude::*;

verus! {

/// Number of entries in the quantization table.
pub const TABLE_LEN: usize = 16;

/// One whole chroma unit in nano-units. This is also the initial best
/// distance of the nearest-entry scan: an input within one unit of some
/// table entry always beats it, while an input farther than one unit from
/// every entry leaves the scan's fallback index 0 in place.
pub const SENTINEL_NANOS: i64 = 1_000_000_000;

/// A chroma value in fixed point: a signed count of nano-units
/// (billionths of one chroma unit).
#[derive(Clone, Copy, Debug, PartialEq, Eq, Structural)]
pub struct Chroma {
    pub nanos: i64,
}

impl View for Chroma {
    type V = int;

    open spec fn view(&self) -> int {
        self.nanos as int
    }
}

/// Entry `i` of the quantization table, in nano-units.
/// Meaningful for `0 <= i < 16`; every other argument yields the last entry.
pub open spec fn table_entry(i: int) -> int {
    if i <= 0 {
        -350_000_000
    } else if i == 1 {
        -200_000_000
    } else if i == 2 {
        -150_000_000
    } else if i == 3 {
        -100_000_000
    } else if i == 4 {
        -77_000_000
    } else if i == 5 {
        -55_000_000
    } else if i == 6 {
        -33_000_000
    } else if i == 7 {
        -11_000_000
    } else if i == 8 {
        11_000_000
    } else if i == 9 {
        33_000_000
    } else if i == 10 {
        55_000_000
    } else if i == 11 {
        77_000_000
    } else if i == 12 {
        100_000_000
    } else if i == 13 {
        150_000_000
    } else if i == 14 {
        200_000_000
    } else {
        350_000_000
    }
}

/// Absolute difference of two integers.
pub open spec fn abs_diff(a: int, b: int) -> int {
    if a >= b {
        a - b
    } else {
        b - a
    }
}

/// Distance, in nano-units, from the chroma value `x` to table entry `j`.
pub open spec fn entry_dist(x: int, j: int) -> int {
    abs_diff(table_entry(j), x)
}

/// Best (smallest) distance seen by the nearest-entry scan after the first
/// `n` table entries, starting from the sentinel distance.
pub open spec fn best_dist_upto(x: int, n: int) -> int
    decreases n,
{
    if n <= 0 {
        SENTINEL_NANOS as int
    } else if entry_dist(x, n - 1) < best_dist_upto(x, n - 1) {
        entry_dist(x, n - 1)
    } else {
        best_dist_upto(x, n - 1)
    }
}

/// Index kept by the nearest-entry scan after the first `n` table entries:
/// the scan starts at index 0 and moves only on a strict improvement of the
/// best distance, so on a tie the earlier index stays.
pub open spec fn best_index_upto(x: int, n: int) -> int
    decreases n,
{
    if n <= 0 {
        0
    } else if entry_dist(x, n - 1) < best_dist_upto(x, n - 1) {
        n - 1
    } else {
        best_index_upto(x, n - 1)
    }
}

/// The index that the chroma value `x` quantizes to: the result of the
/// nearest-entry scan over the whole table.
pub open spec fn quantized_index(x: int) -> int {
    best_index_upto(x, TABLE_LEN as int)
}

/// The quantization table as a vector, entry by entry in nano-units.
fn table() -> (t: Vec<i64>)
    ensures
        t@.len() == TABLE_LEN,
        forall|j: int| 0 <= j < TABLE_LEN ==> t@[j] as int == table_entry(j),
{
    let mut t: Vec<i64> = Vec::new();
    t.push(-350_000_000);
    t.push(-200_000_000);
    t.push(-150_000_000);
    t.push(-100_000_000);
    t.push(-77_000_000);
    t.push(-55_000_000);
    t.push(-33_000_000);
    t.push(-11_000_000);
    t.push(11_000_000);
    t.push(33_000_000);
    t.push(55_000_000);
    t.push(77_000_000);
    t.push(100_000_000);
    t.push(150_000_000);
    t.push(200_000_000);
    t.push(350_000_000);
    t
}

/// Given an `index` in the [0, 15] range, returns the chroma value for that
/// index. Indices at or beyond the table length are ruled out by the
/// precondition; a caller that breaks it hits the vector's bounds check.
pub fn chroma_of_index(index: usize) -> (c: Chroma)
    requires
        index < TABLE_LEN,
    ensures
        c@ == table_entry(index as int),
{
    let t = table();
    Chroma { nanos: t[index] }
}

/// The table entries strictly increase with the index.
pub proof fn lemma_table_strictly_increasing(i: int, j: int)
    requires
        0 <= i < j < TABLE_LEN,
    ensures
        table_entry(i) < table_entry(j),
{
}

/// What the nearest-entry scan guarantees after its first `n` steps: the
/// best distance never exceeds the sentinel and bounds every scanned
/// distance from below; while it is still the sentinel the fallback index 0
/// is kept; once it has dropped below the sentinel, the kept index is the
/// earliest scanned index at the best distance.
proof fn lemma_scan_characterization(x: int, n: int)
    requires
        0 <= n <= TABLE_LEN,
    ensures
        0 <= best_index_upto(x, n) < TABLE_LEN,
        0 <= best_dist_upto(x, n) <= SENTINEL_NANOS as int,
        forall|j: int| 0 <= j < n ==> best_dist_upto(x, n) <= entry_dist(x, j),
        best_dist_upto(x, n) < SENTINEL_NANOS as int ==> best_index_upto(x, n) < n,
        best_dist_upto(x, n) < SENTINEL_NANOS as int ==> entry_dist(
            x,
            best_index_upto(x, n),
        ) == best_dist_upto(x, n),
        best_dist_upto(x, n) == SENTINEL_NANOS as int ==> best_index_upto(x, n) == 0,
        forall|j: int| 0 <= j < best_index_upto(x, n) ==> entry_dist(x, j) > best_dist_upto(x, n),
    decreases n,
{
    if n > 0 {
        lemma_scan_characterization(x, n - 1);
    }
}

/// Nearest-entry law: whenever some table entry lies strictly within the
/// sentinel distance of `x`, the quantized index points at an entry of
/// minimal distance to `x`, and every earlier entry is strictly farther —
/// so on an exact tie between two entries the lower index wins.
pub proof fn lemma_quantized_index_nearest(x: int)
    requires
        exists|j: int| 0 <= j < TABLE_LEN && entry_dist(x, j) < SENTINEL_NANOS as int,
    ensures
        0 <= quantized_index(x) < TABLE_LEN,
        forall|j: int|
            0 <= j < TABLE_LEN ==> entry_dist(x, quantized_index(x)) <= #[trigger] entry_dist(
                x,
                j,
            ),
        forall|j: int|
            0 <= j < quantized_index(x) ==> #[trigger] entry_dist(x, j) > entry_dist(
                x,
                quantized_index(x),
            ),
{
    lemma_scan_characterization(x, TABLE_LEN as int);
    let jw: int = choose|j: int|
        0 <= j < TABLE_LEN && entry_dist(x, j) < SENTINEL_NANOS as int;
    assert(best_dist_upto(x, TABLE_LEN as int) <= entry_dist(x, jw));
}

/// Sentinel fallback law: an input farther than the sentinel distance from
/// every table entry quantizes to the fallback index 0.
pub proof fn lemma_quantized_index_far(x: int)
    requires
        forall|j: int| 0 <= j < TABLE_LEN ==> entry_dist(x, j) >= SENTINEL_NANOS as int,
    ensures
        quantized_index(x) == 0,
{
    lemma_scan_characterization(x, TABLE_LEN as int);
    let b: int = best_index_upto(x, TABLE_LEN as int);
    if best_dist_upto(x, TABLE_LEN as int) < SENTINEL_NANOS as int {
        assert(entry_dist(x, b) >= SENTINEL_NANOS as int);
        assert(false);
    }
}

/// Round-trip law: every table entry quantizes back to its own index, so
/// quantizing the chroma value of any index recovers that index exactly.
pub proof fn lemma_round_trip(i: int)
    requires
        0 <= i < TABLE_LEN,
    ensures
        quantized_index(table_entry(i)) == i,
{
    let x: int = table_entry(i);
    lemma_scan_characterization(x, TABLE_LEN as int);
    assert(entry_dist(x, i) == 0);
    let b: int = best_index_upto(x, TABLE_LEN as int);
    if b < i {
        lemma_table_strictly_increasing(b, i);
    } else if b > i {
        lemma_table_strictly_increasing(i, b);
    }
}

/// Low-boundary law: every chroma value at or below the first (smallest)
/// table entry quantizes to index 0, however far below it lies.
pub proof fn lemma_low_maps_to_first(x: int)
    requires
        x <= table_entry(0),
    ensures
        quantized_index(x) == 0,
{
    lemma_scan_characterization(x, TABLE_LEN as int);
    let b: int = best_index_upto(x, TABLE_LEN as int);
    if best_dist_upto(x, TABLE_LEN as int) < SENTINEL_NANOS as int && b != 0 {
        lemma_table_strictly_increasing(0, b);
        assert(best_dist_upto(x, TABLE_LEN as int) <= entry_dist(x, 0));
        assert(false);
    }
}

/// High-boundary law: every chroma value at or above the last (largest)
/// table entry, and strictly within the sentinel distance of it, quantizes
/// to the last index. Farther inputs fall back to index 0 instead (see
/// `lemma_quantized_index_far`).
pub proof fn lemma_high_maps_to_last(x: int)
    requires
        table_entry(TABLE_LEN - 1) <= x,
        x < table_entry(TABLE_LEN - 1) + SENTINEL_NANOS as int,
    ensures
        quantized_index(x) == TABLE_LEN - 1,
{
    lemma_scan_characterization(x, TABLE_LEN as int);
    assert(best_dist_upto(x, TABLE_LEN as int) <= entry_dist(x, TABLE_LEN - 1));
    let b: int = best_index_upto(x, TABLE_LEN as int);
    if b != TABLE_LEN - 1 {
        lemma_table_strictly_increasing(b, TABLE_LEN - 1);
        assert(false);
    }
}

/// Given a chroma value, returns the index of its closest table entry,
/// scanning in ascending index order and keeping the first index that
/// strictly improves on the best distance so far.
#[verifier::loop_isolation(false)]
pub fn index_of_chroma(chroma: Chroma) -> (i: usize)
    ensures
        i < TABLE_LEN,
        i as int == quantized_index(chroma@),
{
    let t = table();
    let x = chroma.nanos;
    let mut best_i: usize = 0;
    let mut best_d: i128 = SENTINEL_NANOS as i128;
    let mut k: usize = 0;
    while k < TABLE_LEN
        invariant
            k <= TABLE_LEN,
            best_i < TABLE_LEN,
            best_i as int == best_index_upto(chroma@, k as int),
            best_d as int == best_dist_upto(chroma@, k as int),
        decreases TABLE_LEN - k,
    {
        let e = t[k];
        let diff: i128 = (e as i128) - (x as i128);
        let d: i128 = if diff < 0 {
            -diff
        } else {
            diff
        };
        if d < best_d {
            best_i = k;
            best_d = d;
        }
        k = k + 1;
    }
    best_i
}

} // verus!
