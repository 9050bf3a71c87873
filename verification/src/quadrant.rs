//! Quadrant folding: the decisions at the heart of the table engine.
//!
//! The floating-point rim reduces an angle to four discrete facts — whether
//! the angle was negative, how many whole quarter-turns and half-turns its
//! magnitude contains, and the rounded table index of what is left — and the
//! functions here turn those facts into the two things the lookup needs:
//! which table slot to read, and whether to negate what is read.

use vstd::prelude::*;

verus! {

/// Where a folded angle lands in a quarter-wave table of `len` samples:
/// either a sample index in `[0, len)`, or the upper boundary of the
/// quadrant, whose sine is exactly 1 and which the table (sampled over a
/// half-open interval) does not store.
#[derive(Clone, Copy, Debug, PartialEq, Eq, Structural)]
pub enum TableSlot {
    Sample(usize),
    Boundary,
}

/// In every other quadrant the sine falls instead of rising, and the table
/// must be read back-to-front.
pub open spec fn reversed(quarter_turns: u64) -> bool {
    quarter_turns % 2 == 1
}

/// Every half-turn the sine changes sign; combined (exclusive-or) with the
/// sign of the original angle, since sine is odd.
pub open spec fn flipped(negative: bool, half_turns: u64) -> bool {
    negative != (half_turns % 2 == 1)
}

/// The slot read for a folded angle: the raw index is capped at the quadrant
/// boundary, mirrored when the quadrant runs backwards, and an index that
/// reaches `len` names the boundary itself.
pub open spec fn slot_of(quarter_turns: u64, raw_index: usize, len: usize) -> TableSlot {
    let capped: int = if raw_index > len {
        len as int
    } else {
        raw_index as int
    };
    let mirrored: int = if reversed(quarter_turns) {
        len - capped
    } else {
        capped
    };
    if mirrored >= len {
        TableSlot::Boundary
    } else {
        TableSlot::Sample(mirrored as usize)
    }
}

/// Fold an angle's discrete description onto the quarter-wave table.
///
/// `negative` records the sign of the angle; `quarter_turns` and
/// `half_turns` are the whole quarter-turns and half-turns contained in its
/// magnitude; `raw_index` is the magnitude's remainder within its quadrant,
/// rounded to table cells; `len` is the table length. Returns the slot to
/// read and whether the value read must be negated.
pub fn fold_angle(
    negative: bool,
    quarter_turns: u64,
    half_turns: u64,
    raw_index: usize,
    len: usize,
) -> (r: (TableSlot, bool))
    ensures
        r.0 == slot_of(quarter_turns, raw_index, len),
        r.1 == flipped(negative, half_turns),
        r.0 matches TableSlot::Sample(i) ==> i < len,
{
    let capped: usize = if raw_index > len {
        len
    } else {
        raw_index
    };
    let is_reverse = quarter_turns % 2 == 1;
    let mirrored: usize = if is_reverse {
        len - capped
    } else {
        capped
    };
    let slot = if mirrored >= len {
        TableSlot::Boundary
    } else {
        TableSlot::Sample(mirrored)
    };
    let negate = negative ^ (half_turns % 2 == 1);
    (slot, negate)
}

/// What a slot holds in a given sample table: the stored sample for an
/// index, the given boundary value (the sine of a whole quarter-turn, 1)
/// for the boundary, which the half-open table stores no sample for.
pub open spec fn slot_value<T>(table: Seq<T>, slot: TableSlot, boundary: T) -> T {
    match slot {
        TableSlot::Sample(i) => table[i as int],
        TableSlot::Boundary => boundary,
    }
}

/// Read a slot out of a sample table. A slot produced by folding against
/// this table's length is always in bounds, so the read cannot fail.
pub fn read_slot<T: Copy>(table: &[T], slot: TableSlot, boundary: T) -> (r: T)
    requires
        slot matches TableSlot::Sample(i) ==> i < table@.len(),
    ensures
        r == slot_value(table@, slot, boundary),
{
    match slot {
        TableSlot::Sample(i) => table[i],
        TableSlot::Boundary => boundary,
    }
}

/// The discrete whole of a sine lookup: fold the angle's description onto
/// the table, read the slot, and say whether the caller must negate what was
/// read. Everything of the evaluation but the negation itself is decided
/// and done here.
pub fn reconstruct<T: Copy>(
    table: &[T],
    negative: bool,
    quarter_turns: u64,
    half_turns: u64,
    raw_index: usize,
    boundary: T,
) -> (r: (T, bool))
    ensures
        r.0 == slot_value(
            table@,
            slot_of(quarter_turns, raw_index, table@.len() as usize),
            boundary,
        ),
        r.1 == flipped(negative, half_turns),
{
    let (slot, negate) = fold_angle(negative, quarter_turns, half_turns, raw_index, table.len());
    let value = read_slot(table, slot, boundary);
    (value, negate)
}

/// Sine is odd: the slot never depends on the angle's sign, and flipping
/// that sign negates the combined sign correction, so the reconstructed
/// value of the opposite angle is exactly the negated value.
pub proof fn lemma_fold_odd(negative: bool, half_turns: u64)
    ensures
        flipped(!negative, half_turns) == !flipped(negative, half_turns),
{
}

/// Positions on the sample grid: with a table of `len` samples a
/// quarter-turn spans `len` cells, so grid position `p` stands for the angle
/// of `p / len` quarter-turns. Folding `p` into the first quadrant by the
/// symmetries of the sine — within a full turn of `4·len` cells, the second
/// quadrant mirrors the first, and the second half-turn repeats the first —
/// gives a cell in `[0, len]`.
pub open spec fn circle_cell(p: int, len: int) -> int {
    let m = p % (4 * len);
    if m <= len {
        m
    } else if m <= 2 * len {
        2 * len - m
    } else if m <= 3 * len {
        m - 2 * len
    } else {
        4 * len - m
    }
}

/// Whether the sine is negative (or a negated zero) at grid position `p`:
/// true on the second half of every turn.
pub open spec fn circle_negative(p: int, len: int) -> bool {
    p % (4 * len) > 2 * len
}

/// The slot that grid position `p` folds to: cell `len` is the quadrant
/// boundary, every other cell is a stored sample.
pub open spec fn circle_slot(p: int, len: int) -> TableSlot {
    if circle_cell(p, len) == len {
        TableSlot::Boundary
    } else {
        TableSlot::Sample(circle_cell(p, len) as usize)
    }
}

/// The folding decisions track the circle. A magnitude of `quarter_turns`
/// whole quarter-turns plus `raw_index` rounded cells sits at grid position
/// `quarter_turns · len + raw_index`; the slot chosen by [`slot_of`] is
/// exactly that position folded into the first quadrant, and the sign chosen
/// by [`flipped`] (with the half-turn count `quarter_turns / 2`) is exactly
/// the sign of the sine there, odd in the original angle's sign. The one
/// exception is a position whose folded cell is 0: the sample read there is
/// sin(0) = 0, and the two sides may then name opposite signs of that zero.
pub proof fn lemma_fold_tracks_circle(
    negative: bool,
    quarter_turns: u64,
    raw_index: usize,
    len: usize,
)
    requires
        1 <= len,
        raw_index <= len,
    ensures
        slot_of(quarter_turns, raw_index, len) == circle_slot(
            quarter_turns * len + raw_index,
            len as int,
        ),
        circle_cell(quarter_turns * len + raw_index, len as int) != 0 ==> flipped(
            negative,
            quarter_turns / 2,
        ) == (negative != circle_negative(quarter_turns * len + raw_index, len as int)),
{
    let q = quarter_turns as int;
    let r = raw_index as int;
    let ll = len as int;
    let p = q * ll + r;
    let q4 = q % 4;
    let k = q / 4;
    vstd::arithmetic::div_mod::lemma_fundamental_div_mod(q, 4);
    assert(q == 4 * k + q4);
    assert(p == k * (4 * ll) + (q4 * ll + r)) by (nonlinear_arith)
        requires
            q == 4 * k + q4,
            p == q * ll + r,
    ;
    if q4 == 3 && r == ll {
        assert(p == (k + 1) * (4 * ll) + 0) by (nonlinear_arith)
            requires
                p == k * (4 * ll) + (q4 * ll + r),
                q4 == 3,
                r == ll,
        ;
        vstd::arithmetic::div_mod::lemma_fundamental_div_mod_converse(p, 4 * ll, k + 1, 0);
        assert(p % (4 * ll) == 0);
    } else {
        assert(0 <= q4 * ll + r < 4 * ll) by (nonlinear_arith)
            requires
                0 <= q4 < 4,
                0 <= r <= ll,
                1 <= ll,
                !(q4 == 3 && r == ll),
        ;
        vstd::arithmetic::div_mod::lemma_fundamental_div_mod_converse(p, 4 * ll, k, q4 * ll + r);
        assert(p % (4 * ll) == q4 * ll + r);
    }
    vstd::arithmetic::div_mod::lemma_mod_breakdown(q, 2, 2);
    assert(q % 4 == 2 * ((q / 2) % 2) + q % 2);
    assert((quarter_turns % 2) as int == q % 2);
    assert((quarter_turns / 2) as int == q / 2);
    let m = p % (4 * ll);
    assert(reversed(quarter_turns) <==> (q4 == 1 || q4 == 3));
    assert((q / 2) % 2 == 1 <==> (q4 == 2 || q4 == 3));
    if q4 == 3 && r == ll {
        assert(m == 0);
        assert(circle_cell(p, ll) == 0);
        assert(slot_of(quarter_turns, raw_index, len) == TableSlot::Sample(0));
        assert(circle_slot(p, ll) == TableSlot::Sample(0));
    } else {
        assert(m == q4 * ll + r);
        if q4 == 0 {
            assert(m == r);
            assert(circle_cell(p, ll) == r);
            assert(!circle_negative(p, ll));
        } else if q4 == 1 {
            assert(m == ll + r);
            if r == 0 {
                assert(circle_cell(p, ll) == ll);
            } else {
                assert(circle_cell(p, ll) == ll - r);
            }
            assert(!circle_negative(p, ll));
        } else if q4 == 2 {
            assert(m == 2 * ll + r);
            if r == 0 {
                assert(circle_cell(p, ll) == 0);
            } else {
                assert(circle_cell(p, ll) == r);
                assert(circle_negative(p, ll));
            }
        } else {
            assert(q4 == 3 && r < ll);
            assert(m == 3 * ll + r);
            if r == 0 {
                assert(circle_cell(p, ll) == ll);
            } else {
                assert(circle_cell(p, ll) == ll - r);
            }
            assert(circle_negative(p, ll));
        }
    }
}

} // verus!

