//! The mathematical model of the XOR sprite blit.
//!
//! A draw is modelled as a list of display-cell indices, one per set sprite
//! bit, in the order the blit visits them; the blit flips each listed cell
//! in turn and reports a collision if any cell was lit at the moment it was
//! flipped.  The model makes the two central display laws provable: a
//! second identical draw restores the display, and its collision flag
//! reports exactly the pixels the first draw turned on.

use vstd::arithmetic::div_mod::{
    lemma_fundamental_div_mod, lemma_fundamental_div_mod_converse, lemma_mod_bound,
};
use vstd::prelude::*;

verus! {

/// The display with the cell at `p` inverted.
pub open spec fn flip_at(s: Seq<bool>, p: int) -> Seq<bool> {
    s.update(p, !s[p])
}

/// The display after flipping every listed cell, in order.
pub open spec fn apply_flips(s: Seq<bool>, ps: Seq<int>) -> Seq<bool>
    decreases ps.len(),
{
    if ps.len() == 0 {
        s
    } else {
        flip_at(apply_flips(s, ps.drop_last()), ps.last())
    }
}

/// Whether any listed cell was lit at the moment it was flipped.
pub open spec fn collide(s: Seq<bool>, ps: Seq<int>) -> bool
    decreases ps.len(),
{
    if ps.len() == 0 {
        false
    } else {
        collide(s, ps.drop_last()) || apply_flips(s, ps.drop_last())[ps.last()]
    }
}

/// Whether `bits` has its bit for sprite column `col` set (column 0 is the
/// most significant bit).
pub open spec fn sprite_bit(bits: u8, col: u8) -> bool {
    bits & (0x80u8 >> col) != 0
}

/// The display-cell index hit by sprite column `col` of sprite row `row`
/// drawn at `(x0, y0)`: both coordinates wrap, and cells are row-major.
pub open spec fn pixel_index(x0: u8, y0: u8, col: int, row: int) -> int {
    (x0 + col) % 64 + 64 * ((y0 + row) % 32)
}

/// The cell indices of the set bits among the first `cols` columns of one
/// sprite row, in column order.
pub open spec fn row_positions_upto(bits: u8, x0: u8, y0: u8, row: int, cols: int) -> Seq<int>
    decreases cols,
{
    if cols <= 0 {
        Seq::empty()
    } else {
        row_positions_upto(bits, x0, y0, row, cols - 1) + if sprite_bit(bits, (cols - 1) as u8) {
            seq![pixel_index(x0, y0, cols - 1, row)]
        } else {
            Seq::empty()
        }
    }
}

/// The cell indices of all set bits of the first `rows` sprite rows read
/// from memory at `i`, in blit order.
pub open spec fn sprite_positions(ram: Seq<u8>, i: int, x0: u8, y0: u8, rows: int) -> Seq<int>
    decreases rows,
{
    if rows <= 0 {
        Seq::empty()
    } else {
        sprite_positions(ram, i, x0, y0, rows - 1) + row_positions_upto(
            ram[i + rows - 1],
            x0,
            y0,
            rows - 1,
            8,
        )
    }
}

/// Flipping cells of the display never changes the number of cells.
pub proof fn lemma_apply_flips_len(s: Seq<bool>, ps: Seq<int>)
    requires
        in_range(ps, s.len() as int),
    ensures
        apply_flips(s, ps).len() == s.len(),
    decreases ps.len(),
{
    if ps.len() > 0 {
        assert(in_range(ps.drop_last(), s.len() as int));
        lemma_apply_flips_len(s, ps.drop_last());
        assert(0 <= ps.last() < s.len());
    }
}

/// Flipping a single listed cell is one flip, and collides exactly when
/// that cell is lit.
pub proof fn lemma_apply_flips_one(s: Seq<bool>, p: int)
    ensures
        apply_flips(s, seq![p]) == flip_at(s, p),
        collide(s, seq![p]) == s[p],
{
    let q = seq![p];
    assert(q.len() == 1);
    assert(q.last() == p);
    assert(q.drop_last() =~= Seq::<int>::empty());
    assert(apply_flips(s, Seq::<int>::empty()) == s);
    assert(collide(s, Seq::<int>::empty()) == false);
    assert(apply_flips(s, q) == flip_at(apply_flips(s, q.drop_last()), p));
    assert(collide(s, q) == (collide(s, q.drop_last()) || apply_flips(s, q.drop_last())[p]));
}

/// Flipping a concatenated list is flipping the two lists in turn.
pub proof fn lemma_apply_flips_concat(s: Seq<bool>, ps1: Seq<int>, ps2: Seq<int>)
    ensures
        apply_flips(s, ps1 + ps2) == apply_flips(apply_flips(s, ps1), ps2),
    decreases ps2.len(),
{
    if ps2.len() == 0 {
        assert(ps1 + ps2 =~= ps1);
    } else {
        lemma_apply_flips_concat(s, ps1, ps2.drop_last());
        assert((ps1 + ps2).drop_last() =~= ps1 + ps2.drop_last());
        assert((ps1 + ps2).last() == ps2.last());
    }
}

/// A concatenated list collides exactly when either part does, the second
/// part judged on the display the first part left behind.
pub proof fn lemma_collide_concat(s: Seq<bool>, ps1: Seq<int>, ps2: Seq<int>)
    ensures
        collide(s, ps1 + ps2) == (collide(s, ps1) || collide(apply_flips(s, ps1), ps2)),
    decreases ps2.len(),
{
    if ps2.len() == 0 {
        assert(ps1 + ps2 =~= ps1);
    } else {
        lemma_collide_concat(s, ps1, ps2.drop_last());
        lemma_apply_flips_concat(s, ps1, ps2.drop_last());
        assert((ps1 + ps2).drop_last() =~= ps1 + ps2.drop_last());
        assert((ps1 + ps2).last() == ps2.last());
    }
}

/// No cell index occurs twice in the list.
pub open spec fn distinct(ps: Seq<int>) -> bool {
    forall|k1: int, k2: int| 0 <= k1 < k2 < ps.len() ==> ps[k1] != ps[k2]
}

/// Every listed cell index is within a display of `len` cells.
pub open spec fn in_range(ps: Seq<int>, len: int) -> bool {
    forall|k: int| 0 <= k < ps.len() ==> 0 <= #[trigger] ps[k] < len
}

/// Whether the list flips cell `j` an odd number of times.
pub open spec fn odd_flips(ps: Seq<int>, j: int) -> bool
    decreases ps.len(),
{
    if ps.len() == 0 {
        false
    } else {
        odd_flips(ps.drop_last(), j) != (ps.last() == j)
    }
}

/// A cell ends up inverted exactly when the list flips it an odd number of
/// times.
pub proof fn lemma_apply_flips_index(s: Seq<bool>, ps: Seq<int>, j: int)
    requires
        in_range(ps, s.len() as int),
        0 <= j < s.len(),
    ensures
        apply_flips(s, ps)[j] == (s[j] != odd_flips(ps, j)),
    decreases ps.len(),
{
    if ps.len() > 0 {
        assert(in_range(ps.drop_last(), s.len() as int));
        lemma_apply_flips_index(s, ps.drop_last(), j);
        lemma_apply_flips_len(s, ps.drop_last());
    }
}

/// A cell that never appears in the list is flipped an even number of
/// times.
pub proof fn lemma_odd_flips_absent(ps: Seq<int>, j: int)
    requires
        forall|k: int| 0 <= k < ps.len() ==> #[trigger] ps[k] != j,
    ensures
        !odd_flips(ps, j),
    decreases ps.len(),
{
    if ps.len() > 0 {
        assert(forall|k: int|
            0 <= k < ps.drop_last().len() ==> #[trigger] ps.drop_last()[k] != j);
        lemma_odd_flips_absent(ps.drop_last(), j);
    }
}

/// In a list without repeats, each listed cell is flipped an odd number of
/// times — exactly once.
pub proof fn lemma_odd_flips_member(ps: Seq<int>, k: int)
    requires
        distinct(ps),
        0 <= k < ps.len(),
    ensures
        odd_flips(ps, ps[k]),
    decreases ps.len(),
{
    let q = ps.drop_last();
    let p = ps.last();
    if k == ps.len() - 1 {
        assert(forall|m: int| 0 <= m < q.len() ==> #[trigger] q[m] != p);
        lemma_odd_flips_absent(q, p);
    } else {
        assert(distinct(q));
        lemma_odd_flips_member(q, k);
        assert(ps[k] != p);
    }
}

/// Flipping the same list of cells twice restores every cell.
pub proof fn lemma_apply_flips_involutive(s: Seq<bool>, ps: Seq<int>)
    requires
        in_range(ps, s.len() as int),
    ensures
        apply_flips(apply_flips(s, ps), ps) == s,
{
    let s1 = apply_flips(s, ps);
    lemma_apply_flips_len(s, ps);
    lemma_apply_flips_len(s1, ps);
    assert forall|j: int| 0 <= j < s.len() implies apply_flips(s1, ps)[j] == s[j] by {
        lemma_apply_flips_index(s, ps, j);
        lemma_apply_flips_index(s1, ps, j);
    };
    assert(apply_flips(s1, ps) =~= s);
}

/// In a list without repeats, a collision is exactly a listed cell that
/// was lit before the blit started.
pub proof fn lemma_collide_members(s: Seq<bool>, ps: Seq<int>)
    requires
        in_range(ps, s.len() as int),
        distinct(ps),
    ensures
        collide(s, ps) == exists|k: int| 0 <= k < ps.len() && s[#[trigger] ps[k]],
    decreases ps.len(),
{
    if ps.len() > 0 {
        let q = ps.drop_last();
        let p = ps.last();
        assert(in_range(q, s.len() as int));
        assert(distinct(q));
        lemma_collide_members(s, q);
        assert(forall|m: int| 0 <= m < q.len() ==> #[trigger] q[m] != p);
        lemma_odd_flips_absent(q, p);
        lemma_apply_flips_index(s, q, p);
        assert(collide(s, ps) == (collide(s, q) || s[p]));
        if collide(s, ps) {
            if collide(s, q) {
                let k = choose|k: int| 0 <= k < q.len() && s[#[trigger] q[k]];
                assert(ps[k] == q[k]);
                assert(0 <= k < ps.len() && s[ps[k]]);
            } else {
                assert(s[ps[ps.len() - 1]]);
            }
        }
        if exists|k: int| 0 <= k < ps.len() && s[#[trigger] ps[k]] {
            let k = choose|k: int| 0 <= k < ps.len() && s[#[trigger] ps[k]];
            if k < ps.len() - 1 {
                assert(q[k] == ps[k]);
                assert(collide(s, q));
            } else {
                assert(s[p]);
            }
        }
    }
}

/// Every cell a sprite bit can hit lies on the display.
pub proof fn lemma_pixel_index_range(x0: u8, y0: u8, col: int, row: int)
    requires
        0 <= col,
        0 <= row,
    ensures
        0 <= pixel_index(x0, y0, col, row) < 2048,
{
    lemma_mod_bound(x0 + col, 64);
    lemma_mod_bound(y0 + row, 32);
}

/// A hit cell determines its wrapped column and row: cells are row-major
/// with 64 cells per row.
pub proof fn lemma_pixel_index_decompose(x0: u8, y0: u8, col: int, row: int)
    requires
        0 <= col,
        0 <= row,
    ensures
        pixel_index(x0, y0, col, row) % 64 == (x0 + col) % 64,
        pixel_index(x0, y0, col, row) / 64 == (y0 + row) % 32,
{
    lemma_mod_bound(x0 + col, 64);
    lemma_mod_bound(y0 + row, 32);
    lemma_fundamental_div_mod_converse(
        pixel_index(x0, y0, col, row),
        64,
        (y0 + row) % 32,
        (x0 + col) % 64,
    );
}

/// Two offsets less than the modulus apart never wrap to the same value.
pub proof fn lemma_mod_shift_distinct(a: int, d: int, m: int)
    requires
        0 <= a,
        0 < d < m,
    ensures
        a % m != (a + d) % m,
{
    lemma_mod_bound(a, m);
    lemma_mod_bound(a + d, m);
    lemma_fundamental_div_mod(a, m);
    lemma_fundamental_div_mod(a + d, m);
    let r = a % m;
    assert(a == m * (a / m) + r);
    assert(a + d == m * ((a + d) / m) + (a + d) % m);
    if (a + d) % m == r {
        assert(m * ((a + d) / m) - m * (a / m) == d) by (nonlinear_arith)
            requires
                a == m * (a / m) + r,
                a + d == m * ((a + d) / m) + r,
        ;
        assert(m * ((a + d) / m - a / m) == d) by (nonlinear_arith)
            requires
                m * ((a + d) / m) - m * (a / m) == d,
        ;
        let q = (a + d) / m - a / m;
        assert(m * q == d);
        assert(q >= 1 ==> m * q >= m) by (nonlinear_arith)
            requires
                m > 0,
        ;
        assert(q <= 0 ==> m * q <= 0) by (nonlinear_arith)
            requires
                m > 0,
        ;
        assert(false);
    }
}

/// Whether display cell `p` is hit by some column below `cols` of sprite
/// row `row` drawn at `(x0, y0)`.
pub open spec fn row_hit(x0: u8, y0: u8, row: int, cols: int, p: int) -> bool {
    exists|c: int| 0 <= c < cols && p == #[trigger] pixel_index(x0, y0, c, row)
}

/// Whether display cell `p` is hit by some bit of a sprite of `rows` rows
/// drawn at `(x0, y0)`.
pub open spec fn sprite_hit(x0: u8, y0: u8, rows: int, p: int) -> bool {
    exists|c: int, r: int| 0 <= c < 8 && 0 <= r < rows && p == #[trigger] pixel_index(x0, y0, c, r)
}

/// The cells hit by one sprite row: each comes from a column below `cols`,
/// no cell is hit twice, and all lie on the display.
pub proof fn lemma_row_positions_shape(bits: u8, x0: u8, y0: u8, row: int, cols: int)
    requires
        0 <= row,
        cols <= 64,
    ensures
        in_range(row_positions_upto(bits, x0, y0, row, cols), 2048),
        distinct(row_positions_upto(bits, x0, y0, row, cols)),
        forall|k: int|
            0 <= k < row_positions_upto(bits, x0, y0, row, cols).len() ==> row_hit(
                x0,
                y0,
                row,
                cols,
                #[trigger] row_positions_upto(bits, x0, y0, row, cols)[k],
            ),
    decreases cols,
{
    if cols > 0 {
        let prev = row_positions_upto(bits, x0, y0, row, cols - 1);
        let cur = row_positions_upto(bits, x0, y0, row, cols);
        lemma_row_positions_shape(bits, x0, y0, row, cols - 1);
        lemma_pixel_index_range(x0, y0, cols - 1, row);
        assert forall|k: int| 0 <= k < cur.len() implies row_hit(
            x0,
            y0,
            row,
            cols,
            #[trigger] cur[k],
        ) by {
            if k < prev.len() {
                assert(cur[k] == prev[k]);
                assert(row_hit(x0, y0, row, cols - 1, prev[k]));
                let c = choose|c: int|
                    0 <= c < cols - 1 && prev[k] == #[trigger] pixel_index(x0, y0, c, row);
                assert(cur[k] == pixel_index(x0, y0, c, row));
            } else {
                assert(cur[k] == pixel_index(x0, y0, cols - 1, row));
            }
        };
        assert forall|k1: int, k2: int| 0 <= k1 < k2 < cur.len() implies cur[k1] != cur[k2] by {
            if k2 < prev.len() {
                assert(cur[k1] == prev[k1] && cur[k2] == prev[k2]);
            } else {
                assert(cur[k2] == pixel_index(x0, y0, cols - 1, row));
                assert(cur[k1] == prev[k1]);
                assert(row_hit(x0, y0, row, cols - 1, prev[k1]));
                let c = choose|c: int|
                    0 <= c < cols - 1 && prev[k1] == #[trigger] pixel_index(x0, y0, c, row);
                lemma_pixel_index_decompose(x0, y0, c, row);
                lemma_pixel_index_decompose(x0, y0, cols - 1, row);
                lemma_mod_shift_distinct(x0 + c, cols - 1 - c, 64);
            }
        };
    }
}

/// The cells hit by a whole sprite: each comes from one of its rows, and
/// no cell is hit twice, because wrapped rows and columns that close
/// together never coincide.
pub proof fn lemma_sprite_positions_shape(ram: Seq<u8>, i: int, x0: u8, y0: u8, rows: int)
    requires
        rows <= 32,
    ensures
        in_range(sprite_positions(ram, i, x0, y0, rows), 2048),
        distinct(sprite_positions(ram, i, x0, y0, rows)),
        forall|k: int|
            0 <= k < sprite_positions(ram, i, x0, y0, rows).len() ==> sprite_hit(
                x0,
                y0,
                rows,
                #[trigger] sprite_positions(ram, i, x0, y0, rows)[k],
            ),
    decreases rows,
{
    if rows > 0 {
        let prev = sprite_positions(ram, i, x0, y0, rows - 1);
        let rp = row_positions_upto(ram[i + rows - 1], x0, y0, rows - 1, 8);
        let cur = sprite_positions(ram, i, x0, y0, rows);
        lemma_sprite_positions_shape(ram, i, x0, y0, rows - 1);
        lemma_row_positions_shape(ram[i + rows - 1], x0, y0, rows - 1, 8);
        assert forall|k: int| 0 <= k < cur.len() implies sprite_hit(
            x0,
            y0,
            rows,
            #[trigger] cur[k],
        ) by {
            if k < prev.len() {
                assert(cur[k] == prev[k]);
                assert(sprite_hit(x0, y0, rows - 1, prev[k]));
                let (c, r) = choose|c: int, r: int|
                    0 <= c < 8 && 0 <= r < rows - 1 && prev[k] == #[trigger] pixel_index(
                        x0,
                        y0,
                        c,
                        r,
                    );
                assert(cur[k] == pixel_index(x0, y0, c, r));
            } else {
                assert(cur[k] == rp[k - prev.len()]);
                assert(row_hit(x0, y0, rows - 1, 8, rp[k - prev.len()]));
                let c = choose|c: int|
                    0 <= c < 8 && rp[k - prev.len()] == #[trigger] pixel_index(
                        x0,
                        y0,
                        c,
                        rows - 1,
                    );
                assert(cur[k] == pixel_index(x0, y0, c, rows - 1));
            }
        };
        assert forall|k1: int, k2: int| 0 <= k1 < k2 < cur.len() implies cur[k1] != cur[k2] by {
            if k2 < prev.len() {
                assert(cur[k1] == prev[k1] && cur[k2] == prev[k2]);
            } else if k1 >= prev.len() {
                assert(cur[k1] == rp[k1 - prev.len()] && cur[k2] == rp[k2 - prev.len()]);
            } else {
                assert(cur[k1] == prev[k1]);
                assert(cur[k2] == rp[k2 - prev.len()]);
                assert(sprite_hit(x0, y0, rows - 1, prev[k1]));
                assert(row_hit(x0, y0, rows - 1, 8, rp[k2 - prev.len()]));
                let (c1, r1) = choose|c: int, r: int|
                    0 <= c < 8 && 0 <= r < rows - 1 && prev[k1] == #[trigger] pixel_index(
                        x0,
                        y0,
                        c,
                        r,
                    );
                let c2 = choose|c: int|
                    0 <= c < 8 && rp[k2 - prev.len()] == #[trigger] pixel_index(
                        x0,
                        y0,
                        c,
                        rows - 1,
                    );
                lemma_pixel_index_decompose(x0, y0, c1, r1);
                lemma_pixel_index_decompose(x0, y0, c2, rows - 1);
                lemma_mod_shift_distinct(y0 + r1, rows - 1 - r1, 32);
            }
        };
    }
}

/// Draw idempotence under double-draw: blitting the identical sprite at
/// the identical position twice restores every affected cell to its
/// pre-draw state, and the second blit reports a collision exactly when
/// the first blit turned some cell on.
pub proof fn lemma_double_draw(screen: Seq<bool>, ram: Seq<u8>, i: int, x0: u8, y0: u8, rows: int)
    requires
        screen.len() == 2048,
        0 <= rows <= 15,
    ensures
        ({
            let ps = sprite_positions(ram, i, x0, y0, rows);
            let once = apply_flips(screen, ps);
            &&& apply_flips(once, ps) == screen
            &&& collide(once, ps) == exists|k: int|
                0 <= k < ps.len() && !screen[#[trigger] ps[k]]
        }),
{
    let ps = sprite_positions(ram, i, x0, y0, rows);
    let once = apply_flips(screen, ps);
    lemma_sprite_positions_shape(ram, i, x0, y0, rows);
    lemma_apply_flips_involutive(screen, ps);
    lemma_apply_flips_len(screen, ps);
    lemma_collide_members(once, ps);
    assert forall|k: int| 0 <= k < ps.len() implies once[#[trigger] ps[k]] == !screen[ps[k]] by {
        lemma_apply_flips_index(screen, ps, ps[k]);
        lemma_odd_flips_member(ps, k);
    };
    if collide(once, ps) {
        let k = choose|k: int| 0 <= k < ps.len() && once[#[trigger] ps[k]];
        assert(!screen[ps[k]]);
    }
    if exists|k: int| 0 <= k < ps.len() && !screen[#[trigger] ps[k]] {
        let k = choose|k: int| 0 <= k < ps.len() && !screen[#[trigger] ps[k]];
        assert(once[ps[k]]);
    }
}

} // verus!
