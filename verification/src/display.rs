//! The mathematical model of sprite drawing.
//!
//! A sprite is `n` bytes read from memory starting at the index register;
//! each byte is one row of 8 pixels, most significant bit leftmost.  The
//! blit XORs the sprite into the display at `(vx + column, vy + row)`.
//! There is no wrap-around: rows that would land at or below the 32-pixel
//! bottom edge and columns that would land at or past the 64-pixel right
//! edge are clipped.  A collision is any pixel the blit turns off.

use vstd::prelude::*;

verus! {

/// Whether bit `j` of sprite row byte `b` is set, counting the most
/// significant bit as bit 0 (the leftmost pixel).
pub open spec fn bit_at(b: u8, j: u8) -> bool {
    b & (0x80u8 >> j) != 0u8
}

/// The memory address of sprite row `k`, counting from the index
/// register and reducing modulo the 4096-byte address space.
pub open spec fn row_addr(index: u16, k: int) -> int {
    (index + k) % 4096
}

/// Whether a blit of one sprite row byte touches display column `c`,
/// considering only the first `jmax` bits of the row.
pub open spec fn row_hit(byte: u8, vx: u8, c: int, jmax: int) -> bool {
    &&& vx <= c < vx + jmax
    &&& c < 64
    &&& bit_at(byte, (c - vx) as u8)
}

/// Whether a blit of `nrows` sprite rows touches display cell `(r, c)`:
/// the cell lies in the sprite's clipped footprint and the matching
/// sprite bit is set.
pub open spec fn sprite_hit(
    mem: Seq<u8>,
    index: u16,
    vx: u8,
    vy: u8,
    nrows: int,
    r: int,
    c: int,
) -> bool {
    &&& vy <= r < vy + nrows
    &&& row_hit(mem[row_addr(index, r - vy)], vx, c, 8)
}

/// A display of 32 rows of 64 pixels each.
pub open spec fn wf_disp(disp: Seq<Seq<bool>>) -> bool {
    &&& disp.len() == 32
    &&& (forall|r: int| 0 <= r < 32 ==> (#[trigger] disp[r]).len() == 64)
}

/// The display after one sprite row byte is XOR-blitted into row `r`,
/// considering only the first `jmax` bits.  A row index outside the
/// display leaves it unchanged.
pub open spec fn spec_draw_row(
    disp: Seq<Seq<bool>>,
    byte: u8,
    vx: u8,
    r: int,
    jmax: int,
) -> Seq<Seq<bool>> {
    Seq::new(
        32,
        |rr: int| Seq::new(64, |c: int| disp[rr][c] != (rr == r && row_hit(byte, vx, c, jmax))),
    )
}

/// Whether XOR-blitting one sprite row byte into row `r` turns some
/// pixel of `disp` off, considering only the first `jmax` bits.
pub open spec fn spec_row_collision(
    disp: Seq<Seq<bool>>,
    byte: u8,
    vx: u8,
    r: int,
    jmax: int,
) -> bool {
    &&& 0 <= r < 32
    &&& exists|c: int| 0 <= c < 64 && #[trigger] row_hit(byte, vx, c, jmax) && disp[r][c]
}

/// The display after an `nrows`-row sprite is XOR-blitted at `(vx, vy)`:
/// every touched cell is toggled, every other cell keeps its state.
pub open spec fn spec_draw(
    disp: Seq<Seq<bool>>,
    mem: Seq<u8>,
    index: u16,
    vx: u8,
    vy: u8,
    nrows: int,
) -> Seq<Seq<bool>> {
    Seq::new(
        32,
        |r: int| Seq::new(64, |c: int| disp[r][c] != sprite_hit(mem, index, vx, vy, nrows, r, c)),
    )
}

/// Whether the blit turns some previously-set pixel off: the collision
/// condition that the draw instruction reports in VF.
pub open spec fn spec_draw_collision(
    disp: Seq<Seq<bool>>,
    mem: Seq<u8>,
    index: u16,
    vx: u8,
    vy: u8,
    nrows: int,
) -> bool {
    exists|r: int, c: int|
        0 <= r < 32 && 0 <= c < 64 && #[trigger] sprite_hit(mem, index, vx, vy, nrows, r, c)
            && disp[r][c]
}

/// Blitting zero rows leaves the display as it was.
pub proof fn lemma_draw_zero(disp: Seq<Seq<bool>>, mem: Seq<u8>, index: u16, vx: u8, vy: u8)
    requires
        wf_disp(disp),
    ensures
        spec_draw(disp, mem, index, vx, vy, 0) == disp,
{
    assert(spec_draw(disp, mem, index, vx, vy, 0) =~~= disp);
}

/// A row blitted wholly below the bottom edge changes nothing.
pub proof fn lemma_draw_row_clipped(disp: Seq<Seq<bool>>, byte: u8, vx: u8, r: int)
    requires
        wf_disp(disp),
        32 <= r,
    ensures
        spec_draw_row(disp, byte, vx, r, 8) == disp,
        !spec_row_collision(disp, byte, vx, r, 8),
{
    assert(spec_draw_row(disp, byte, vx, r, 8) =~~= disp);
}

/// One more bit of one row: bit `j` toggles cell `(r, vx + j)` when it
/// is set and lies left of the right edge, and otherwise changes
/// nothing; the collision over `j + 1` bits grows by exactly that cell's
/// prior state.
pub proof fn lemma_row_bit_step(disp: Seq<Seq<bool>>, byte: u8, vx: u8, r: int, j: int)
    requires
        wf_disp(disp),
        0 <= r < 32,
        0 <= j < 8,
    ensures
        ({
            let c = vx + j;
            let dj = spec_draw_row(disp, byte, vx, r, j);
            if c < 64 && bit_at(byte, j as u8) {
                spec_draw_row(disp, byte, vx, r, j + 1) == dj.update(
                    r,
                    dj[r].update(c, !dj[r][c]),
                )
            } else {
                spec_draw_row(disp, byte, vx, r, j + 1) == dj
            }
        }),
        vx + j < 64 ==> spec_draw_row(disp, byte, vx, r, j)[r][vx + j] == disp[r][vx + j],
        spec_row_collision(disp, byte, vx, r, j + 1) == (spec_row_collision(disp, byte, vx, r, j)
            || (vx + j < 64 && bit_at(byte, j as u8) && disp[r][vx + j])),
{
    let c_new = vx + j;
    let dj = spec_draw_row(disp, byte, vx, r, j);
    let dj1 = spec_draw_row(disp, byte, vx, r, j + 1);
    assert forall|rr: int, c: int| 0 <= rr < 32 && 0 <= c < 64 implies (#[trigger] dj1[rr][c])
        == if rr == r && c == c_new && c < 64 && bit_at(byte, j as u8) {
        !dj[rr][c]
    } else {
        dj[rr][c]
    } by {
        if rr == r && c != c_new {
            assert(row_hit(byte, vx, c, j + 1) == row_hit(byte, vx, c, j));
        }
    }
    if c_new < 64 && bit_at(byte, j as u8) {
        assert(dj1 =~~= dj.update(r, dj[r].update(c_new, !dj[r][c_new])));
    } else {
        assert(dj1 =~~= dj);
    }
    // The collision step.
    if spec_row_collision(disp, byte, vx, r, j) {
        let c = choose|c: int| 0 <= c < 64 && #[trigger] row_hit(byte, vx, c, j) && disp[r][c];
        assert(row_hit(byte, vx, c, j + 1));
    }
    if c_new < 64 && bit_at(byte, j as u8) && disp[r][c_new] {
        assert(row_hit(byte, vx, c_new, j + 1));
        assert(spec_row_collision(disp, byte, vx, r, j + 1));
    }
    if spec_row_collision(disp, byte, vx, r, j + 1) {
        let c = choose|c: int| 0 <= c < 64 && #[trigger] row_hit(byte, vx, c, j + 1) && disp[r][c];
        if c != c_new {
            assert(row_hit(byte, vx, c, j));
        }
    }
}

/// Blitting one more row on top of a `k`-row blit gives the
/// `(k + 1)`-row blit: the footprints of distinct rows are disjoint.
pub proof fn lemma_draw_row_step(
    disp: Seq<Seq<bool>>,
    mem: Seq<u8>,
    index: u16,
    vx: u8,
    vy: u8,
    k: int,
)
    requires
        wf_disp(disp),
        0 <= k,
    ensures
        spec_draw_row(
            spec_draw(disp, mem, index, vx, vy, k),
            mem[row_addr(index, k)],
            vx,
            vy + k,
            8,
        ) == spec_draw(disp, mem, index, vx, vy, k + 1),
{
    let dk = spec_draw(disp, mem, index, vx, vy, k);
    let byte = mem[row_addr(index, k)];
    assert forall|r: int, c: int| 0 <= r < 32 && 0 <= c < 64 implies (#[trigger] spec_draw_row(
        dk,
        byte,
        vx,
        vy + k,
        8,
    )[r][c]) == spec_draw(disp, mem, index, vx, vy, k + 1)[r][c] by {
        if r == vy + k {
            assert(!sprite_hit(mem, index, vx, vy, k, r, c));
        }
    }
    assert(spec_draw_row(dk, byte, vx, vy + k, 8) =~~= spec_draw(disp, mem, index, vx, vy, k + 1));
}

/// The collision over `k + 1` rows is the collision over `k` rows or a
/// collision of the new row against the original display; the new row's
/// pixels are untouched by the earlier rows.
pub proof fn lemma_collision_row_step(
    disp: Seq<Seq<bool>>,
    mem: Seq<u8>,
    index: u16,
    vx: u8,
    vy: u8,
    k: int,
)
    requires
        wf_disp(disp),
        0 <= k,
    ensures
        spec_draw_collision(disp, mem, index, vx, vy, k + 1) == (spec_draw_collision(
            disp,
            mem,
            index,
            vx,
            vy,
            k,
        ) || spec_row_collision(
            spec_draw(disp, mem, index, vx, vy, k),
            mem[row_addr(index, k)],
            vx,
            vy + k,
            8,
        )),
{
    let dk = spec_draw(disp, mem, index, vx, vy, k);
    let byte = mem[row_addr(index, k)];
    let r_new = vy + k;
    if spec_draw_collision(disp, mem, index, vx, vy, k) {
        let (r, c) = choose|r: int, c: int|
            0 <= r < 32 && 0 <= c < 64 && #[trigger] sprite_hit(mem, index, vx, vy, k, r, c)
                && disp[r][c];
        assert(sprite_hit(mem, index, vx, vy, k + 1, r, c));
    }
    if spec_row_collision(dk, byte, vx, r_new, 8) {
        let c = choose|c: int| 0 <= c < 64 && #[trigger] row_hit(byte, vx, c, 8) && dk[r_new][c];
        assert(!sprite_hit(mem, index, vx, vy, k, r_new, c));
        assert(dk[r_new][c] == disp[r_new][c]);
        assert(sprite_hit(mem, index, vx, vy, k + 1, r_new, c));
        assert(spec_draw_collision(disp, mem, index, vx, vy, k + 1));
    }
    if spec_draw_collision(disp, mem, index, vx, vy, k + 1) {
        let (r, c) = choose|r: int, c: int|
            0 <= r < 32 && 0 <= c < 64 && #[trigger] sprite_hit(mem, index, vx, vy, k + 1, r, c)
                && disp[r][c];
        if r == r_new {
            assert(!sprite_hit(mem, index, vx, vy, k, r, c));
            assert(dk[r][c] == disp[r][c]);
            assert(row_hit(byte, vx, c, 8) && dk[r_new][c]);
        } else {
            assert(sprite_hit(mem, index, vx, vy, k, r, c));
        }
    }
}

} // verus!
