//! Sprite drawing: the XOR composition of an 8-pixel-wide sprite onto
//! the 64x32 framebuffer, with toroidal wrapping and collision detection.
//!
//! The specification is pointwise: a cell `(r, c)` is toggled exactly when
//! the sprite covers it, which is decided by the wrapped offsets
//! `(r - vy) mod 32` and `(c - vx) mod 64`. Since a sprite is at most
//! 15 rows tall and 8 columns wide, each cell is covered at most once.

use vstd::arithmetic::div_mod::{
    lemma_fundamental_div_mod, lemma_fundamental_div_mod_converse_div,
    lemma_fundamental_div_mod_converse_mod,
};
use vstd::prelude::*;

verus! {

/// The bit mask that selects sprite column `col` (0 is the leftmost
/// pixel, held by the highest bit of the sprite byte).
pub open spec fn mask_of(col: int) -> u8 {
    if col == 0 {
        128
    } else if col == 1 {
        64
    } else if col == 2 {
        32
    } else if col == 3 {
        16
    } else if col == 4 {
        8
    } else if col == 5 {
        4
    } else if col == 6 {
        2
    } else {
        1
    }
}

/// Whether sprite byte `b` has a lit pixel in column `col` (0..8).
pub open spec fn sprite_bit(b: u8, col: int) -> bool {
    (b as int / mask_of(col) as int) % 2 == 1
}

/// Whether the draw toggles cell `(r, c)`, counting only sprite rows
/// before `row`, plus the columns before `col` of row `row` itself.
/// With `row = n` and `col = 0` this is the whole `n`-row sprite.
pub open spec fn hit_upto(
    mem: Seq<u8>,
    i: int,
    vx: int,
    vy: int,
    row: int,
    col: int,
    r: int,
    c: int,
) -> bool {
    let dr = (r - vy) % 32;
    let dc = (c - vx) % 64;
    &&& dc < 8
    &&& (dr < row || (dr == row && dc < col))
    &&& sprite_bit(mem[i + dr], dc)
}

/// Whether drawing the full `n`-row sprite at `(vx, vy)` toggles cell
/// `(r, c)`: both coordinate axes wrap, columns modulo 64 and rows
/// modulo 32.
pub open spec fn hit(mem: Seq<u8>, i: int, vx: int, vy: int, n: int, r: int, c: int) -> bool {
    hit_upto(mem, i, vx, vy, n, 0, r, c)
}

/// A toggled cell: lit becomes unlit and unlit becomes lit.
pub open spec fn flip(b: u8) -> u8 {
    if b == 0 {
        1u8
    } else {
        0u8
    }
}

/// The framebuffer after the partial draw described by [`hit_upto`].
pub open spec fn draw_fb_upto(
    fb: Seq<u8>,
    mem: Seq<u8>,
    i: int,
    vx: int,
    vy: int,
    row: int,
    col: int,
) -> Seq<u8> {
    Seq::new(
        fb.len(),
        |p: int|
            if hit_upto(mem, i, vx, vy, row, col, p / 64, p % 64) {
                flip(fb[p])
            } else {
                fb[p]
            },
    )
}

/// The framebuffer after drawing the full `n`-row sprite at `(vx, vy)`.
pub open spec fn draw_fb(fb: Seq<u8>, mem: Seq<u8>, i: int, vx: int, vy: int, n: int) -> Seq<u8> {
    draw_fb_upto(fb, mem, i, vx, vy, n, 0)
}

/// Whether the partial draw described by [`hit_upto`] erases some cell
/// that was lit before the draw began.
pub open spec fn collision_upto(
    fb: Seq<u8>,
    mem: Seq<u8>,
    i: int,
    vx: int,
    vy: int,
    row: int,
    col: int,
) -> bool {
    exists|r: int, c: int|
        0 <= r < 32 && 0 <= c < 64 && #[trigger] hit_upto(mem, i, vx, vy, row, col, r, c)
            && fb[r * 64 + c] == 1
}

/// Whether drawing the full sprite erases some previously lit cell.
pub open spec fn draw_collision(
    fb: Seq<u8>,
    mem: Seq<u8>,
    i: int,
    vx: int,
    vy: int,
    n: int,
) -> bool {
    collision_upto(fb, mem, i, vx, vy, n, 0)
}

/// The wrapped offset inverts the wrapped position: for an offset `d`
/// below the modulus, a cell coordinate `r` has offset `d` from `base`
/// exactly when `r` is where offset `d` lands from `base`.
pub proof fn lemma_wrap_round_trip(base: int, d: int, m: int, r: int)
    requires
        0 < m,
        0 <= d < m,
        0 <= base,
        0 <= r < m,
    ensures
        ((r - base) % m == d) <==> (r == (base + d) % m),
{
    if (r - base) % m == d {
        lemma_fundamental_div_mod(r - base, m);
        let q = (r - base) / m;
        assert(base + d == (-q) * m + r) by (nonlinear_arith)
            requires
                r - base == m * q + d,
        ;
        lemma_fundamental_div_mod_converse_mod(base + d, m, -q, r);
    }
    if r == (base + d) % m {
        lemma_fundamental_div_mod(base + d, m);
        let q = (base + d) / m;
        assert(r - base == (-q) * m + d) by (nonlinear_arith)
            requires
                base + d == m * q + r,
        ;
        lemma_fundamental_div_mod_converse_mod(r - base, m, -q, d);
    }
}

/// Row and column of a flat cell index formed from them.
pub proof fn lemma_cell_index(rr: int, cc: int)
    requires
        0 <= rr < 32,
        0 <= cc < 64,
    ensures
        (rr * 64 + cc) / 64 == rr,
        (rr * 64 + cc) % 64 == cc,
        0 <= rr * 64 + cc < 2048,
{
    lemma_fundamental_div_mod_converse_div(rr * 64 + cc, 64, rr, cc);
    lemma_fundamental_div_mod_converse_mod(rr * 64 + cc, 64, rr, cc);
    assert(rr * 64 + cc < 2048) by (nonlinear_arith)
        requires
            0 <= rr < 32,
            0 <= cc < 64,
    ;
}

/// Draws the `n`-byte sprite held at `memory[i..i+n]` onto `fb` at
/// position `(vx, vy)`, XOR-wise with wrapping, and reports whether a
/// previously lit cell was erased.
pub fn draw_sprite(fb: &mut Vec<u8>, memory: &Vec<u8>, i: usize, vx: u8, vy: u8, n: u8) -> (collision:
    bool)
    requires
        old(fb)@.len() == 2048,
        forall|p: int| 0 <= p < 2048 ==> old(fb)@[p] == 0 || old(fb)@[p] == 1,
        memory@.len() == 4096,
        n < 16,
        n > 0 ==> i + n <= 4096,
    ensures
        final(fb)@ == draw_fb(old(fb)@, memory@, i as int, vx as int, vy as int, n as int),
        collision == draw_collision(old(fb)@, memory@, i as int, vx as int, vy as int, n as int),
        forall|p: int| 0 <= p < 2048 ==> final(fb)@[p] == 0 || final(fb)@[p] == 1,
{
    let ghost fb0 = old(fb)@;
    let ghost mem = memory@;
    let mut collision: bool = false;
    let mut row: usize = 0;
    while row < n as usize
        invariant
            row <= n,
            n < 16,
            n > 0 ==> i + n <= 4096,
            memory@ == mem,
            mem.len() == 4096,
            fb0.len() == 2048,
            forall|p: int| 0 <= p < 2048 ==> fb0[p] == 0 || fb0[p] == 1,
            fb@.len() == 2048,
            forall|p: int| 0 <= p < 2048 ==> fb@[p] == 0 || fb@[p] == 1,
            fb@ == draw_fb_upto(fb0, mem, i as int, vx as int, vy as int, row as int, 0),
            collision == collision_upto(fb0, mem, i as int, vx as int, vy as int, row as int, 0),
        decreases n - row,
    {
        let byte = memory[i + row];
        let rr = (vy as usize + row) % 32;
        let mut col: usize = 0;
        let mut mask: u8 = 128;
        while col < 8
            invariant
                col <= 8,
                row < n,
                n < 16,
                i + n <= 4096,
                memory@ == mem,
                mem.len() == 4096,
                byte == mem[i + row],
                rr == (vy as int + row as int) % 32,
                col < 8 ==> mask == mask_of(col as int),
                fb0.len() == 2048,
                forall|p: int| 0 <= p < 2048 ==> fb0[p] == 0 || fb0[p] == 1,
                fb@.len() == 2048,
                forall|p: int| 0 <= p < 2048 ==> fb@[p] == 0 || fb@[p] == 1,
                fb@ == draw_fb_upto(fb0, mem, i as int, vx as int, vy as int, row as int, col as int),
                collision == collision_upto(
                    fb0,
                    mem,
                    i as int,
                    vx as int,
                    vy as int,
                    row as int,
                    col as int,
                ),
            decreases 8 - col,
        {
            let ghost rowg = row as int;
            let ghost colg = col as int;
            let ghost vxg = vx as int;
            let ghost vyg = vy as int;
            let ghost ig = i as int;
            proof {
                assert(mask_of(colg) >= 1);
            }
            let bit = (byte / mask) % 2 == 1;
            proof {
                assert(bit == sprite_bit(mem[ig + rowg], colg));
                // the cell this column lands on, and that no other cell
                // gains or loses a hit when the column is consumed
                lemma_wrap_round_trip(vyg, rowg, 32, rr as int);
                assert((rr as int - vyg) % 32 == rowg);
            }
            if bit {
                let cc = (vx as usize + col) % 64;
                proof {
                    lemma_wrap_round_trip(vxg, colg, 64, cc as int);
                    assert((cc as int - vxg) % 64 == colg);
                    lemma_cell_index(rr as int, cc as int);
                }
                let idx = rr * 64 + cc;
                let ghost idxg = idx as int;
                let cell = fb[idx];
                if cell == 1 {
                    collision = true;
                    fb[idx] = 0;
                } else {
                    fb[idx] = 1;
                }
                proof {
                    // the toggled cell was untouched by the partial draw,
                    // so `cell` is its value before the draw began
                    assert(!hit_upto(mem, ig, vxg, vyg, rowg, colg, rr as int, cc as int));
                    assert(cell == fb0[idxg]);
                    // every other cell keeps its hit status
                    assert forall|r: int, c: int|
                        0 <= r < 32 && 0 <= c < 64 && !(r == rr as int && c == cc as int) implies (
                    hit_upto(mem, ig, vxg, vyg, rowg, colg + 1, r, c) == hit_upto(
                        mem,
                        ig,
                        vxg,
                        vyg,
                        rowg,
                        colg,
                        r,
                        c,
                    )) by {
                        if (r - vyg) % 32 == rowg && (c - vxg) % 64 == colg {
                            lemma_wrap_round_trip(vyg, rowg, 32, r);
                            lemma_wrap_round_trip(vxg, colg, 64, c);
                        }
                    }
                    assert forall|p: int| 0 <= p < 2048 implies fb@[p] == draw_fb_upto(
                        fb0,
                        mem,
                        ig,
                        vxg,
                        vyg,
                        rowg,
                        colg + 1,
                    )[p] by {
                        lemma_fundamental_div_mod(p, 64);
                        vstd::arithmetic::div_mod::lemma_remainder_upper(p, 64);
                        vstd::arithmetic::div_mod::lemma_remainder_lower(p, 64);
                        vstd::arithmetic::div_mod::lemma_div_pos_is_pos(p, 64);
                        let r = p / 64;
                        let c = p % 64;
                        assert(0 <= c < 64);
                        assert(0 <= r < 32) by (nonlinear_arith)
                            requires
                                0 <= p < 2048,
                                p == 64 * r + c,
                                0 <= c < 64,
                        ;
                        if p == idxg {
                            assert(r == rr as int && c == cc as int) by {
                                lemma_cell_index(rr as int, cc as int);
                            }
                            assert(hit_upto(mem, ig, vxg, vyg, rowg, colg + 1, r, c));
                        } else {
                            assert(!(r == rr as int && c == cc as int)) by {
                                if r == rr as int && c == cc as int {
                                    assert(p == 64 * r + c);
                                }
                            }
                        }
                    }
                    assert(fb@ =~= draw_fb_upto(fb0, mem, ig, vxg, vyg, rowg, colg + 1));
                    // collision bookkeeping
                    if collision {
                        if cell == 1 {
                            assert(hit_upto(mem, ig, vxg, vyg, rowg, colg + 1, rr as int, cc as int));
                            assert(collision_upto(fb0, mem, ig, vxg, vyg, rowg, colg + 1));
                        } else {
                            let (r, c) = choose|r: int, c: int|
                                0 <= r < 32 && 0 <= c < 64 && #[trigger] hit_upto(
                                    mem,
                                    ig,
                                    vxg,
                                    vyg,
                                    rowg,
                                    colg,
                                    r,
                                    c,
                                ) && fb0[r * 64 + c] == 1;
                            assert(hit_upto(mem, ig, vxg, vyg, rowg, colg + 1, r, c));
                            assert(collision_upto(fb0, mem, ig, vxg, vyg, rowg, colg + 1));
                        }
                    } else {
                        assert(!collision_upto(fb0, mem, ig, vxg, vyg, rowg, colg + 1)) by {
                            if collision_upto(fb0, mem, ig, vxg, vyg, rowg, colg + 1) {
                                let (r, c) = choose|r: int, c: int|
                                    0 <= r < 32 && 0 <= c < 64 && #[trigger] hit_upto(
                                        mem,
                                        ig,
                                        vxg,
                                        vyg,
                                        rowg,
                                        colg + 1,
                                        r,
                                        c,
                                    ) && fb0[r * 64 + c] == 1;
                                if hit_upto(mem, ig, vxg, vyg, rowg, colg, r, c) {
                                    assert(collision_upto(fb0, mem, ig, vxg, vyg, rowg, colg));
                                } else {
                                    // the only new hit is the toggled cell,
                                    // which was unlit
                                    lemma_wrap_round_trip(vyg, rowg, 32, r);
                                    lemma_wrap_round_trip(vxg, colg, 64, c);
                                    assert(r == rr as int && c == cc as int);
                                    assert(fb0[r * 64 + c] == cell);
                                }
                            }
                        }
                    }
                }
            } else {
                proof {
                    // no pixel in this column: no cell changes hit status
                    assert forall|r: int, c: int| 0 <= r < 32 && 0 <= c < 64 implies (hit_upto(
                        mem,
                        ig,
                        vxg,
                        vyg,
                        rowg,
                        colg + 1,
                        r,
                        c,
                    ) == hit_upto(mem, ig, vxg, vyg, rowg, colg, r, c)) by {
                        if (r - vyg) % 32 == rowg && (c - vxg) % 64 == colg {
                            lemma_wrap_round_trip(vyg, rowg, 32, r);
                        }
                    }
                    assert forall|p: int| 0 <= p < 2048 implies fb@[p] == draw_fb_upto(
                        fb0,
                        mem,
                        ig,
                        vxg,
                        vyg,
                        rowg,
                        colg + 1,
                    )[p] by {
                        lemma_fundamental_div_mod(p, 64);
                        vstd::arithmetic::div_mod::lemma_remainder_upper(p, 64);
                        vstd::arithmetic::div_mod::lemma_remainder_lower(p, 64);
                        vstd::arithmetic::div_mod::lemma_div_pos_is_pos(p, 64);
                        let r = p / 64;
                        let c = p % 64;
                        assert(0 <= r < 32) by (nonlinear_arith)
                            requires
                                0 <= p < 2048,
                                p == 64 * r + c,
                                0 <= c < 64,
                        ;
                    }
                    assert(fb@ =~= draw_fb_upto(fb0, mem, ig, vxg, vyg, rowg, colg + 1));
                    assert(collision_upto(fb0, mem, ig, vxg, vyg, rowg, colg + 1)
                        == collision_upto(fb0, mem, ig, vxg, vyg, rowg, colg)) by {
                        assert forall|r: int, c: int| 0 <= r < 32 && 0 <= c < 64 implies (hit_upto(
                            mem,
                            ig,
                            vxg,
                            vyg,
                            rowg,
                            colg + 1,
                            r,
                            c,
                        ) == hit_upto(mem, ig, vxg, vyg, rowg, colg, r, c)) by {
                            if (r - vyg) % 32 == rowg && (c - vxg) % 64 == colg {
                                lemma_wrap_round_trip(vyg, rowg, 32, r);
                            }
                        }
                        if collision_upto(fb0, mem, ig, vxg, vyg, rowg, colg) {
                            let (r, c) = choose|r: int, c: int|
                                0 <= r < 32 && 0 <= c < 64 && #[trigger] hit_upto(
                                    mem,
                                    ig,
                                    vxg,
                                    vyg,
                                    rowg,
                                    colg,
                                    r,
                                    c,
                                ) && fb0[r * 64 + c] == 1;
                            assert(hit_upto(mem, ig, vxg, vyg, rowg, colg + 1, r, c));
                        }
                        if collision_upto(fb0, mem, ig, vxg, vyg, rowg, colg + 1) {
                            let (r, c) = choose|r: int, c: int|
                                0 <= r < 32 && 0 <= c < 64 && #[trigger] hit_upto(
                                    mem,
                                    ig,
                                    vxg,
                                    vyg,
                                    rowg,
                                    colg + 1,
                                    r,
                                    c,
                                ) && fb0[r * 64 + c] == 1;
                            assert(hit_upto(mem, ig, vxg, vyg, rowg, colg, r, c));
                        }
                    }
                }
            }
            mask = mask / 2;
            col += 1;
        }
        proof {
            let rowg = row as int;
            // a fully consumed row is the same partial draw as the next
            // row with no columns consumed
            assert forall|r: int, c: int| 0 <= r < 32 && 0 <= c < 64 implies (hit_upto(
                mem,
                i as int,
                vx as int,
                vy as int,
                rowg,
                8,
                r,
                c,
            ) == hit_upto(mem, i as int, vx as int, vy as int, rowg + 1, 0, r, c)) by {}
            assert forall|p: int| 0 <= p < 2048 implies draw_fb_upto(
                fb0,
                mem,
                i as int,
                vx as int,
                vy as int,
                rowg,
                8,
            )[p] == draw_fb_upto(fb0, mem, i as int, vx as int, vy as int, rowg + 1, 0)[p] by {
                lemma_fundamental_div_mod(p, 64);
                vstd::arithmetic::div_mod::lemma_remainder_upper(p, 64);
                vstd::arithmetic::div_mod::lemma_remainder_lower(p, 64);
                vstd::arithmetic::div_mod::lemma_div_pos_is_pos(p, 64);
                let r = p / 64;
                let c = p % 64;
                assert(0 <= r < 32) by (nonlinear_arith)
                    requires
                        0 <= p < 2048,
                        p == 64 * r + c,
                        0 <= c < 64,
                ;
            }
            assert(fb@ =~= draw_fb_upto(fb0, mem, i as int, vx as int, vy as int, rowg + 1, 0));
            if collision_upto(fb0, mem, i as int, vx as int, vy as int, rowg, 8) {
                let (r, c) = choose|r: int, c: int|
                    0 <= r < 32 && 0 <= c < 64 && #[trigger] hit_upto(
                        mem,
                        i as int,
                        vx as int,
                        vy as int,
                        rowg,
                        8,
                        r,
                        c,
                    ) && fb0[r * 64 + c] == 1;
                assert(hit_upto(mem, i as int, vx as int, vy as int, rowg + 1, 0, r, c));
            }
            if collision_upto(fb0, mem, i as int, vx as int, vy as int, rowg + 1, 0) {
                let (r, c) = choose|r: int, c: int|
                    0 <= r < 32 && 0 <= c < 64 && #[trigger] hit_upto(
                        mem,
                        i as int,
                        vx as int,
                        vy as int,
                        rowg + 1,
                        0,
                        r,
                        c,
                    ) && fb0[r * 64 + c] == 1;
                assert(hit_upto(mem, i as int, vx as int, vy as int, rowg, 8, r, c));
            }
        }
        row += 1;
    }
    collision
}

} // verus!
