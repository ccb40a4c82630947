//! XOR sprite drawing with collision detection, the core display-compositing
//! algorithm: an n-row sprite read from memory is composited onto the
//! framebuffer, every pixel's coordinate wrapping toroidally.

use vstd::prelude::*;

verus! {

use crate::display::{Display, Pixel, spec_xor};
use crate::nibble::{bit_at, spec_bit_at};

/// The framebuffer row that sprite row `i`, drawn at vertical position `vy`,
/// lands on. Each pixel's coordinate wraps independently, which subsumes the
/// wraparound of the starting corner.
pub open spec fn wrap_row(vy: u8, i: int) -> int {
    (vy + i) % 32
}

/// The framebuffer column that sprite bit `j`, drawn at horizontal position
/// `vx`, lands on.
pub open spec fn wrap_col(vx: u8, j: int) -> int {
    (vx + j) % 64
}

/// The flat framebuffer index that sprite cell (row `i`, bit `j`) lands on.
pub open spec fn cell_of(vx: u8, vy: u8, i: int, j: int) -> int {
    wrap_row(vy, i) * 64 + wrap_col(vx, j)
}

/// Which sprite row lands on framebuffer row `r`: the inverse of `wrap_row`.
pub open spec fn row_offset(vy: u8, r: int) -> int {
    (r - vy) % 32
}

/// Which sprite bit lands on framebuffer column `c`: the inverse of
/// `wrap_col`.
pub open spec fn col_offset(vx: u8, c: int) -> int {
    (c - vx) % 64
}

/// Sprite cell (row `i`, bit `j`) of the sprite stored at `index`: bit `7-j`
/// of its row byte, so the most significant bit is the leftmost pixel.
pub open spec fn sprite_bit(mem: Seq<u8>, index: int, i: int, j: int) -> bool {
    spec_bit_at(mem[index + i], (7 - j) as u8)
}

/// Sprite cell (row `i`, bit `j`) as a pixel.
pub open spec fn sprite_pixel(mem: Seq<u8>, index: int, i: int, j: int) -> Pixel {
    if sprite_bit(mem, index, i, j) {
        Pixel::White
    } else {
        Pixel::Black
    }
}

/// The framebuffer after the draw has composited every sprite cell
/// lexicographically before row `i`, bit `j`: the cell at flat index `k` is
/// XORed with its sprite cell exactly when its row and column offsets fall in
/// the processed range.
pub open spec fn partial_draw(
    fb: Seq<Pixel>,
    mem: Seq<u8>,
    index: int,
    vx: u8,
    vy: u8,
    i: int,
    j: int,
) -> Seq<Pixel> {
    Seq::new(
        2048,
        |k: int|
            {
                let oi = row_offset(vy, k / 64);
                let oj = col_offset(vx, k % 64);
                if oj < 8 && (oi < i || (oi == i && oj < j)) {
                    spec_xor(fb[k], sprite_pixel(mem, index, oi, oj))
                } else {
                    fb[k]
                }
            },
    )
}

/// The framebuffer after drawing an `n`-row sprite read from memory at
/// `index` at screen position (`vx`, `vy`).
pub open spec fn draw_fb(
    fb: Seq<Pixel>,
    mem: Seq<u8>,
    index: int,
    vx: u8,
    vy: u8,
    n: int,
) -> Seq<Pixel> {
    partial_draw(fb, mem, index, vx, vy, n, 0)
}

/// Whether compositing the sprite cells lexicographically before row `i`,
/// bit `j` erases a previously lit pixel.
pub open spec fn partial_collision(
    fb: Seq<Pixel>,
    mem: Seq<u8>,
    index: int,
    vx: u8,
    vy: u8,
    i: int,
    j: int,
) -> bool {
    exists|a: int, b: int|
        0 <= a && 0 <= b < 8 && (a < i || (a == i && b < j)) && #[trigger] sprite_bit(
            mem,
            index,
            a,
            b,
        ) && fb[cell_of(vx, vy, a, b)].lit()
}

/// Whether drawing an `n`-row sprite erases a previously lit pixel: the
/// collision condition that raises register VF.
pub open spec fn draw_collision(
    fb: Seq<Pixel>,
    mem: Seq<u8>,
    index: int,
    vx: u8,
    vy: u8,
    n: int,
) -> bool {
    partial_collision(fb, mem, index, vx, vy, n, 0)
}

/// Whether any sprite cell lexicographically before row `i`, bit `j` is set.
pub open spec fn partial_changed(mem: Seq<u8>, index: int, i: int, j: int) -> bool {
    exists|a: int, b: int|
        0 <= a && 0 <= b < 8 && (a < i || (a == i && b < j)) && #[trigger] sprite_bit(
            mem,
            index,
            a,
            b,
        )
}

/// Whether any cell of an `n`-row sprite is set; every set cell flips its
/// target pixel, so this is exactly when the draw changes the framebuffer.
pub open spec fn draw_changes(mem: Seq<u8>, index: int, n: int) -> bool {
    partial_changed(mem, index, n, 0)
}

/// Whether drawing an `n`-row sprite turns at least one unlit pixel lit.
pub open spec fn draw_lights(
    fb: Seq<Pixel>,
    mem: Seq<u8>,
    index: int,
    vx: u8,
    vy: u8,
    n: int,
) -> bool {
    exists|a: int, b: int|
        0 <= a < n && 0 <= b < 8 && #[trigger] sprite_bit(mem, index, a, b) && !fb[
            cell_of(vx, vy, a, b)
        ].lit()
}

/// Stepping a wrapped coordinate back by the starting position recovers the
/// sprite offset.
proof fn lemma_wrap_offset_inverse(v: u8, t: int, m: int)
    requires
        0 <= t < m,
        0 < m,
    ensures
        ((v + t) % m - v) % m == t,
{
    vstd::arithmetic::div_mod::lemma_fundamental_div_mod(v + t, m);
    let q = (v + t) / m;
    assert((v + t) % m - v == m * (-q) + t) by (nonlinear_arith)
        requires
            v + t == m * q + (v + t) % m,
    ;
    vstd::arithmetic::div_mod::lemma_mod_multiples_vanish(-q, t, m);
    vstd::arithmetic::div_mod::lemma_small_mod(t as nat, m as nat);
}

/// Adding a sprite offset back to the starting position recovers the wrapped
/// coordinate it was derived from.
proof fn lemma_wrap_offset_forward(v: u8, r: int, m: int)
    requires
        0 <= r < m,
        0 < m,
    ensures
        (v + ((r - v) % m)) % m == r,
{
    vstd::arithmetic::div_mod::lemma_fundamental_div_mod(r - v, m);
    let q = (r - v) / m;
    assert(v + (r - v) % m == m * (-q) + r) by (nonlinear_arith)
        requires
            r - v == m * q + (r - v) % m,
    ;
    vstd::arithmetic::div_mod::lemma_mod_multiples_vanish(-q, r, m);
    vstd::arithmetic::div_mod::lemma_small_mod(r as nat, m as nat);
}

/// The target cell of sprite cell (i, j) is in bounds, and its row and
/// column offsets are exactly (i, j).
pub proof fn lemma_cell_offsets(vx: u8, vy: u8, i: int, j: int)
    requires
        0 <= i < 32,
        0 <= j < 64,
    ensures
        0 <= wrap_row(vy, i) < 32,
        0 <= wrap_col(vx, j) < 64,
        0 <= cell_of(vx, vy, i, j) < 2048,
        cell_of(vx, vy, i, j) / 64 == wrap_row(vy, i),
        cell_of(vx, vy, i, j) % 64 == wrap_col(vx, j),
        row_offset(vy, cell_of(vx, vy, i, j) / 64) == i,
        col_offset(vx, cell_of(vx, vy, i, j) % 64) == j,
{
    vstd::arithmetic::div_mod::lemma_mod_bound(vy + i, 32);
    vstd::arithmetic::div_mod::lemma_mod_bound(vx + j, 64);
    let r = wrap_row(vy, i);
    let c = wrap_col(vx, j);
    vstd::arithmetic::div_mod::lemma_fundamental_div_mod_converse(r * 64 + c, 64, r, c);
    lemma_wrap_offset_inverse(vy, i, 32);
    lemma_wrap_offset_inverse(vx, j, 64);
}

/// Distinct sprite cells land on distinct framebuffer cells: a framebuffer
/// cell whose offsets are (i, j) is the target cell of (i, j).
proof fn lemma_cell_unique(vx: u8, vy: u8, i: int, j: int, t: int)
    requires
        0 <= i < 32,
        0 <= j < 64,
        0 <= t < 2048,
        row_offset(vy, t / 64) == i,
        col_offset(vx, t % 64) == j,
    ensures
        t == cell_of(vx, vy, i, j),
{
    let r = t / 64;
    let c = t % 64;
    vstd::arithmetic::div_mod::lemma_mod_bound(t, 64);
    vstd::arithmetic::div_mod::lemma_fundamental_div_mod(t, 64);
    lemma_wrap_offset_forward(vy, r, 32);
    lemma_wrap_offset_forward(vx, c, 64);
}

/// Before any cell is composited the framebuffer is unchanged, no collision
/// has been seen and nothing has changed.
proof fn lemma_draw_init(fb: Seq<Pixel>, mem: Seq<u8>, index: int, vx: u8, vy: u8)
    requires
        fb.len() == 2048,
    ensures
        partial_draw(fb, mem, index, vx, vy, 0, 0) == fb,
        !partial_collision(fb, mem, index, vx, vy, 0, 0),
        !partial_changed(mem, index, 0, 0),
{
    assert forall|t: int| 0 <= t < 2048 implies partial_draw(fb, mem, index, vx, vy, 0, 0)[t]
        == fb[t] by {
        vstd::arithmetic::div_mod::lemma_mod_bound(t / 64 - vy, 32);
        vstd::arithmetic::div_mod::lemma_mod_bound(t % 64 - vx, 64);
    }
    assert(partial_draw(fb, mem, index, vx, vy, 0, 0) =~= fb);
    if partial_collision(fb, mem, index, vx, vy, 0, 0) {
        let (a, b) = choose|a: int, b: int|
            0 <= a && 0 <= b < 8 && (a < 0 || (a == 0 && b < 0)) && #[trigger] sprite_bit(
                mem,
                index,
                a,
                b,
            ) && fb[cell_of(vx, vy, a, b)].lit();
        assert(false);
    }
    if partial_changed(mem, index, 0, 0) {
        let (a, b) = choose|a: int, b: int|
            0 <= a && 0 <= b < 8 && (a < 0 || (a == 0 && b < 0)) && #[trigger] sprite_bit(
                mem,
                index,
                a,
                b,
            );
        assert(false);
    }
}

/// Compositing one more sprite cell updates exactly its target cell, which
/// the draw has not touched before.
proof fn lemma_draw_step(fb: Seq<Pixel>, mem: Seq<u8>, index: int, vx: u8, vy: u8, i: int, j: int)
    requires
        fb.len() == 2048,
        0 <= i < 32,
        0 <= j < 8,
    ensures
        0 <= cell_of(vx, vy, i, j) < 2048,
        partial_draw(fb, mem, index, vx, vy, i, j)[cell_of(vx, vy, i, j)] == fb[cell_of(
            vx,
            vy,
            i,
            j,
        )],
        partial_draw(fb, mem, index, vx, vy, i, j + 1) == partial_draw(
            fb,
            mem,
            index,
            vx,
            vy,
            i,
            j,
        ).update(
            cell_of(vx, vy, i, j),
            spec_xor(fb[cell_of(vx, vy, i, j)], sprite_pixel(mem, index, i, j)),
        ),
{
    lemma_cell_offsets(vx, vy, i, j);
    let k = cell_of(vx, vy, i, j);
    let lhs = partial_draw(fb, mem, index, vx, vy, i, j + 1);
    let rhs = partial_draw(fb, mem, index, vx, vy, i, j).update(
        k,
        spec_xor(fb[k], sprite_pixel(mem, index, i, j)),
    );
    assert forall|t: int| 0 <= t < 2048 implies lhs[t] == rhs[t] by {
        if t != k {
            if row_offset(vy, t / 64) == i && col_offset(vx, t % 64) == j {
                lemma_cell_unique(vx, vy, i, j, t);
            }
        }
    }
    assert(lhs =~= rhs);
}

/// Compositing one more sprite cell extends the collision and change
/// conditions by exactly that cell's contribution.
proof fn lemma_flags_step(fb: Seq<Pixel>, mem: Seq<u8>, index: int, vx: u8, vy: u8, i: int, j: int)
    requires
        0 <= i,
        0 <= j < 8,
    ensures
        partial_collision(fb, mem, index, vx, vy, i, j + 1) == (partial_collision(
            fb,
            mem,
            index,
            vx,
            vy,
            i,
            j,
        ) || (sprite_bit(mem, index, i, j) && fb[cell_of(vx, vy, i, j)].lit())),
        partial_changed(mem, index, i, j + 1) == (partial_changed(mem, index, i, j) || sprite_bit(
            mem,
            index,
            i,
            j,
        )),
{
    if partial_collision(fb, mem, index, vx, vy, i, j + 1) {
        let (a, b) = choose|a: int, b: int|
            0 <= a && 0 <= b < 8 && (a < i || (a == i && b < j + 1)) && #[trigger] sprite_bit(
                mem,
                index,
                a,
                b,
            ) && fb[cell_of(vx, vy, a, b)].lit();
        if !(a == i && b == j) {
            assert(a < i || (a == i && b < j));
            assert(partial_collision(fb, mem, index, vx, vy, i, j));
        }
    }
    if partial_collision(fb, mem, index, vx, vy, i, j) {
        let (a, b) = choose|a: int, b: int|
            0 <= a && 0 <= b < 8 && (a < i || (a == i && b < j)) && #[trigger] sprite_bit(
                mem,
                index,
                a,
                b,
            ) && fb[cell_of(vx, vy, a, b)].lit();
        assert(partial_collision(fb, mem, index, vx, vy, i, j + 1));
    }
    if partial_changed(mem, index, i, j + 1) {
        let (a, b) = choose|a: int, b: int|
            0 <= a && 0 <= b < 8 && (a < i || (a == i && b < j + 1)) && #[trigger] sprite_bit(
                mem,
                index,
                a,
                b,
            );
        if !(a == i && b == j) {
            assert(a < i || (a == i && b < j));
            assert(partial_changed(mem, index, i, j));
        }
    }
    if partial_changed(mem, index, i, j) {
        let (a, b) = choose|a: int, b: int|
            0 <= a && 0 <= b < 8 && (a < i || (a == i && b < j)) && #[trigger] sprite_bit(
                mem,
                index,
                a,
                b,
            );
        assert(partial_changed(mem, index, i, j + 1));
    }
}

/// Finishing a sprite row is the same as standing at the start of the next.
proof fn lemma_row_rollover(fb: Seq<Pixel>, mem: Seq<u8>, index: int, vx: u8, vy: u8, i: int)
    requires
        fb.len() == 2048,
        0 <= i,
    ensures
        partial_draw(fb, mem, index, vx, vy, i, 8) == partial_draw(fb, mem, index, vx, vy, i + 1, 0),
        partial_collision(fb, mem, index, vx, vy, i, 8) == partial_collision(
            fb,
            mem,
            index,
            vx,
            vy,
            i + 1,
            0,
        ),
        partial_changed(mem, index, i, 8) == partial_changed(mem, index, i + 1, 0),
{
    assert(partial_draw(fb, mem, index, vx, vy, i, 8) =~= partial_draw(
        fb,
        mem,
        index,
        vx,
        vy,
        i + 1,
        0,
    ));
    if partial_collision(fb, mem, index, vx, vy, i, 8) {
        let (a, b) = choose|a: int, b: int|
            0 <= a && 0 <= b < 8 && (a < i || (a == i && b < 8)) && #[trigger] sprite_bit(
                mem,
                index,
                a,
                b,
            ) && fb[cell_of(vx, vy, a, b)].lit();
        assert(a < i + 1);
        assert(partial_collision(fb, mem, index, vx, vy, i + 1, 0));
    }
    if partial_collision(fb, mem, index, vx, vy, i + 1, 0) {
        let (a, b) = choose|a: int, b: int|
            0 <= a && 0 <= b < 8 && (a < i + 1 || (a == i + 1 && b < 0)) && #[trigger] sprite_bit(
                mem,
                index,
                a,
                b,
            ) && fb[cell_of(vx, vy, a, b)].lit();
        assert(a < i || (a == i && b < 8));
        assert(partial_collision(fb, mem, index, vx, vy, i, 8));
    }
    if partial_changed(mem, index, i, 8) {
        let (a, b) = choose|a: int, b: int|
            0 <= a && 0 <= b < 8 && (a < i || (a == i && b < 8)) && #[trigger] sprite_bit(
                mem,
                index,
                a,
                b,
            );
        assert(a < i + 1);
        assert(partial_changed(mem, index, i + 1, 0));
    }
    if partial_changed(mem, index, i + 1, 0) {
        let (a, b) = choose|a: int, b: int|
            0 <= a && 0 <= b < 8 && (a < i + 1 || (a == i + 1 && b < 0)) && #[trigger] sprite_bit(
                mem,
                index,
                a,
                b,
            );
        assert(a < i || (a == i && b < 8));
        assert(partial_changed(mem, index, i, 8));
    }
}

/// A draw changes the framebuffer exactly when some cell of the sprite is
/// set, since every set cell flips its target pixel and target cells are
/// distinct.
pub proof fn lemma_draw_changes_iff(
    fb: Seq<Pixel>,
    mem: Seq<u8>,
    index: int,
    vx: u8,
    vy: u8,
    n: int,
)
    requires
        fb.len() == 2048,
        0 <= n <= 15,
    ensures
        draw_changes(mem, index, n) <==> draw_fb(fb, mem, index, vx, vy, n) != fb,
{
    if draw_changes(mem, index, n) {
        let (a, b) = choose|a: int, b: int|
            0 <= a && 0 <= b < 8 && (a < n || (a == n && b < 0)) && #[trigger] sprite_bit(
                mem,
                index,
                a,
                b,
            );
        lemma_cell_offsets(vx, vy, a, b);
        let k = cell_of(vx, vy, a, b);
        assert(draw_fb(fb, mem, index, vx, vy, n)[k] == spec_xor(
            fb[k],
            sprite_pixel(mem, index, a, b),
        ));
        assert(draw_fb(fb, mem, index, vx, vy, n)[k] != fb[k]);
    } else {
        assert forall|t: int| 0 <= t < 2048 implies draw_fb(fb, mem, index, vx, vy, n)[t]
            == fb[t] by {
            vstd::arithmetic::div_mod::lemma_mod_bound(t / 64 - vy, 32);
            vstd::arithmetic::div_mod::lemma_mod_bound(t % 64 - vx, 64);
            let oi = row_offset(vy, t / 64);
            let oj = col_offset(vx, t % 64);
            if oi < n && oj < 8 {
                if sprite_bit(mem, index, oi, oj) {
                    assert(partial_changed(mem, index, n, 0));
                    assert(false);
                }
            }
        }
        assert(draw_fb(fb, mem, index, vx, vy, n) =~= fb);
    }
}

/// Draws an `n`-row sprite read from memory at `index` at screen position
/// (`vx`, `vy`): every set sprite cell flips its target pixel, each pixel's
/// coordinate wrapping toroidally. Returns whether a previously lit pixel
/// was erased (the collision flag) and whether any pixel changed.
#[verifier::loop_isolation(false)]
pub fn draw_sprite(
    display: &mut Display,
    memory: &Vec<u8>,
    index: u16,
    vx: u8,
    vy: u8,
    n: u8,
) -> (r: (bool, bool))
    requires
        old(display).wf(),
        memory@.len() == 4096,
        n <= 15,
        index + n <= 4096,
    ensures
        final(display).wf(),
        final(display)@ == draw_fb(old(display)@, memory@, index as int, vx, vy, n as int),
        r.0 == draw_collision(old(display)@, memory@, index as int, vx, vy, n as int),
        r.1 == draw_changes(memory@, index as int, n as int),
{
    let ghost fb0 = display@;
    let mut collision = false;
    let mut changed = false;
    proof {
        lemma_draw_init(fb0, memory@, index as int, vx, vy);
    }
    let mut i: u8 = 0;
    while i < n
        invariant
            i <= n,
            display.wf(),
            display@ == partial_draw(fb0, memory@, index as int, vx, vy, i as int, 0),
            collision == partial_collision(fb0, memory@, index as int, vx, vy, i as int, 0),
            changed == partial_changed(memory@, index as int, i as int, 0),
        decreases n - i,
    {
        let row: u8 = memory[(index as usize) + (i as usize)];
        let mut j: u8 = 0;
        while j < 8
            invariant
                j <= 8,
                i < n,
                display.wf(),
                display@ == partial_draw(fb0, memory@, index as int, vx, vy, i as int, j as int),
                collision == partial_collision(
                    fb0,
                    memory@,
                    index as int,
                    vx,
                    vy,
                    i as int,
                    j as int,
                ),
                changed == partial_changed(memory@, index as int, i as int, j as int),
            decreases 8 - j,
        {
            let bit = bit_at(row, 7 - j);
            let row_coord: usize = ((vy as usize) + (i as usize)) % 32;
            let col_coord: usize = ((vx as usize) + (j as usize)) % 64;
            proof {
                lemma_draw_step(fb0, memory@, index as int, vx, vy, i as int, j as int);
                lemma_flags_step(fb0, memory@, index as int, vx, vy, i as int, j as int);
                assert(row_coord == wrap_row(vy, i as int));
                assert(col_coord == wrap_col(vx, j as int));
                assert(row_coord * 64 + col_coord == cell_of(vx, vy, i as int, j as int));
            }
            let px = display.get(row_coord, col_coord);
            let sprite_px = if bit {
                Pixel::White
            } else {
                Pixel::Black
            };
            let res = px.xor(sprite_px);
            if bit {
                changed = true;
                if px == Pixel::White {
                    collision = true;
                }
            }
            display.set(row_coord, col_coord, res);
            j = j + 1;
        }
        proof {
            lemma_row_rollover(fb0, memory@, index as int, vx, vy, i as int);
        }
        i = i + 1;
    }
    (collision, changed)
}

} // verus!
