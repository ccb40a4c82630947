//! Laws of the executor that relate several operations: wraparound
//! arithmetic leaves the flag register alone, clearing the screen is
//! idempotent, and XOR drawing is its own inverse.

use vstd::prelude::*;

verus! {

use crate::display::{Pixel, all_unlit, spec_xor};
use crate::draw::{
    cell_of,
    col_offset,
    draw_collision,
    draw_fb,
    draw_lights,
    lemma_cell_offsets,
    row_offset,
    sprite_bit,
    sprite_pixel,
};
use crate::instruction::{Address, Instruction};
use crate::interpreter::{VmState, spec_execute};
use crate::nibble::Nibble;

/// Adding an immediate to a register wraps modulo 256 and changes nothing
/// else; in particular the flag register VF keeps its value whenever it is
/// not itself the target.
pub proof fn lemma_add_wraps_and_preserves_vf(s: VmState, reg: Address, val: u8)
    requires
        s.wf(),
        reg < 0xF,
    ensures
        spec_execute(s, Instruction::Add(reg, val)).regs[reg as int] == (s.regs[reg as int] + val)
            % 256,
        spec_execute(s, Instruction::Add(reg, val)).regs[0xF] == s.regs[0xF],
        forall|i: int|
            0 <= i < 16 && i != reg ==> spec_execute(s, Instruction::Add(reg, val)).regs[i]
                == s.regs[i],
        spec_execute(s, Instruction::Add(reg, val)).display == s.display,
        spec_execute(s, Instruction::Add(reg, val)).memory == s.memory,
        spec_execute(s, Instruction::Add(reg, val)).index == s.index,
        spec_execute(s, Instruction::Add(reg, val)).pc == s.pc,
{
    vstd::arithmetic::div_mod::lemma_mod_bound(s.regs[reg as int] + val, 256);
}

/// Clearing the screen is idempotent: a second ClearScreen yields exactly
/// the same machine, with the all-unlit framebuffer, as the first.
pub proof fn lemma_clear_screen_idempotent(s: VmState)
    ensures
        spec_execute(spec_execute(s, Instruction::ClearScreen), Instruction::ClearScreen)
            == spec_execute(s, Instruction::ClearScreen),
        all_unlit(spec_execute(s, Instruction::ClearScreen).display),
{
    assert(spec_execute(spec_execute(s, Instruction::ClearScreen), Instruction::ClearScreen)
        =~= spec_execute(s, Instruction::ClearScreen));
}

/// Drawing the same sprite at the same position twice restores the whole
/// framebuffer, since XOR compositing is its own inverse; and the second
/// draw collides exactly when the first turned some unlit pixel lit.
pub proof fn lemma_draw_self_inverse(
    fb: Seq<Pixel>,
    mem: Seq<u8>,
    index: int,
    vx: u8,
    vy: u8,
    n: int,
)
    requires
        fb.len() == 2048,
        0 <= n <= 15,
    ensures
        draw_fb(draw_fb(fb, mem, index, vx, vy, n), mem, index, vx, vy, n) == fb,
        draw_collision(draw_fb(fb, mem, index, vx, vy, n), mem, index, vx, vy, n) <==> draw_lights(
            fb,
            mem,
            index,
            vx,
            vy,
            n,
        ),
{
    let fb1 = draw_fb(fb, mem, index, vx, vy, n);
    assert forall|t: int| 0 <= t < 2048 implies draw_fb(fb1, mem, index, vx, vy, n)[t] == fb[t] by {
        let oi = row_offset(vy, t / 64);
        let oj = col_offset(vx, t % 64);
        if oi < n && oj < 8 {
            let q = sprite_pixel(mem, index, oi, oj);
            assert(fb1[t] == spec_xor(fb[t], q));
            assert(spec_xor(spec_xor(fb[t], q), q) == fb[t]);
        }
    }
    assert(draw_fb(fb1, mem, index, vx, vy, n) =~= fb);
    if draw_collision(fb1, mem, index, vx, vy, n) {
        let (a, b) = choose|a: int, b: int|
            0 <= a && 0 <= b < 8 && (a < n || (a == n && b < 0)) && #[trigger] sprite_bit(
                mem,
                index,
                a,
                b,
            ) && fb1[cell_of(vx, vy, a, b)].lit();
        lemma_cell_offsets(vx, vy, a, b);
        let k = cell_of(vx, vy, a, b);
        assert(fb1[k] == spec_xor(fb[k], Pixel::White));
        assert(!fb[k].lit());
        assert(draw_lights(fb, mem, index, vx, vy, n));
    }
    if draw_lights(fb, mem, index, vx, vy, n) {
        let (a, b) = choose|a: int, b: int|
            0 <= a < n && 0 <= b < 8 && #[trigger] sprite_bit(mem, index, a, b) && !fb[
                cell_of(vx, vy, a, b)
            ].lit();
        lemma_cell_offsets(vx, vy, a, b);
        let k = cell_of(vx, vy, a, b);
        assert(fb1[k] == spec_xor(fb[k], Pixel::White));
        assert(fb1[k].lit());
        assert(draw_collision(fb1, mem, index, vx, vy, n));
    }
}

/// Executing the same Draw instruction twice in succession restores the
/// framebuffer to its pre-draw state, and the second execution raises the
/// collision flag exactly when the first lit any pixel. The coordinate
/// registers must not be VF itself, which the first draw overwrites with its
/// collision flag.
pub proof fn lemma_draw_twice_restores(s: VmState, x: Nibble, y: Nibble, n: Nibble)
    requires
        s.wf(),
        x.wf(),
        y.wf(),
        n.wf(),
        x.0 != 0xF,
        y.0 != 0xF,
    ensures
        spec_execute(spec_execute(s, Instruction::Draw(x, y, n)), Instruction::Draw(x, y, n))
            .display == s.display,
        spec_execute(spec_execute(s, Instruction::Draw(x, y, n)), Instruction::Draw(x, y, n)).regs[
            0xF
        ] == (if draw_lights(
            s.display,
            s.memory,
            s.index as int,
            s.regs[x.0 as int],
            s.regs[y.0 as int],
            n.0 as int,
        ) {
            1u8
        } else {
            0u8
        }),
{
    let s1 = spec_execute(s, Instruction::Draw(x, y, n));
    let vx = s.regs[x.0 as int];
    let vy = s.regs[y.0 as int];
    assert(s1.regs[x.0 as int] == vx);
    assert(s1.regs[y.0 as int] == vy);
    lemma_draw_self_inverse(s.display, s.memory, s.index as int, vx, vy, n.0 as int);
}

} // verus!
