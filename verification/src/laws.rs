use crate::frame::{draw_collision, draw_video, lemma_draw_self_inverse};
use crate::state::{
    add_imm_spec, add_spec, call_spec, dec_to_zero, draw_op_spec, ret_spec, shl_spec, shr_spec,
    sub_rev_spec, sub_spec, MachineView,
};
use vstd::prelude::*;

verus! {

/// Adds wrap at 256 and never fault. The immediate add changes no flag;
/// the register add writes the carry to register 0xF: 1 exactly when the
/// true sum passes 255. (When `x` is 0xF itself, the sum then overwrites
/// the flag, so the flag clause is stated for the other registers.)
pub proof fn lemma_add_wraps(s: MachineView, x: int, y: int, nn: u8)
    requires
        s.wf(),
        0 <= x < 16,
        0 <= y < 16,
    ensures
        add_imm_spec(s, x, nn).regs[x] == (s.regs[x] + nn) % 256,
        add_spec(s, x, y).regs[x] == (s.regs[x] + s.regs[y]) % 256,
        x != 15 ==> (add_spec(s, x, y).regs[15] == 1 <==> s.regs[x] + s.regs[y] > 255),
        x != 15 ==> (add_spec(s, x, y).regs[15] == 0 <==> s.regs[x] + s.regs[y] <= 255),
{
}

/// Subtraction: the result is the difference modulo 256, and register 0xF
/// takes 1 exactly when the minuend is at least the subtrahend (no borrow).
/// The reverse subtract is the same statement with the operands swapped.
/// (When the written register is 0xF itself, the result then overwrites the
/// flag, so the flag clauses are stated for the other registers.)
pub proof fn lemma_sub_borrow(s: MachineView, x: int, y: int)
    requires
        s.wf(),
        0 <= x < 16,
        0 <= y < 16,
    ensures
        sub_spec(s, x, y).regs[x] == (s.regs[x] - s.regs[y]) % 256,
        x != 15 ==> (sub_spec(s, x, y).regs[15] == 1 <==> s.regs[x] >= s.regs[y]),
        sub_rev_spec(s, x, y).regs[y] == (s.regs[y] - s.regs[x]) % 256,
        y != 15 ==> (sub_rev_spec(s, x, y).regs[15] == 1 <==> s.regs[y] >= s.regs[x]),
{
}

/// Shifts: register 0xF takes exactly the bit shifted out, and the written
/// register takes the 8-bit shifted value — the half, respectively the
/// double modulo 256. (For `x` equal to 0xF the result then overwrites the
/// flag, so the flag clauses are stated for the other registers.)
pub proof fn lemma_shift_bits(s: MachineView, x: int)
    requires
        s.wf(),
        0 <= x < 16,
    ensures
        shr_spec(s, x).regs[x] == s.regs[x] / 2,
        x != 15 ==> shr_spec(s, x).regs[15] == s.regs[x] % 2,
        shl_spec(s, x).regs[x] == (2 * s.regs[x]) % 256,
        x != 15 ==> shl_spec(s, x).regs[15] == s.regs[x] / 128,
{
    let a = s.regs[x];
    assert(a >> 1 == a / 2) by (bit_vector);
    assert(a & 1 == a % 2) by (bit_vector);
    assert(a << 1 == (2 * a) % 256) by (bit_vector);
    assert((a >> 7) & 1 == a / 128) by (bit_vector);
}

/// A call followed immediately by a return restores the machine exactly:
/// in particular the program counter again holds the value it had right
/// after the call instruction's fetch, so execution resumes at the
/// instruction following the call.
pub proof fn lemma_call_return(s: MachineView, nnn: u16)
    requires
        s.wf(),
    ensures
        call_spec(s, nnn).stack.len() > 0,
        ret_spec(call_spec(s, nnn)) == s,
{
    assert(call_spec(s, nnn).stack.drop_last() =~= s.stack);
    assert(ret_spec(call_spec(s, nnn)) =~= s);
}

/// Drawing the same sprite at the same anchor twice returns the frame
/// buffer to its state before the first draw — the XOR draw is its own
/// inverse — and register 0xF afterwards reports the second draw's
/// collisions against the once-drawn frame. (Register 0xF as an anchor
/// operand is left out: the first draw overwrites it, which can move the
/// second draw.)
pub proof fn lemma_draw_twice_restores(s: MachineView, x: int, y: int, n: int)
    requires
        s.wf(),
        0 <= x < 16,
        0 <= y < 16,
        x != 15,
        y != 15,
        0 <= n <= 16,
        s.index + n <= 4096,
    ensures
        ({
            let once = draw_op_spec(s, x, y, n);
            let twice = draw_op_spec(once, x, y, n);
            let sprite = s.mem.subrange(s.index as int, s.index as int + n);
            let x0 = (s.regs[x] % 64) as int;
            let y0 = (s.regs[y] % 32) as int;
            &&& twice.video == s.video
            &&& twice.regs[15] == (if draw_collision(once.video, sprite, x0, y0) {
                1u8
            } else {
                0u8
            })
        }),
{
    let once = draw_op_spec(s, x, y, n);
    let sprite = s.mem.subrange(s.index as int, s.index as int + n);
    let sprite2 = once.mem.subrange(once.index as int, once.index as int + n);
    assert(sprite2 =~= sprite);
    let x0 = (s.regs[x] % 64) as int;
    let y0 = (s.regs[y] % 32) as int;
    assert(once.video == draw_video(s.video, sprite, x0, y0));
    lemma_draw_self_inverse(s.video, sprite, x0, y0);
}

/// The delay (or sound) counter after `k` ticks of the timer unit.
pub open spec fn ticks(v: u8, k: nat) -> u8
    decreases k,
{
    if k == 0 {
        v
    } else {
        dec_to_zero(ticks(v, (k - 1) as nat))
    }
}

/// A timer counts down one per tick and floors at zero, never wrapping
/// below it: after at least `v` ticks a counter that started at `v` reads
/// exactly zero, and stays there.
pub proof fn lemma_ticks_floor(v: u8, k: nat)
    ensures
        ticks(v, k) == if k >= v {
            0u8
        } else {
            (v - k) as u8
        },
    decreases k,
{
    if k > 0 {
        lemma_ticks_floor(v, (k - 1) as nat);
    }
}

} // verus!
