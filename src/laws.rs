//! Properties of the instruction semantics that span all inputs or several
//! instructions, proved over the transition rules that the engine follows.
use vstd::prelude::*;

use crate::engine::{execute_spec, sprite_covers, MAX_ADDRESS};
use crate::machine::{Chip8Error, MachineView, SCREEN_PIXELS, STACK_DEPTH};
use crate::opcode::{decode, field_class, field_n, field_nn, field_x, field_y, OpCodeSymbol};

verus! {

/// `7XNN`, `8XY4`, `8XY5` and `8XY7` compute modulo 256 for every pair of
/// operands: `7XNN` leaves `VF` alone, `8XY4` sets it to the carry, and
/// `8XY5` / `8XY7` set it to 1 exactly when the subtraction does not borrow.
/// The flag is written last, so with `X = F` the register holds the flag.
pub proof fn lemma_arithmetic_wraps(s: MachineView, x: int, y: int, nn: int, rnd: u8)
    requires
        s.wf(),
        0 <= x < 16,
        0 <= y < 16,
        0 <= nn < 256,
        s.pc + 2 <= MAX_ADDRESS,
    ensures
        ({
            let vx = s.v[x] as int;
            let vy = s.v[y] as int;
            let add_imm = execute_spec(s, (0x7000 + x * 0x100 + nn) as u16, rnd);
            let add = execute_spec(s, (0x8004 + x * 0x100 + y * 0x10) as u16, rnd);
            let sub = execute_spec(s, (0x8005 + x * 0x100 + y * 0x10) as u16, rnd);
            let sub_rev = execute_spec(s, (0x8007 + x * 0x100 + y * 0x10) as u16, rnd);
            &&& add_imm is Ok && add_imm->Ok_0.0.v[x] == (vx + nn) % 256
            &&& x != 0xF ==> add_imm->Ok_0.0.v[0xF] == s.v[0xF]
            &&& add is Ok && add->Ok_0.0.v[0xF] == (if vx + vy > 255 { 1int } else { 0 })
            &&& x != 0xF ==> add->Ok_0.0.v[x] == (vx + vy) % 256
            &&& sub is Ok && sub->Ok_0.0.v[0xF] == (if vx >= vy { 1int } else { 0 })
            &&& x != 0xF ==> sub->Ok_0.0.v[x] == (vx - vy) % 256
            &&& sub_rev is Ok && sub_rev->Ok_0.0.v[0xF] == (if vy >= vx { 1int } else { 0 })
            &&& x != 0xF ==> sub_rev->Ok_0.0.v[x] == (vy - vx) % 256
        }),
{
    lemma_fields(7, x, nn / 0x10, nn % 0x10);
    lemma_fields(8, x, y, 4);
    lemma_fields(8, x, y, 5);
    lemma_fields(8, x, y, 7);
    let w_imm = (0x7000 + x * 0x100 + nn) as u16;
    let w_add = (0x8004 + x * 0x100 + y * 0x10) as u16;
    let w_sub = (0x8005 + x * 0x100 + y * 0x10) as u16;
    let w_rev = (0x8007 + x * 0x100 + y * 0x10) as u16;
    lemma_add_imm(s, w_imm, rnd);
    lemma_alu_flag(s, w_add, rnd);
    lemma_alu_flag(s, w_sub, rnd);
    lemma_alu_flag(s, w_rev, rnd);
}

/// The fields of a word assembled from four nibbles.
proof fn lemma_fields(class: int, x: int, y: int, n: int)
    requires
        0 <= class < 16,
        0 <= x < 16,
        0 <= y < 16,
        0 <= n < 16,
    ensures
        ({
            let w = (class * 0x1000 + x * 0x100 + y * 0x10 + n) as u16;
            &&& w as int == class * 0x1000 + x * 0x100 + y * 0x10 + n
            &&& field_class(w) == class
            &&& field_x(w) == x
            &&& field_y(w) == y
            &&& field_n(w) == n
            &&& field_nn(w) == y * 0x10 + n
        }),
{
    let w = class * 0x1000 + x * 0x100 + y * 0x10 + n;
    assert(w / 0x1000 == class) by (nonlinear_arith)
        requires w == class * 0x1000 + x * 0x100 + y * 0x10 + n, 0 <= x < 16, 0 <= y < 16, 0 <= n < 16;
    assert((w / 0x100) % 0x10 == x) by (nonlinear_arith)
        requires w == class * 0x1000 + x * 0x100 + y * 0x10 + n, 0 <= x < 16, 0 <= y < 16, 0 <= n < 16, 0 <= class < 16;
    assert((w / 0x10) % 0x10 == y) by (nonlinear_arith)
        requires w == class * 0x1000 + x * 0x100 + y * 0x10 + n, 0 <= x < 16, 0 <= y < 16, 0 <= n < 16, 0 <= class < 16;
    assert(w % 0x10 == n) by (nonlinear_arith)
        requires w == class * 0x1000 + x * 0x100 + y * 0x10 + n, 0 <= x < 16, 0 <= y < 16, 0 <= n < 16, 0 <= class < 16;
    assert(w % 0x100 == y * 0x10 + n) by (nonlinear_arith)
        requires w == class * 0x1000 + x * 0x100 + y * 0x10 + n, 0 <= x < 16, 0 <= y < 16, 0 <= n < 16, 0 <= class < 16;
}

/// What `7XNN` does to `VX` and `VF`.
proof fn lemma_add_imm(s: MachineView, w: u16, rnd: u8)
    requires
        s.wf(),
        field_class(w) == 7,
        s.pc + 2 <= MAX_ADDRESS,
    ensures
        ({
            let out = execute_spec(s, w, rnd);
            &&& out is Ok
            &&& out->Ok_0.0.v[field_x(w)] == (s.v[field_x(w)] + field_nn(w)) % 256
            &&& field_x(w) != 0xF ==> out->Ok_0.0.v[0xF] == s.v[0xF]
        }),
{
    assert(decode(w) is AddImm);
}

/// What `8XY4`, `8XY5` and `8XY7` do to `VX` and `VF`.
proof fn lemma_alu_flag(s: MachineView, w: u16, rnd: u8)
    requires
        s.wf(),
        field_class(w) == 8,
        field_n(w) == 4 || field_n(w) == 5 || field_n(w) == 7,
        s.pc + 2 <= MAX_ADDRESS,
    ensures
        ({
            let vx = s.v[field_x(w)] as int;
            let vy = s.v[field_y(w)] as int;
            let out = execute_spec(s, w, rnd);
            &&& out is Ok
            &&& field_n(w) == 4 ==> out->Ok_0.0.v[0xF] == (if vx + vy > 255 { 1int } else { 0 })
            &&& field_n(w) == 4 && field_x(w) != 0xF ==> out->Ok_0.0.v[field_x(w)] == (vx + vy) % 256
            &&& field_n(w) == 5 ==> out->Ok_0.0.v[0xF] == (if vx >= vy { 1int } else { 0 })
            &&& field_n(w) == 5 && field_x(w) != 0xF ==> out->Ok_0.0.v[field_x(w)] == (vx - vy) % 256
            &&& field_n(w) == 7 ==> out->Ok_0.0.v[0xF] == (if vy >= vx { 1int } else { 0 })
            &&& field_n(w) == 7 && field_x(w) != 0xF ==> out->Ok_0.0.v[field_x(w)] == (vy - vx) % 256
        }),
{
}

/// Clearing the screen turns every pixel off, whatever was lit, and asks
/// for a redraw.
pub proof fn lemma_clear_screen(s: MachineView, rnd: u8)
    requires
        s.wf(),
        s.pc + 2 <= MAX_ADDRESS,
    ensures
        ({
            let out = execute_spec(s, 0x00E0, rnd);
            &&& out is Ok
            &&& out->Ok_0.0.gfx.len() == SCREEN_PIXELS
            &&& forall|p: int| 0 <= p < SCREEN_PIXELS ==> !#[trigger] out->Ok_0.0.gfx[p]
            &&& out->Ok_0.0.draw_flag
            &&& out->Ok_0.0.pc == s.pc + 2
        }),
{
    assert(decode(0x00E0) is ClearScreen);
}

/// A call followed by a return resumes after the call, with the stack as
/// deep as before.
pub proof fn lemma_call_then_return(s: MachineView, nnn: int, rnd: u8)
    requires
        s.wf(),
        s.sp < STACK_DEPTH,
        0 <= nnn <= MAX_ADDRESS,
        s.pc + 2 <= MAX_ADDRESS,
    ensures
        ({
            let call = execute_spec(s, (0x2000 + nnn) as u16, rnd);
            let ret = execute_spec(call->Ok_0.0, 0x00EE, rnd);
            &&& call is Ok
            &&& call->Ok_0.0.pc == nnn
            &&& call->Ok_0.0.sp == s.sp + 1
            &&& ret is Ok
            &&& ret->Ok_0.0.pc == s.pc + 2
            &&& ret->Ok_0.0.sp == s.sp
        }),
{
    let w = (0x2000 + nnn) as u16;
    assert(decode(w) is Call && (w as int) % 0x1000 == nnn);
    assert(decode(0x00EE) is Return);
}

/// With all sixteen stack levels in use, a further call is refused.
pub proof fn lemma_call_overflow(s: MachineView, nnn: int, rnd: u8)
    requires
        s.wf(),
        s.sp == STACK_DEPTH,
        0 <= nnn <= MAX_ADDRESS,
    ensures
        execute_spec(s, (0x2000 + nnn) as u16, rnd) == Err::<(MachineView, crate::engine::CycleStatus), Chip8Error>(
            Chip8Error::StackOverflow,
        ),
{
    let w = (0x2000 + nnn) as u16;
    assert(decode(w) is Call);
}

/// Drawing the same sprite twice at the same place restores the screen.
/// The first draw collides exactly when a pixel under the sprite was lit,
/// the second exactly when one was dark; so on a dark region only the
/// second draw reports a collision, and it does whenever the sprite has a
/// set bit. The position registers must not be `VF`, which the first draw
/// overwrites.
pub proof fn lemma_draw_twice(s: MachineView, w: u16, rnd: u8)
    requires
        s.wf(),
        decode(w) is Draw,
        field_x(w) != 0xF,
        field_y(w) != 0xF,
        field_n(w) == 0 || s.i + field_n(w) <= 0x1000,
        s.pc + 4 <= MAX_ADDRESS,
    ensures
        ({
            let vx = s.v[field_x(w)] as int;
            let vy = s.v[field_y(w)] as int;
            let n = field_n(w);
            let first = execute_spec(s, w, rnd);
            let second = execute_spec(first->Ok_0.0, w, rnd);
            let lit_under = exists|p: int|
                0 <= p < SCREEN_PIXELS && #[trigger] sprite_covers(s, vx, vy, n, p) && s.gfx[p];
            let dark_under = exists|p: int|
                0 <= p < SCREEN_PIXELS && #[trigger] sprite_covers(s, vx, vy, n, p) && !s.gfx[p];
            &&& first is Ok
            &&& second is Ok
            &&& second->Ok_0.0.gfx == s.gfx
            &&& first->Ok_0.0.v[0xF] == (if lit_under { 1int } else { 0 })
            &&& second->Ok_0.0.v[0xF] == (if dark_under { 1int } else { 0 })
            &&& !lit_under ==> (first->Ok_0.0.v[0xF] == 0 && (second->Ok_0.0.v[0xF] == 1
                <==> exists|p: int| 0 <= p < SCREEN_PIXELS && #[trigger] sprite_covers(s, vx, vy, n, p)))
        }),
{
    let x = field_x(w);
    let y = field_y(w);
    let n = field_n(w);
    let vx = s.v[x] as int;
    let vy = s.v[y] as int;
    let t = execute_spec(s, w, rnd)->Ok_0.0;
    assert(t.v[x] == s.v[x] && t.v[y] == s.v[y]);
    assert(t.memory == s.memory && t.i == s.i);
    assert forall|p: int| #[trigger] sprite_covers(t, vx, vy, n, p) == sprite_covers(s, vx, vy, n, p) by {}
    let u = execute_spec(t, w, rnd)->Ok_0.0;
    assert(u.gfx =~= s.gfx);
    let lit_under = exists|p: int|
        0 <= p < SCREEN_PIXELS && #[trigger] sprite_covers(s, vx, vy, n, p) && s.gfx[p];
    let dark_under = exists|p: int|
        0 <= p < SCREEN_PIXELS && #[trigger] sprite_covers(s, vx, vy, n, p) && !s.gfx[p];
    let second_hit = exists|p: int|
        0 <= p < SCREEN_PIXELS && #[trigger] sprite_covers(t, vx, vy, n, p) && t.gfx[p];
    if dark_under {
        let q = choose|q: int| 0 <= q < SCREEN_PIXELS && #[trigger] sprite_covers(s, vx, vy, n, q) && !s.gfx[q];
        assert(sprite_covers(t, vx, vy, n, q) && t.gfx[q]);
    }
    if second_hit {
        let q = choose|q: int| 0 <= q < SCREEN_PIXELS && #[trigger] sprite_covers(t, vx, vy, n, q) && t.gfx[q];
        assert(sprite_covers(s, vx, vy, n, q) && !s.gfx[q]);
    }
    assert(second_hit == dark_under);
    if !lit_under {
        if exists|p: int| 0 <= p < SCREEN_PIXELS && #[trigger] sprite_covers(s, vx, vy, n, p) {
            let q = choose|q: int| 0 <= q < SCREEN_PIXELS && #[trigger] sprite_covers(s, vx, vy, n, q);
            assert(!s.gfx[q]);
        }
    }
}

} // verus!
