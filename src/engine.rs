use vstd::prelude::*;

use crate::machine::{
    Chip8, Chip8Error, MachineView, KEY_COUNT, MEMORY_SIZE, SCREEN_HEIGHT, SCREEN_PIXELS,
    SCREEN_WIDTH, STACK_DEPTH,
};
use crate::opcode::{
    decode, field_n, field_nn, field_nnn, field_x, field_y, OpCode, OpCodeSymbol,
};

verus! {

/// Highest address of memory.
pub const MAX_ADDRESS: u16 = 0xFFF;

/// What a cycle did, when it did not fault.
#[derive(Clone, Copy, Debug, PartialEq, Eq, Structural)]
pub enum CycleStatus {
    /// The instruction ran.
    Executed,
    /// `FX0A` found no key held: the program counter stays put and the
    /// instruction runs again next cycle.
    AwaitingKey,
    /// The word is no instruction; nothing was executed.
    UndefinedOpcode(u16),
    /// `0NNN` asks for native machine code, which this machine cannot run;
    /// nothing was executed.
    UnsupportedOpcode(u16),
}

/// The outcome of one cycle that did not fault.
#[derive(Clone, Copy, Debug, PartialEq, Eq, Structural)]
pub struct CycleReport {
    pub status: CycleStatus,
    /// The sound timer went from 1 to 0 in this cycle.
    pub beep: bool,
}

// ---------------------------------------------------------------------------
// The transition rules
// ---------------------------------------------------------------------------

/// Continue at `target`, which must be an address.
pub open spec fn jump_to(s: MachineView, target: int) -> Result<(MachineView, CycleStatus), Chip8Error> {
    if target <= MAX_ADDRESS {
        Ok((MachineView { pc: target as u16, ..s }, CycleStatus::Executed))
    } else {
        Err(Chip8Error::MemoryFault)
    }
}

/// Continue with the next instruction.
pub open spec fn advance(before: MachineView, after: MachineView) -> Result<(MachineView, CycleStatus), Chip8Error> {
    jump_to(after, before.pc + 2)
}

/// Skip the next instruction when `cond` holds.
pub open spec fn skip_if(s: MachineView, cond: bool) -> Result<(MachineView, CycleStatus), Chip8Error> {
    jump_to(s, if cond { s.pc + 4 } else { s.pc + 2 })
}

/// `s` with register `x` set to `val`.
pub open spec fn with_reg(s: MachineView, x: int, val: u8) -> MachineView {
    MachineView { v: s.v.update(x, val), ..s }
}

/// `s` with register `x` set to `val`, and then `VF` to `flag`.
pub open spec fn with_reg_flag(s: MachineView, x: int, val: u8, flag: u8) -> MachineView {
    MachineView { v: s.v.update(x, val).update(0xF, flag), ..s }
}

/// Key `k` exists and is held.
pub open spec fn key_pressed(s: MachineView, k: int) -> bool {
    k < KEY_COUNT && s.keys[k]
}

/// The highest index below `n` of a held key.
pub open spec fn highest_pressed(keys: Seq<bool>, n: int) -> Option<int>
    decreases n,
{
    if n <= 0 {
        None
    } else if keys[n - 1] {
        Some(n - 1)
    } else {
        highest_pressed(keys, n - 1)
    }
}

/// Bit `c` of a sprite row, counted from the left (most significant) end.
pub open spec fn sprite_bit(row: u8, c: u8) -> bool {
    row & (0x80u8 >> c) != 0
}

/// Column of pixel `p` relative to a sprite drawn at column `vx`, modulo
/// the screen width.
pub open spec fn col_offset(p: int, vx: int) -> int {
    (p % 64 - vx) % 64
}

/// Row of pixel `p` relative to a sprite drawn at row `vy`, modulo the
/// screen height.
pub open spec fn row_offset(p: int, vy: int) -> int {
    (p / 64 - vy) % 32
}

/// Pixel `p` lies under a set bit of the `n`-row sprite at memory `I`,
/// drawn at `(vx, vy)` with wraparound at the screen edges.
pub open spec fn sprite_covers(s: MachineView, vx: int, vy: int, n: int, p: int) -> bool {
    let c = col_offset(p, vx);
    let r = row_offset(p, vy);
    c < 8 && r < n && sprite_bit(s.memory[s.i + r], c as u8)
}

/// Pixel `p` is covered by the sprite and was reached before bit `c` of
/// row `r` in drawing order.
pub open spec fn drawn_before(s: MachineView, vx: int, vy: int, n: int, p: int, r: int, c: int) -> bool {
    sprite_covers(s, vx, vy, n, p) && (row_offset(p, vy) < r || (row_offset(p, vy) == r
        && col_offset(p, vx) < c))
}

/// The pixel that bit `c` of row `r` lands on, for a sprite at `(vx, vy)`,
/// has that row and column as its offsets.
proof fn lemma_pixel_of(vx: int, vy: int, r: int, c: int)
    requires
        0 <= vx < 256,
        0 <= vy < 256,
        0 <= r < 32,
        0 <= c < 64,
    ensures
        ({
            let p = ((vy + r) % 32) * 64 + (vx + c) % 64;
            &&& 0 <= p < SCREEN_PIXELS
            &&& col_offset(p, vx) == c
            &&& row_offset(p, vy) == r
        }),
{
    let p = ((vy + r) % 32) * 64 + (vx + c) % 64;
    assert(p % 64 == (vx + c) % 64 && p / 64 == (vy + r) % 32) by {
        vstd::arithmetic::div_mod::lemma_fundamental_div_mod_converse(
            p,
            64,
            (vy + r) % 32,
            (vx + c) % 64,
        );
    }
    vstd::arithmetic::div_mod::lemma_mod_sub_multiples_vanish(0, 64);
    assert(((vx + c) % 64 - vx) % 64 == c) by {
        vstd::arithmetic::div_mod::lemma_fundamental_div_mod(vx + c, 64);
        vstd::arithmetic::div_mod::lemma_mod_multiples_vanish(-((vx + c) / 64), c, 64);
        vstd::arithmetic::div_mod::lemma_small_mod(c as nat, 64);
    }
    assert(((vy + r) % 32 - vy) % 32 == r) by {
        vstd::arithmetic::div_mod::lemma_fundamental_div_mod(vy + r, 32);
        vstd::arithmetic::div_mod::lemma_mod_multiples_vanish(-((vy + r) / 32), r, 32);
        vstd::arithmetic::div_mod::lemma_small_mod(r as nat, 32);
    }
}

/// A pixel is determined by its offsets from the sprite's position.
proof fn lemma_pixel_unique(p: int, q: int, vx: int, vy: int)
    requires
        0 <= p < SCREEN_PIXELS,
        0 <= q < SCREEN_PIXELS,
        col_offset(p, vx) == col_offset(q, vx),
        row_offset(p, vy) == row_offset(q, vy),
    ensures
        p == q,
{
    assert(p % 64 == q % 64) by {
        vstd::arithmetic::div_mod::lemma_mod_equivalence(p % 64 - vx, q % 64 - vx, 64);
        vstd::arithmetic::div_mod::lemma_mod_equivalence(p % 64, q % 64, 64);
        vstd::arithmetic::div_mod::lemma_small_mod((p % 64) as nat, 64);
        vstd::arithmetic::div_mod::lemma_small_mod((q % 64) as nat, 64);
    }
    assert(p / 64 == q / 64) by {
        vstd::arithmetic::div_mod::lemma_mod_equivalence(p / 64 - vy, q / 64 - vy, 32);
        vstd::arithmetic::div_mod::lemma_mod_equivalence(p / 64, q / 64, 32);
        vstd::arithmetic::div_mod::lemma_small_mod((p / 64) as nat, 32);
        vstd::arithmetic::div_mod::lemma_small_mod((q / 64) as nat, 32);
    }
    vstd::arithmetic::div_mod::lemma_fundamental_div_mod(p, 64);
    vstd::arithmetic::div_mod::lemma_fundamental_div_mod(q, 64);
}

/// Every pixel of `g` is that of `s` toggled if it was drawn before bit `c`
/// of row `r`.
pub open spec fn drawn_so_far(g: Seq<bool>, s: MachineView, vx: int, vy: int, n: int, r: int, c: int) -> bool {
    &&& g.len() == SCREEN_PIXELS
    &&& forall|p: int|
        0 <= p < SCREEN_PIXELS ==> g[p] == (s.gfx[p] != #[trigger] drawn_before(s, vx, vy, n, p, r, c))
}

/// A pixel drawn before bit `c` of row `r` was lit in `s`.
pub open spec fn collision_so_far(s: MachineView, vx: int, vy: int, n: int, r: int, c: int) -> bool {
    exists|p: int| 0 <= p < SCREEN_PIXELS && #[trigger] drawn_before(s, vx, vy, n, p, r, c) && s.gfx[p]
}

/// Drawing a set bit `c` of row `r` at pixel `idx` adds exactly `idx` to
/// the drawn pixels.
proof fn lemma_step_hit(s: MachineView, vx: int, vy: int, n: int, r: int, c: int, idx: int)
    requires
        0 <= vx < 256,
        0 <= vy < 256,
        0 <= r < n,
        n < 16,
        0 <= c < 8,
        sprite_bit(s.memory[s.i + r], c as u8),
        0 <= idx < SCREEN_PIXELS,
        col_offset(idx, vx) == c,
        row_offset(idx, vy) == r,
    ensures
        drawn_before(s, vx, vy, n, idx, r, c + 1),
        !drawn_before(s, vx, vy, n, idx, r, c),
        forall|p: int| 0 <= p < SCREEN_PIXELS && p != idx ==>
            #[trigger] drawn_before(s, vx, vy, n, p, r, c + 1) == drawn_before(s, vx, vy, n, p, r, c),
        collision_so_far(s, vx, vy, n, r, c + 1) == (collision_so_far(s, vx, vy, n, r, c) || s.gfx[idx]),
{
    assert forall|p: int| 0 <= p < SCREEN_PIXELS && p != idx implies
        #[trigger] drawn_before(s, vx, vy, n, p, r, c + 1) == drawn_before(s, vx, vy, n, p, r, c) by {
        if col_offset(p, vx) == c && row_offset(p, vy) == r {
            lemma_pixel_unique(p, idx, vx, vy);
        }
    }
    if collision_so_far(s, vx, vy, n, r, c) {
        let q = choose|q: int| 0 <= q < SCREEN_PIXELS && #[trigger] drawn_before(s, vx, vy, n, q, r, c) && s.gfx[q];
        assert(drawn_before(s, vx, vy, n, q, r, c + 1));
    }
    if s.gfx[idx] {
        assert(drawn_before(s, vx, vy, n, idx, r, c + 1));
    }
    if collision_so_far(s, vx, vy, n, r, c + 1) {
        let q = choose|q: int| 0 <= q < SCREEN_PIXELS && #[trigger] drawn_before(s, vx, vy, n, q, r, c + 1) && s.gfx[q];
        if q != idx {
            assert(drawn_before(s, vx, vy, n, q, r, c));
        }
    }
}

/// A clear bit `c` of row `r` draws nothing.
proof fn lemma_step_miss(s: MachineView, vx: int, vy: int, n: int, r: int, c: int)
    requires
        0 <= c < 8,
        !sprite_bit(s.memory[s.i + r], c as u8),
    ensures
        forall|p: int| #[trigger] drawn_before(s, vx, vy, n, p, r, c + 1) == drawn_before(s, vx, vy, n, p, r, c),
        collision_so_far(s, vx, vy, n, r, c + 1) == collision_so_far(s, vx, vy, n, r, c),
{
    if collision_so_far(s, vx, vy, n, r, c) {
        let q = choose|q: int| 0 <= q < SCREEN_PIXELS && #[trigger] drawn_before(s, vx, vy, n, q, r, c) && s.gfx[q];
        assert(drawn_before(s, vx, vy, n, q, r, c + 1));
    }
    if collision_so_far(s, vx, vy, n, r, c + 1) {
        let q = choose|q: int| 0 <= q < SCREEN_PIXELS && #[trigger] drawn_before(s, vx, vy, n, q, r, c + 1) && s.gfx[q];
        assert(drawn_before(s, vx, vy, n, q, r, c));
    }
}

/// Past the last bit of row `r` is the start of row `r + 1`.
proof fn lemma_row_done(s: MachineView, vx: int, vy: int, n: int, r: int)
    ensures
        forall|p: int| #[trigger] drawn_before(s, vx, vy, n, p, r + 1, 0) == drawn_before(s, vx, vy, n, p, r, 8),
        collision_so_far(s, vx, vy, n, r + 1, 0) == collision_so_far(s, vx, vy, n, r, 8),
{
    if collision_so_far(s, vx, vy, n, r, 8) {
        let q = choose|q: int| 0 <= q < SCREEN_PIXELS && #[trigger] drawn_before(s, vx, vy, n, q, r, 8) && s.gfx[q];
        assert(drawn_before(s, vx, vy, n, q, r + 1, 0));
    }
    if collision_so_far(s, vx, vy, n, r + 1, 0) {
        let q = choose|q: int| 0 <= q < SCREEN_PIXELS && #[trigger] drawn_before(s, vx, vy, n, q, r + 1, 0) && s.gfx[q];
        assert(drawn_before(s, vx, vy, n, q, r, 8));
    }
}

/// Past the last row, the drawn pixels are exactly those the sprite covers.
proof fn lemma_draw_complete(s: MachineView, vx: int, vy: int, n: int)
    ensures
        forall|p: int| #[trigger] drawn_before(s, vx, vy, n, p, n, 0) == sprite_covers(s, vx, vy, n, p),
        collision_so_far(s, vx, vy, n, n, 0) == exists|p: int|
            0 <= p < SCREEN_PIXELS && #[trigger] sprite_covers(s, vx, vy, n, p) && s.gfx[p],
{
    if collision_so_far(s, vx, vy, n, n, 0) {
        let q = choose|q: int| 0 <= q < SCREEN_PIXELS && #[trigger] drawn_before(s, vx, vy, n, q, n, 0) && s.gfx[q];
        assert(sprite_covers(s, vx, vy, n, q));
    }
    if exists|p: int| 0 <= p < SCREEN_PIXELS && #[trigger] sprite_covers(s, vx, vy, n, p) && s.gfx[p] {
        let q = choose|q: int| 0 <= q < SCREEN_PIXELS && #[trigger] sprite_covers(s, vx, vy, n, q) && s.gfx[q];
        assert(drawn_before(s, vx, vy, n, q, n, 0));
    }
}

/// Drawing toggles each covered pixel; there is a collision when a covered
/// pixel was lit before.
pub open spec fn draw_spec(s: MachineView, x: int, y: int, n: int) -> Result<(MachineView, CycleStatus), Chip8Error> {
    let vx = s.v[x] as int;
    let vy = s.v[y] as int;
    if n > 0 && s.i + n > MEMORY_SIZE {
        Err(Chip8Error::MemoryFault)
    } else {
        let collided = exists|p: int|
            0 <= p < SCREEN_PIXELS && #[trigger] sprite_covers(s, vx, vy, n, p) && s.gfx[p];
        advance(
            s,
            MachineView {
                gfx: Seq::new(
                    SCREEN_PIXELS as nat,
                    |p: int| s.gfx[p] != sprite_covers(s, vx, vy, n, p),
                ),
                v: s.v.update(0xF, if collided { 1u8 } else { 0u8 }),
                draw_flag: true,
                ..s
            },
        )
    }
}

/// The effect of executing word `w` on state `s`; `rnd` is the random byte
/// that `CXNN` uses. `Err` is a fault, which changes nothing.
pub open spec fn execute_spec(s: MachineView, w: u16, rnd: u8) -> Result<(MachineView, CycleStatus), Chip8Error> {
    let x = field_x(w);
    let y = field_y(w);
    let nn = field_nn(w);
    let nnn = field_nnn(w);
    let vx = s.v[x] as int;
    let vy = s.v[y] as int;
    match decode(w) {
        OpCodeSymbol::Undefined => Ok((s, CycleStatus::UndefinedOpcode(w))),
        OpCodeSymbol::Sys => Ok((s, CycleStatus::UnsupportedOpcode(w))),
        OpCodeSymbol::ClearScreen => advance(
            s,
            MachineView {
                gfx: Seq::new(SCREEN_PIXELS as nat, |p: int| false),
                draw_flag: true,
                ..s
            },
        ),
        OpCodeSymbol::Return => if s.sp == 0 {
            Err(Chip8Error::StackUnderflow)
        } else {
            jump_to(MachineView { sp: (s.sp - 1) as nat, ..s }, s.stack[s.sp - 1] + 2)
        },
        OpCodeSymbol::Jump => jump_to(s, nnn),
        OpCodeSymbol::Call => if s.sp >= STACK_DEPTH {
            Err(Chip8Error::StackOverflow)
        } else {
            jump_to(MachineView { stack: s.stack.update(s.sp as int, s.pc), sp: s.sp + 1, ..s }, nnn)
        },
        OpCodeSymbol::SkipEqImm => skip_if(s, vx == nn),
        OpCodeSymbol::SkipNeImm => skip_if(s, vx != nn),
        OpCodeSymbol::SkipEqReg => skip_if(s, vx == vy),
        OpCodeSymbol::SkipNeReg => skip_if(s, vx != vy),
        OpCodeSymbol::SkipKeyPressed => skip_if(s, key_pressed(s, vx)),
        OpCodeSymbol::SkipKeyNotPressed => skip_if(s, !key_pressed(s, vx)),
        OpCodeSymbol::LoadImm => advance(s, with_reg(s, x, nn as u8)),
        OpCodeSymbol::AddImm => advance(s, with_reg(s, x, ((vx + nn) % 256) as u8)),
        OpCodeSymbol::Move => advance(s, with_reg(s, x, vy as u8)),
        OpCodeSymbol::Or => advance(s, with_reg(s, x, s.v[x] | s.v[y])),
        OpCodeSymbol::And => advance(s, with_reg(s, x, s.v[x] & s.v[y])),
        OpCodeSymbol::Xor => advance(s, with_reg(s, x, s.v[x] ^ s.v[y])),
        OpCodeSymbol::AddReg => advance(
            s,
            with_reg_flag(s, x, ((vx + vy) % 256) as u8, if vx + vy > 255 { 1 } else { 0 }),
        ),
        OpCodeSymbol::SubReg => advance(
            s,
            with_reg_flag(s, x, ((vx - vy) % 256) as u8, if vx < vy { 0 } else { 1 }),
        ),
        OpCodeSymbol::ShiftRight => advance(s, with_reg_flag(s, x, (vx / 2) as u8, (vx % 2) as u8)),
        OpCodeSymbol::SubRev => advance(
            s,
            with_reg_flag(s, x, ((vy - vx) % 256) as u8, if vy < vx { 0 } else { 1 }),
        ),
        OpCodeSymbol::ShiftLeft => advance(
            s,
            with_reg_flag(s, x, ((vx * 2) % 256) as u8, (vx / 128) as u8),
        ),
        OpCodeSymbol::LoadIndex => advance(s, MachineView { i: nnn as u16, ..s }),
        OpCodeSymbol::JumpOffset => jump_to(s, nnn + s.v[0]),
        OpCodeSymbol::Random => advance(s, with_reg(s, x, rnd & (nn as u8))),
        OpCodeSymbol::Draw => draw_spec(s, x, y, field_n(w)),
        OpCodeSymbol::GetDelay => advance(s, with_reg(s, x, s.delay_timer)),
        OpCodeSymbol::WaitKey => match highest_pressed(s.keys, KEY_COUNT as int) {
            Some(k) => advance(s, with_reg(s, x, k as u8)),
            None => Ok((s, CycleStatus::AwaitingKey)),
        },
        OpCodeSymbol::SetDelay => advance(s, MachineView { delay_timer: vx as u8, ..s }),
        OpCodeSymbol::SetSound => advance(s, MachineView { sound_timer: vx as u8, ..s }),
        OpCodeSymbol::AddIndex => if s.i + vx > u16::MAX {
            Err(Chip8Error::MemoryFault)
        } else {
            advance(
                s,
                MachineView {
                    i: (s.i + vx) as u16,
                    v: s.v.update(0xF, if s.i + vx > MAX_ADDRESS { 1u8 } else { 0u8 }),
                    ..s
                },
            )
        },
        OpCodeSymbol::FontChar => advance(s, MachineView { i: (vx * 5) as u16, ..s }),
        OpCodeSymbol::StoreBcd => if s.i + 2 > MAX_ADDRESS {
            Err(Chip8Error::MemoryFault)
        } else {
            advance(
                s,
                MachineView {
                    memory: s.memory.update(s.i as int, (vx / 100) as u8).update(
                        s.i + 1,
                        ((vx / 10) % 10) as u8,
                    ).update(s.i + 2, (vx % 10) as u8),
                    ..s
                },
            )
        },
        OpCodeSymbol::StoreRegs => if s.i + x > MAX_ADDRESS {
            Err(Chip8Error::MemoryFault)
        } else {
            advance(
                s,
                MachineView {
                    memory: Seq::new(
                        MEMORY_SIZE as nat,
                        |a: int| if s.i <= a <= s.i + x { s.v[a - s.i] } else { s.memory[a] },
                    ),
                    i: (s.i + x + 1) as u16,
                    ..s
                },
            )
        },
        OpCodeSymbol::LoadRegs => if s.i + x > MAX_ADDRESS {
            Err(Chip8Error::MemoryFault)
        } else {
            advance(
                s,
                MachineView {
                    v: Seq::new(16, |k: int| if k <= x { s.memory[s.i + k] } else { s.v[k] }),
                    i: (s.i + x + 1) as u16,
                    ..s
                },
            )
        },
    }
}

/// The instruction word at the program counter, most significant byte
/// first; both bytes must be in memory.
pub open spec fn fetch_spec(s: MachineView) -> Result<u16, Chip8Error> {
    if s.pc + 1 > MAX_ADDRESS {
        Err(Chip8Error::MemoryFault)
    } else {
        Ok((s.memory[s.pc as int] * 256 + s.memory[s.pc + 1]) as u16)
    }
}

/// One timer tick: each timer that is above zero goes down by one.
pub open spec fn tick_spec(s: MachineView) -> MachineView {
    MachineView {
        delay_timer: if s.delay_timer > 0 { (s.delay_timer - 1) as u8 } else { 0 },
        sound_timer: if s.sound_timer > 0 { (s.sound_timer - 1) as u8 } else { 0 },
        ..s
    }
}

/// The sound timer goes from 1 to 0 in this tick.
pub open spec fn beeps(s: MachineView) -> bool {
    s.sound_timer == 1
}

/// One cycle: fetch, decode and execute, then tick the timers. A fault
/// stops the cycle before the timers tick.
pub open spec fn cycle_spec(s: MachineView, rnd: u8) -> Result<(MachineView, CycleReport), Chip8Error> {
    match fetch_spec(s) {
        Err(e) => Err(e),
        Ok(w) => match execute_spec(s, w, rnd) {
            Err(e) => Err(e),
            Ok((t, status)) => Ok((tick_spec(t), CycleReport { status, beep: beeps(t) })),
        },
    }
}

/// `after` and the returned value `r` are what `spec` prescribes for a run
/// from `before`; a fault leaves the state unchanged.
pub open spec fn matches_outcome<T>(
    before: MachineView,
    after: MachineView,
    r: Result<T, Chip8Error>,
    spec: Result<(MachineView, T), Chip8Error>,
) -> bool {
    match spec {
        Ok((t, out)) => r == Ok::<T, Chip8Error>(out) && after == t,
        Err(e) => r == Err::<T, Chip8Error>(e) && after == before,
    }
}

/// Relies on rand::random::<u8>: a byte from the thread-local generator.
/// Any byte may come back.
#[verifier::external_body]
fn random_byte() -> u8 {
    rand::random::<u8>()
}

impl Chip8 {
    /// `target` as the next program counter, or `MemoryFault` beyond memory.
    fn checked_target(target: u32) -> (r: Result<u16, Chip8Error>)
        ensures
            target <= MAX_ADDRESS ==> r == Ok::<u16, Chip8Error>(target as u16),
            target > MAX_ADDRESS ==> r == Err::<u16, Chip8Error>(Chip8Error::MemoryFault),
    {
        if target <= MAX_ADDRESS as u32 {
            Ok(target as u16)
        } else {
            Err(Chip8Error::MemoryFault)
        }
    }

    /// `00E0`, `00EE`, `1NNN`, `2NNN` and `BNNN`.
    fn exec_flow(&mut self, op: OpCode, sym: OpCodeSymbol) -> (r: Result<CycleStatus, Chip8Error>)
        requires
            old(self).wf(),
            sym == decode(op.val),
            sym is ClearScreen || sym is Return || sym is Jump || sym is Call || sym is JumpOffset,
        ensures
            final(self).wf(),
            matches_outcome(old(self)@, final(self)@, r, execute_spec(old(self)@, op.val, 0)),
    {
        let pc = self.regs.pc;
        match sym {
            OpCodeSymbol::ClearScreen => {
                let target = Self::checked_target(pc as u32 + 2)?;
                self.graphics.clear();
                self.draw_flag = true;
                self.regs.pc = target;
            },
            OpCodeSymbol::Return => {
                if self.stack.sp == 0 {
                    return Err(Chip8Error::StackUnderflow);
                }
                let top = self.stack.sp - 1;
                let target = Self::checked_target(self.stack.entries[top] as u32 + 2)?;
                self.stack.sp = top;
                self.regs.pc = target;
            },
            OpCodeSymbol::Jump => {
                self.regs.pc = op.nnn();
            },
            OpCodeSymbol::Call => {
                if self.stack.sp >= STACK_DEPTH {
                    return Err(Chip8Error::StackOverflow);
                }
                let sp = self.stack.sp;
                self.stack.entries.set(sp, pc);
                self.stack.sp = sp + 1;
                self.regs.pc = op.nnn();
            },
            _ => {
                let target = Self::checked_target(op.nnn() as u32 + self.regs.v[0] as u32)?;
                self.regs.pc = target;
            },
        }
        Ok(CycleStatus::Executed)
    }

    /// The conditional skips `3XNN`, `4XNN`, `5XY0`, `9XY0`, `EX9E`, `EXA1`.
    fn exec_skip(&mut self, op: OpCode, sym: OpCodeSymbol) -> (r: Result<CycleStatus, Chip8Error>)
        requires
            old(self).wf(),
            sym == decode(op.val),
            sym is SkipEqImm || sym is SkipNeImm || sym is SkipEqReg || sym is SkipNeReg
                || sym is SkipKeyPressed || sym is SkipKeyNotPressed,
        ensures
            final(self).wf(),
            matches_outcome(old(self)@, final(self)@, r, execute_spec(old(self)@, op.val, 0)),
    {
        let vx = self.regs.v[op.x()];
        let vy = self.regs.v[op.y()];
        let key = vx as usize;
        let pressed = key < KEY_COUNT && self.keys[key];
        let cond = match sym {
            OpCodeSymbol::SkipEqImm => vx == op.nn(),
            OpCodeSymbol::SkipNeImm => vx != op.nn(),
            OpCodeSymbol::SkipEqReg => vx == vy,
            OpCodeSymbol::SkipNeReg => vx != vy,
            OpCodeSymbol::SkipKeyPressed => pressed,
            _ => !pressed,
        };
        let step: u32 = if cond { 4 } else { 2 };
        let target = Self::checked_target(self.regs.pc as u32 + step)?;
        self.regs.pc = target;
        Ok(CycleStatus::Executed)
    }

    /// The register loads and bitwise operations `6XNN`, `7XNN`, `8XY0` to
    /// `8XY3`, none of which touches `VF` unless it is `VX`.
    fn exec_load(&mut self, op: OpCode, sym: OpCodeSymbol) -> (r: Result<CycleStatus, Chip8Error>)
        requires
            old(self).wf(),
            sym == decode(op.val),
            sym is LoadImm || sym is AddImm || sym is Move || sym is Or || sym is And || sym is Xor,
        ensures
            final(self).wf(),
            matches_outcome(old(self)@, final(self)@, r, execute_spec(old(self)@, op.val, 0)),
    {
        let target = Self::checked_target(self.regs.pc as u32 + 2)?;
        let x = op.x();
        let vx = self.regs.v[x];
        let vy = self.regs.v[op.y()];
        let val = match sym {
            OpCodeSymbol::LoadImm => op.nn(),
            OpCodeSymbol::AddImm => vx.wrapping_add(op.nn()),
            OpCodeSymbol::Move => vy,
            OpCodeSymbol::Or => vx | vy,
            OpCodeSymbol::And => vx & vy,
            _ => vx ^ vy,
        };
        self.regs.v.set(x, val);
        self.regs.pc = target;
        assert(self@ =~= execute_spec(old(self)@, op.val, 0)->Ok_0.0);
        Ok(CycleStatus::Executed)
    }

    /// The arithmetic `8XY4` to `8XYE`: the result goes into `VX`, then the
    /// carry, no-borrow or shifted-out bit into `VF`.
    #[verifier::rlimit(50)]
    fn exec_arith(&mut self, op: OpCode, sym: OpCodeSymbol) -> (r: Result<CycleStatus, Chip8Error>)
        requires
            old(self).wf(),
            sym == decode(op.val),
            sym is AddReg || sym is SubReg || sym is ShiftRight || sym is SubRev || sym is ShiftLeft,
        ensures
            final(self).wf(),
            matches_outcome(old(self)@, final(self)@, r, execute_spec(old(self)@, op.val, 0)),
    {
        let target = Self::checked_target(self.regs.pc as u32 + 2)?;
        let x = op.x();
        let vx = self.regs.v[x];
        let vy = self.regs.v[op.y()];
        let (val, flag): (u8, u8) = match sym {
            OpCodeSymbol::AddReg => (
                vx.wrapping_add(vy),
                if vx as u16 + vy as u16 > 0xFF { 1 } else { 0 },
            ),
            OpCodeSymbol::SubReg => (vx.wrapping_sub(vy), if vx < vy { 0 } else { 1 }),
            OpCodeSymbol::ShiftRight => (vx / 2, vx % 2),
            OpCodeSymbol::SubRev => (vy.wrapping_sub(vx), if vy < vx { 0 } else { 1 }),
            _ => (((vx as u16 * 2) % 256) as u8, vx / 128),
        };
        self.regs.v.set(x, val);
        self.regs.v.set(0xF, flag);
        self.regs.pc = target;
        assert(self@ =~= execute_spec(old(self)@, op.val, 0)->Ok_0.0);
        Ok(CycleStatus::Executed)
    }

    /// `ANNN`, `CXNN`, `FX07`, `FX15`, `FX18`, `FX1E` and `FX29`.
    fn exec_misc(&mut self, op: OpCode, sym: OpCodeSymbol, rnd: u8) -> (r: Result<CycleStatus, Chip8Error>)
        requires
            old(self).wf(),
            sym == decode(op.val),
            sym is LoadIndex || sym is Random || sym is GetDelay || sym is SetDelay
                || sym is SetSound || sym is AddIndex || sym is FontChar,
        ensures
            final(self).wf(),
            matches_outcome(old(self)@, final(self)@, r, execute_spec(old(self)@, op.val, rnd)),
    {
        let target = Self::checked_target(self.regs.pc as u32 + 2)?;
        let x = op.x();
        let vx = self.regs.v[x];
        match sym {
            OpCodeSymbol::LoadIndex => self.regs.i = op.nnn(),
            OpCodeSymbol::Random => self.regs.v.set(x, rnd & op.nn()),
            OpCodeSymbol::GetDelay => self.regs.v.set(x, self.regs.delay_timer),
            OpCodeSymbol::SetDelay => self.regs.delay_timer = vx,
            OpCodeSymbol::SetSound => self.regs.sound_timer = vx,
            OpCodeSymbol::AddIndex => {
                let sum: u32 = self.regs.i as u32 + vx as u32;
                if sum > u16::MAX as u32 {
                    return Err(Chip8Error::MemoryFault);
                }
                let out_of_memory: u8 = if sum > MAX_ADDRESS as u32 { 1 } else { 0 };
                self.regs.i = sum as u16;
                self.regs.v.set(0xF, out_of_memory);
            },
            _ => self.regs.i = vx as u16 * 5,
        }
        self.regs.pc = target;
        assert(self@ =~= execute_spec(old(self)@, op.val, rnd)->Ok_0.0);
        Ok(CycleStatus::Executed)
    }

    /// `FX33`: the hundreds, tens and units of `VX` go to `I`, `I + 1`, `I + 2`.
    fn exec_bcd(&mut self, op: OpCode) -> (r: Result<CycleStatus, Chip8Error>)
        requires
            old(self).wf(),
            decode(op.val) is StoreBcd,
        ensures
            final(self).wf(),
            matches_outcome(old(self)@, final(self)@, r, execute_spec(old(self)@, op.val, 0)),
    {
        let target = Self::checked_target(self.regs.pc as u32 + 2)?;
        let vx = self.regs.v[op.x()];
        let base = self.regs.i as usize;
        if base + 2 > MAX_ADDRESS as usize {
            return Err(Chip8Error::MemoryFault);
        }
        self.memory.bytes.set(base, vx / 100);
        self.memory.bytes.set(base + 1, (vx / 10) % 10);
        self.memory.bytes.set(base + 2, vx % 10);
        self.regs.pc = target;
        assert(self@ =~= execute_spec(old(self)@, op.val, 0)->Ok_0.0);
        Ok(CycleStatus::Executed)
    }

    /// `FX55`: `V0..=VX` go to memory from `I` on, and `I` moves past them.
    fn exec_store_regs(&mut self, op: OpCode) -> (r: Result<CycleStatus, Chip8Error>)
        requires
            old(self).wf(),
            decode(op.val) is StoreRegs,
        ensures
            final(self).wf(),
            matches_outcome(old(self)@, final(self)@, r, execute_spec(old(self)@, op.val, 0)),
    {
        let target = Self::checked_target(self.regs.pc as u32 + 2)?;
        let x = op.x();
        let base = self.regs.i as usize;
        if base + x > MAX_ADDRESS as usize {
            return Err(Chip8Error::MemoryFault);
        }
        let ghost before = self.memory.bytes@;
        for k in 0..x + 1
            invariant
                base + x <= MAX_ADDRESS,
                x < 16,
                self.memory.bytes@.len() == MEMORY_SIZE,
                self.regs == old(self).regs,
                forall|a: int|
                    0 <= a < MEMORY_SIZE ==> self.memory.bytes@[a] == if base <= a < base + k {
                        self.regs.v@[a - base]
                    } else {
                        before[a]
                    },
                self.stack == old(self).stack,
                self.graphics == old(self).graphics,
                self.keys == old(self).keys,
                self.draw_flag == old(self).draw_flag,
        {
            self.memory.bytes.set(base + k, self.regs.v[k]);
        }
        self.regs.i = (base + x + 1) as u16;
        self.regs.pc = target;
        proof {
            let t = execute_spec(old(self)@, op.val, 0)->Ok_0.0;
            assert(self@.memory =~= t.memory);
            assert(self@ =~= t);
        }
        Ok(CycleStatus::Executed)
    }

    /// `FX65`: `V0..=VX` are loaded from memory from `I` on, and `I` moves
    /// past them.
    fn exec_load_regs(&mut self, op: OpCode) -> (r: Result<CycleStatus, Chip8Error>)
        requires
            old(self).wf(),
            decode(op.val) is LoadRegs,
        ensures
            final(self).wf(),
            matches_outcome(old(self)@, final(self)@, r, execute_spec(old(self)@, op.val, 0)),
    {
        let target = Self::checked_target(self.regs.pc as u32 + 2)?;
        let x = op.x();
        let base = self.regs.i as usize;
        if base + x > MAX_ADDRESS as usize {
            return Err(Chip8Error::MemoryFault);
        }
        let ghost before = self.regs.v@;
        for k in 0..x + 1
            invariant
                base + x <= MAX_ADDRESS,
                x < 16,
                self.regs.v@.len() == 16,
                self.regs.i == old(self).regs.i,
                self.regs.pc == old(self).regs.pc,
                self.regs.delay_timer == old(self).regs.delay_timer,
                self.regs.sound_timer == old(self).regs.sound_timer,
                forall|j: int|
                    0 <= j < 16 ==> self.regs.v@[j] == if j < k {
                        self.memory.bytes@[base + j]
                    } else {
                        before[j]
                    },
                self.memory == old(self).memory,
                self.stack == old(self).stack,
                self.graphics == old(self).graphics,
                self.keys == old(self).keys,
                self.draw_flag == old(self).draw_flag,
        {
            let b = self.memory.bytes[base + k];
            self.regs.v.set(k, b);
        }
        self.regs.i = (base + x + 1) as u16;
        self.regs.pc = target;
        proof {
            let t = execute_spec(old(self)@, op.val, 0)->Ok_0.0;
            assert(self@.v =~= t.v);
            assert(self@ =~= t);
        }
        Ok(CycleStatus::Executed)
    }

    /// `DXYN`: XOR the `N`-row sprite at memory `I` onto the screen at
    /// `(VX, VY)`, wrapping at the edges; `VF` tells whether a lit pixel was
    /// turned off.
    #[verifier::rlimit(50)]
    fn exec_draw(&mut self, op: OpCode) -> (r: Result<CycleStatus, Chip8Error>)
        requires
            old(self).wf(),
            decode(op.val) is Draw,
        ensures
            final(self).wf(),
            matches_outcome(old(self)@, final(self)@, r, execute_spec(old(self)@, op.val, 0)),
    {
        let target = Self::checked_target(self.regs.pc as u32 + 2)?;
        let n = op.n();
        let base = self.regs.i as usize;
        if n > 0 && base + n as usize > MEMORY_SIZE {
            return Err(Chip8Error::MemoryFault);
        }
        let vx = self.regs.v[op.x()];
        let vy = self.regs.v[op.y()];
        let ghost s = self@;
        let mut collided = false;
        for r in 0..n
            invariant
                n < 16,
                base == s.i,
                n > 0 ==> base + n <= MEMORY_SIZE,
                self.regs == old(self).regs,
                self.memory == old(self).memory,
                self.stack == old(self).stack,
                self.keys == old(self).keys,
                self.draw_flag == old(self).draw_flag,
                s == old(self)@,
                drawn_so_far(self.graphics.gfx@, s, vx as int, vy as int, n as int, r as int, 0),
                collided == collision_so_far(s, vx as int, vy as int, n as int, r as int, 0),
        {
            self.draw_row(Ghost(s), vx, vy, n, r, &mut collided);
        }
        proof {
            lemma_draw_complete(s, vx as int, vy as int, n as int);
        }
        self.regs.v.set(0xF, if collided { 1 } else { 0 });
        self.draw_flag = true;
        self.regs.pc = target;
        proof {
            assert(execute_spec(s, op.val, 0) == draw_spec(s, field_x(op.val), field_y(op.val), n as int));
            let t = draw_spec(s, field_x(op.val), field_y(op.val), n as int)->Ok_0.0;
            assert forall|p: int| 0 <= p < SCREEN_PIXELS implies self@.gfx[p] == t.gfx[p] by {
                assert(drawn_before(s, vx as int, vy as int, n as int, p, n as int, 0)
                    == sprite_covers(s, vx as int, vy as int, n as int, p));
            }
            assert(self@.gfx =~= t.gfx);
            assert(self@.v =~= t.v);
            assert(self@ =~= t);
        }
        Ok(CycleStatus::Executed)
    }

    /// Draws row `r` of the sprite, bit by bit from the left.
    fn draw_row(&mut self, Ghost(s): Ghost<MachineView>, vx: u8, vy: u8, n: u8, r: u8, collided: &mut bool)
        requires
            n < 16,
            r < n,
            s.i + n <= MEMORY_SIZE,
            old(self)@.memory == s.memory,
            old(self)@.i == s.i,
            drawn_so_far(old(self).graphics.gfx@, s, vx as int, vy as int, n as int, r as int, 0),
            *old(collided) == collision_so_far(s, vx as int, vy as int, n as int, r as int, 0),
        ensures
            final(self).regs == old(self).regs,
            final(self).memory == old(self).memory,
            final(self).stack == old(self).stack,
            final(self).keys == old(self).keys,
            final(self).draw_flag == old(self).draw_flag,
            drawn_so_far(final(self).graphics.gfx@, s, vx as int, vy as int, n as int, r + 1, 0),
            *final(collided) == collision_so_far(s, vx as int, vy as int, n as int, r + 1, 0),
    {
        let row = self.memory.bytes[self.regs.i as usize + r as usize];
        for c in 0..8u8
            invariant
                n < 16,
                r < n,
                s.i + n <= MEMORY_SIZE,
                row == s.memory[s.i + r],
                self.regs == old(self).regs,
                self.memory == old(self).memory,
                self.stack == old(self).stack,
                self.keys == old(self).keys,
                self.draw_flag == old(self).draw_flag,
                drawn_so_far(self.graphics.gfx@, s, vx as int, vy as int, n as int, r as int, c as int),
                *collided == collision_so_far(s, vx as int, vy as int, n as int, r as int, c as int),
        {
            if row & (0x80u8 >> c) != 0 {
                let px = (vx as usize + c as usize) % SCREEN_WIDTH;
                let py = (vy as usize + r as usize) % SCREEN_HEIGHT;
                let idx = py * SCREEN_WIDTH + px;
                proof {
                    lemma_pixel_of(vx as int, vy as int, r as int, c as int);
                    lemma_step_hit(s, vx as int, vy as int, n as int, r as int, c as int, idx as int);
                }
                let lit = self.graphics.gfx[idx];
                if lit {
                    *collided = true;
                }
                self.graphics.gfx.set(idx, !lit);
                proof {
                    let g = self.graphics.gfx@;
                    assert forall|p: int| 0 <= p < SCREEN_PIXELS implies g[p] == (s.gfx[p]
                        != #[trigger] drawn_before(s, vx as int, vy as int, n as int, p, r as int, c + 1)) by {
                        if p != idx {
                            assert(drawn_before(s, vx as int, vy as int, n as int, p, r as int, c + 1)
                                == drawn_before(s, vx as int, vy as int, n as int, p, r as int, c as int));
                        }
                    }
                }
            } else {
                proof {
                    lemma_step_miss(s, vx as int, vy as int, n as int, r as int, c as int);
                }
            }
        }
        proof {
            lemma_row_done(s, vx as int, vy as int, n as int, r as int);
        }
    }

    /// `FX0A`: the highest held key goes into `VX`; with no key held the
    /// machine waits and nothing changes.
    fn exec_wait_key(&mut self, op: OpCode) -> (r: Result<CycleStatus, Chip8Error>)
        requires
            old(self).wf(),
            decode(op.val) is WaitKey,
        ensures
            final(self).wf(),
            matches_outcome(old(self)@, final(self)@, r, execute_spec(old(self)@, op.val, 0)),
    {
        let mut found: Option<u8> = None;
        for idx in 0..KEY_COUNT
            invariant
                match highest_pressed(self.keys@, idx as int) {
                    Some(k) => found == Some(k as u8),
                    None => found is None,
                },
        {
            if self.keys[idx] {
                found = Some(idx as u8);
            }
        }
        match found {
            None => Ok(CycleStatus::AwaitingKey),
            Some(key) => {
                let target = Self::checked_target(self.regs.pc as u32 + 2)?;
                self.regs.v.set(op.x(), key);
                self.regs.pc = target;
                Ok(CycleStatus::Executed)
            },
        }
    }

    /// Ticks both timers; returns whether the sound timer ran out in this
    /// tick, which is when the host should beep.
    pub fn tick_timers(&mut self) -> (beep: bool)
        ensures
            final(self).wf() == old(self).wf(),
            final(self)@ == tick_spec(old(self)@),
            beep == beeps(old(self)@),
    {
        if self.regs.delay_timer > 0 {
            self.regs.delay_timer = self.regs.delay_timer - 1;
        }
        let beep = self.regs.sound_timer == 1;
        if self.regs.sound_timer > 0 {
            self.regs.sound_timer = self.regs.sound_timer - 1;
        }
        beep
    }

    /// Reads the instruction word at the program counter without moving it.
    pub fn fetch_opcode(&self) -> (r: Result<OpCode, Chip8Error>)
        ensures
            match fetch_spec(self@) {
                Ok(w) => r == Ok::<OpCode, Chip8Error>(OpCode { val: w }),
                Err(e) => r == Err::<OpCode, Chip8Error>(e),
            },
    {
        let pc = self.regs.pc as usize;
        if pc + 1 > MAX_ADDRESS as usize {
            return Err(Chip8Error::MemoryFault);
        }
        let hi = self.memory.bytes[pc];
        let lo = self.memory.bytes[pc + 1];
        assert(((hi as u16) << 8u16) | (lo as u16) == hi as u16 * 256 + lo as u16) by (bit_vector);
        Ok(OpCode::new(((hi as u16) << 8u16) | (lo as u16)))
    }

    /// Executes one instruction word, including its own update of the
    /// program counter; `rnd` is the random byte that `CXNN` uses.
    pub fn execute_opcode(&mut self, op: OpCode, rnd: u8) -> (r: Result<CycleStatus, Chip8Error>)
        requires
            old(self).wf(),
        ensures
            final(self).wf(),
            matches_outcome(old(self)@, final(self)@, r, execute_spec(old(self)@, op.val, rnd)),
    {
        let sym = op.find_opcode_symbol();
        match sym {
            OpCodeSymbol::Undefined => Ok(CycleStatus::UndefinedOpcode(op.val)),
            OpCodeSymbol::Sys => Ok(CycleStatus::UnsupportedOpcode(op.val)),
            OpCodeSymbol::ClearScreen | OpCodeSymbol::Return | OpCodeSymbol::Jump
            | OpCodeSymbol::Call | OpCodeSymbol::JumpOffset => self.exec_flow(op, sym),
            OpCodeSymbol::SkipEqImm | OpCodeSymbol::SkipNeImm | OpCodeSymbol::SkipEqReg
            | OpCodeSymbol::SkipNeReg | OpCodeSymbol::SkipKeyPressed
            | OpCodeSymbol::SkipKeyNotPressed => self.exec_skip(op, sym),
            OpCodeSymbol::LoadImm | OpCodeSymbol::AddImm | OpCodeSymbol::Move | OpCodeSymbol::Or
            | OpCodeSymbol::And | OpCodeSymbol::Xor => self.exec_load(op, sym),
            OpCodeSymbol::AddReg | OpCodeSymbol::SubReg | OpCodeSymbol::ShiftRight
            | OpCodeSymbol::SubRev | OpCodeSymbol::ShiftLeft => self.exec_arith(op, sym),
            OpCodeSymbol::LoadIndex | OpCodeSymbol::Random | OpCodeSymbol::GetDelay
            | OpCodeSymbol::SetDelay | OpCodeSymbol::SetSound | OpCodeSymbol::AddIndex
            | OpCodeSymbol::FontChar => self.exec_misc(op, sym, rnd),
            OpCodeSymbol::Draw => self.exec_draw(op),
            OpCodeSymbol::WaitKey => self.exec_wait_key(op),
            OpCodeSymbol::StoreBcd => self.exec_bcd(op),
            OpCodeSymbol::StoreRegs => self.exec_store_regs(op),
            OpCodeSymbol::LoadRegs => self.exec_load_regs(op),
        }
    }

    /// Runs one cycle with `rnd` as the random byte for `CXNN`: fetch,
    /// execute, then tick the timers. A fault changes nothing.
    pub fn emulate_cycle_with(&mut self, rnd: u8) -> (r: Result<CycleReport, Chip8Error>)
        requires
            old(self).wf(),
        ensures
            final(self).wf(),
            matches_outcome(old(self)@, final(self)@, r, cycle_spec(old(self)@, rnd)),
    {
        let op = self.fetch_opcode()?;
        let status = self.execute_opcode(op, rnd)?;
        let beep = self.tick_timers();
        Ok(CycleReport { status, beep })
    }

    /// Runs one cycle with a fresh random byte for `CXNN`. The outcome is
    /// that of `emulate_cycle_with` for some byte.
    pub fn emulate_cycle(&mut self) -> (r: Result<CycleReport, Chip8Error>)
        requires
            old(self).wf(),
        ensures
            final(self).wf(),
            exists|rnd: u8| matches_outcome(old(self)@, final(self)@, r, #[trigger] cycle_spec(old(self)@, rnd)),
    {
        let rnd = random_byte();
        self.emulate_cycle_with(rnd)
    }
}

} // verus!
