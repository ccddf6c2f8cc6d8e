use vstd::prelude::*;

verus! {

/// The symbolic identity of an instruction word: one of the thirty-five
/// CHIP-8 instructions, or `Undefined` for a bit pattern outside that set.
/// The comment on each variant gives its canonical pattern.
#[derive(Clone, Copy, Debug, PartialEq, Eq, Structural)]
pub enum OpCodeSymbol {
    /// No instruction has this bit pattern.
    Undefined,
    /// `0NNN`: call a native machine-code routine.
    Sys,
    /// `00E0`: clear the screen.
    ClearScreen,
    /// `00EE`: return from a subroutine.
    Return,
    /// `1NNN`: jump to `NNN`.
    Jump,
    /// `2NNN`: call the subroutine at `NNN`.
    Call,
    /// `3XNN`: skip the next instruction if `VX == NN`.
    SkipEqImm,
    /// `4XNN`: skip the next instruction if `VX != NN`.
    SkipNeImm,
    /// `5XY0`: skip the next instruction if `VX == VY`.
    SkipEqReg,
    /// `6XNN`: `VX = NN`.
    LoadImm,
    /// `7XNN`: `VX += NN`, wrapping, flags untouched.
    AddImm,
    /// `8XY0`: `VX = VY`.
    Move,
    /// `8XY1`: `VX |= VY`.
    Or,
    /// `8XY2`: `VX &= VY`.
    And,
    /// `8XY3`: `VX ^= VY`.
    Xor,
    /// `8XY4`: `VX += VY`, carry into `VF`.
    AddReg,
    /// `8XY5`: `VX -= VY`, no-borrow into `VF`.
    SubReg,
    /// `8XY6`: `VX >>= 1`, the bit shifted out into `VF`.
    ShiftRight,
    /// `8XY7`: `VX = VY - VX`, no-borrow into `VF`.
    SubRev,
    /// `8XYE`: `VX <<= 1`, the bit shifted out into `VF`.
    ShiftLeft,
    /// `9XY0`: skip the next instruction if `VX != VY`.
    SkipNeReg,
    /// `ANNN`: `I = NNN`.
    LoadIndex,
    /// `BNNN`: jump to `NNN + V0`.
    JumpOffset,
    /// `CXNN`: `VX = random byte & NN`.
    Random,
    /// `DXYN`: draw an `N`-row sprite from memory at `I` at `(VX, VY)`.
    Draw,
    /// `EX9E`: skip the next instruction if key `VX` is pressed.
    SkipKeyPressed,
    /// `EXA1`: skip the next instruction if key `VX` is not pressed.
    SkipKeyNotPressed,
    /// `FX07`: `VX = delay timer`.
    GetDelay,
    /// `FX0A`: wait for a key press and store its index in `VX`.
    WaitKey,
    /// `FX15`: `delay timer = VX`.
    SetDelay,
    /// `FX18`: `sound timer = VX`.
    SetSound,
    /// `FX1E`: `I += VX`, `VF` tells whether `I` left the address space.
    AddIndex,
    /// `FX29`: `I` = address of the font glyph for digit `VX`.
    FontChar,
    /// `FX33`: store the decimal digits of `VX` at `I`, `I + 1`, `I + 2`.
    StoreBcd,
    /// `FX55`: store `V0..=VX` at `I..`, then advance `I` past them.
    StoreRegs,
    /// `FX65`: load `V0..=VX` from `I..`, then advance `I` past them.
    LoadRegs,
}

/// Top four bits of an instruction word.
pub open spec fn field_class(w: u16) -> int {
    w as int / 0x1000
}

/// Register operand `X` (bits 8..12).
pub open spec fn field_x(w: u16) -> int {
    (w as int / 0x100) % 0x10
}

/// Register operand `Y` (bits 4..8).
pub open spec fn field_y(w: u16) -> int {
    (w as int / 0x10) % 0x10
}

/// Four-bit constant `N` (bits 0..4).
pub open spec fn field_n(w: u16) -> int {
    w as int % 0x10
}

/// Eight-bit constant `NN` (bits 0..8).
pub open spec fn field_nn(w: u16) -> int {
    w as int % 0x100
}

/// Twelve-bit address `NNN` (bits 0..12).
pub open spec fn field_nnn(w: u16) -> int {
    w as int % 0x1000
}

/// The canonical decoding table: the class picks the instruction, and the
/// overloaded classes `0`, `8`, `E` and `F` are refined by the low nibble or
/// the low byte. Every pattern that the table leaves out is `Undefined`.
pub open spec fn decode(w: u16) -> OpCodeSymbol {
    let class = field_class(w);
    if class == 0x0 {
        if w == 0x00E0 {
            OpCodeSymbol::ClearScreen
        } else if w == 0x00EE {
            OpCodeSymbol::Return
        } else if w < 0x0100 {
            OpCodeSymbol::Undefined
        } else {
            OpCodeSymbol::Sys
        }
    } else if class == 0x1 {
        OpCodeSymbol::Jump
    } else if class == 0x2 {
        OpCodeSymbol::Call
    } else if class == 0x3 {
        OpCodeSymbol::SkipEqImm
    } else if class == 0x4 {
        OpCodeSymbol::SkipNeImm
    } else if class == 0x5 {
        OpCodeSymbol::SkipEqReg
    } else if class == 0x6 {
        OpCodeSymbol::LoadImm
    } else if class == 0x7 {
        OpCodeSymbol::AddImm
    } else if class == 0x8 {
        decode_alu(field_n(w))
    } else if class == 0x9 {
        OpCodeSymbol::SkipNeReg
    } else if class == 0xA {
        OpCodeSymbol::LoadIndex
    } else if class == 0xB {
        OpCodeSymbol::JumpOffset
    } else if class == 0xC {
        OpCodeSymbol::Random
    } else if class == 0xD {
        OpCodeSymbol::Draw
    } else if class == 0xE {
        if field_nn(w) == 0x9E {
            OpCodeSymbol::SkipKeyPressed
        } else if field_nn(w) == 0xA1 {
            OpCodeSymbol::SkipKeyNotPressed
        } else {
            OpCodeSymbol::Undefined
        }
    } else {
        decode_misc(field_nn(w))
    }
}

/// Class `8`, refined by the low nibble.
pub open spec fn decode_alu(n: int) -> OpCodeSymbol {
    if n == 0x0 {
        OpCodeSymbol::Move
    } else if n == 0x1 {
        OpCodeSymbol::Or
    } else if n == 0x2 {
        OpCodeSymbol::And
    } else if n == 0x3 {
        OpCodeSymbol::Xor
    } else if n == 0x4 {
        OpCodeSymbol::AddReg
    } else if n == 0x5 {
        OpCodeSymbol::SubReg
    } else if n == 0x6 {
        OpCodeSymbol::ShiftRight
    } else if n == 0x7 {
        OpCodeSymbol::SubRev
    } else if n == 0xE {
        OpCodeSymbol::ShiftLeft
    } else {
        OpCodeSymbol::Undefined
    }
}

/// Class `F`, refined by the low byte.
pub open spec fn decode_misc(nn: int) -> OpCodeSymbol {
    if nn == 0x07 {
        OpCodeSymbol::GetDelay
    } else if nn == 0x0A {
        OpCodeSymbol::WaitKey
    } else if nn == 0x15 {
        OpCodeSymbol::SetDelay
    } else if nn == 0x18 {
        OpCodeSymbol::SetSound
    } else if nn == 0x1E {
        OpCodeSymbol::AddIndex
    } else if nn == 0x29 {
        OpCodeSymbol::FontChar
    } else if nn == 0x33 {
        OpCodeSymbol::StoreBcd
    } else if nn == 0x55 {
        OpCodeSymbol::StoreRegs
    } else if nn == 0x65 {
        OpCodeSymbol::LoadRegs
    } else {
        OpCodeSymbol::Undefined
    }
}

/// One fetched 16-bit instruction word.
#[derive(Clone, Copy, Debug, PartialEq, Eq, Structural)]
pub struct OpCode {
    pub val: u16,
}

impl OpCode {
    pub fn new(val: u16) -> (r: OpCode)
        ensures
            r.val == val,
    {
        OpCode { val }
    }

    /// Register operand `X`.
    pub fn x(&self) -> (r: usize)
        ensures
            r == field_x(self.val),
            r < 16,
    {
        let w = self.val;
        assert(((w & 0x0F00) >> 8u16) == (w / 0x100) % 0x10) by (bit_vector);
        ((w & 0x0F00) >> 8u16) as usize
    }

    /// Register operand `Y`.
    pub fn y(&self) -> (r: usize)
        ensures
            r == field_y(self.val),
            r < 16,
    {
        let w = self.val;
        assert(((w & 0x00F0) >> 4u16) == (w / 0x10) % 0x10) by (bit_vector);
        ((w & 0x00F0) >> 4u16) as usize
    }

    /// Four-bit constant `N`.
    pub fn n(&self) -> (r: u8)
        ensures
            r == field_n(self.val),
            r < 16,
    {
        let w = self.val;
        assert((w & 0x000F) == w % 0x10) by (bit_vector);
        (w & 0x000F) as u8
    }

    /// Eight-bit constant `NN`.
    pub fn nn(&self) -> (r: u8)
        ensures
            r == field_nn(self.val),
    {
        let w = self.val;
        assert((w & 0x00FF) == w % 0x100) by (bit_vector);
        (w & 0x00FF) as u8
    }

    /// Twelve-bit address `NNN`.
    pub fn nnn(&self) -> (r: u16)
        ensures
            r == field_nnn(self.val),
            r <= 0xFFF,
    {
        let w = self.val;
        assert((w & 0x0FFF) == w % 0x1000) by (bit_vector);
        w & 0x0FFF
    }

    /// Decodes the word by the canonical table; never fails: a pattern
    /// outside the instruction set is `Undefined`.
    pub fn find_opcode_symbol(&self) -> (r: OpCodeSymbol)
        ensures
            r == decode(self.val),
    {
        let w = self.val;
        assert((w >> 12u16) == w / 0x1000) by (bit_vector);
        let class: u16 = w >> 12u16;
        if class == 0x0 {
            if w == 0x00E0 {
                OpCodeSymbol::ClearScreen
            } else if w == 0x00EE {
                OpCodeSymbol::Return
            } else if w < 0x0100 {
                OpCodeSymbol::Undefined
            } else {
                OpCodeSymbol::Sys
            }
        } else if class == 0x1 {
            OpCodeSymbol::Jump
        } else if class == 0x2 {
            OpCodeSymbol::Call
        } else if class == 0x3 {
            OpCodeSymbol::SkipEqImm
        } else if class == 0x4 {
            OpCodeSymbol::SkipNeImm
        } else if class == 0x5 {
            OpCodeSymbol::SkipEqReg
        } else if class == 0x6 {
            OpCodeSymbol::LoadImm
        } else if class == 0x7 {
            OpCodeSymbol::AddImm
        } else if class == 0x8 {
            match self.n() {
                0x0 => OpCodeSymbol::Move,
                0x1 => OpCodeSymbol::Or,
                0x2 => OpCodeSymbol::And,
                0x3 => OpCodeSymbol::Xor,
                0x4 => OpCodeSymbol::AddReg,
                0x5 => OpCodeSymbol::SubReg,
                0x6 => OpCodeSymbol::ShiftRight,
                0x7 => OpCodeSymbol::SubRev,
                0xE => OpCodeSymbol::ShiftLeft,
                _ => OpCodeSymbol::Undefined,
            }
        } else if class == 0x9 {
            OpCodeSymbol::SkipNeReg
        } else if class == 0xA {
            OpCodeSymbol::LoadIndex
        } else if class == 0xB {
            OpCodeSymbol::JumpOffset
        } else if class == 0xC {
            OpCodeSymbol::Random
        } else if class == 0xD {
            OpCodeSymbol::Draw
        } else if class == 0xE {
            match self.nn() {
                0x9E => OpCodeSymbol::SkipKeyPressed,
                0xA1 => OpCodeSymbol::SkipKeyNotPressed,
                _ => OpCodeSymbol::Undefined,
            }
        } else {
            match self.nn() {
                0x07 => OpCodeSymbol::GetDelay,
                0x0A => OpCodeSymbol::WaitKey,
                0x15 => OpCodeSymbol::SetDelay,
                0x18 => OpCodeSymbol::SetSound,
                0x1E => OpCodeSymbol::AddIndex,
                0x29 => OpCodeSymbol::FontChar,
                0x33 => OpCodeSymbol::StoreBcd,
                0x55 => OpCodeSymbol::StoreRegs,
                0x65 => OpCodeSymbol::LoadRegs,
                _ => OpCodeSymbol::Undefined,
            }
        }
    }
}

} // verus!
