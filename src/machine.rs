use vstd::prelude::*;

verus! {

/// Bytes of addressable memory, addresses `0x000..=0xFFF`.
pub const MEMORY_SIZE: usize = 4096;

/// Address at which a program is loaded and execution starts.
pub const PROGRAM_START: u16 = 0x200;

/// Largest program that fits between `PROGRAM_START` and the end of memory.
pub const MAX_ROM_SIZE: usize = 3584;

/// Width of the screen in pixels.
pub const SCREEN_WIDTH: usize = 64;

/// Height of the screen in pixels.
pub const SCREEN_HEIGHT: usize = 32;

/// Number of pixels on the screen.
pub const SCREEN_PIXELS: usize = 2048;

/// Depth of the call stack.
pub const STACK_DEPTH: usize = 16;

/// Number of keypad keys.
pub const KEY_COUNT: usize = 16;

/// Bytes of the built-in font: sixteen glyphs of five bytes, loaded at address 0.
pub const FONT_SIZE: usize = 80;

/// The faults of the machine. `RomTooLarge` and `RomUnreadable` come from
/// loading a program; the others stop execution.
#[derive(Clone, Copy, Debug, PartialEq, Eq, Structural)]
pub enum Chip8Error {
    /// An address computed by an instruction lies beyond `0xFFF`.
    MemoryFault,
    /// A call with all sixteen stack levels in use.
    StackOverflow,
    /// A return with an empty stack.
    StackUnderflow,
    /// A program longer than `MAX_ROM_SIZE` bytes.
    RomTooLarge,
    /// The program's bytes could not be read; raised by the host.
    RomUnreadable,
}

/// The 4 KiB memory.
pub struct Memory {
    pub bytes: [u8; 4096],
}

/// General registers `V0..=VF`, the index register `I`, the program counter
/// and the two timers.
pub struct Registers {
    pub v: [u8; 16],
    pub pc: u16,
    pub i: u16,
    pub delay_timer: u8,
    pub sound_timer: u8,
}

/// The 64 x 32 monochrome framebuffer, row-major: pixel `(x, y)` is at
/// `y * 64 + x`.
pub struct Graphics {
    pub gfx: [bool; 2048],
}

/// Return addresses; `entries[..sp]` are in use, the latest call last.
pub struct Stack {
    pub entries: [u16; 16],
    pub sp: usize,
}

/// The whole machine state.
pub struct Chip8 {
    pub draw_flag: bool,
    pub regs: Registers,
    pub memory: Memory,
    pub stack: Stack,
    pub graphics: Graphics,
    pub keys: [bool; 16],
}

/// The mathematical model of a machine state.
pub struct MachineView {
    pub memory: Seq<u8>,
    pub v: Seq<u8>,
    pub i: u16,
    pub pc: u16,
    pub delay_timer: u8,
    pub sound_timer: u8,
    pub stack: Seq<u16>,
    pub sp: nat,
    pub gfx: Seq<bool>,
    pub draw_flag: bool,
    pub keys: Seq<bool>,
}

impl MachineView {
    /// Every component has its fixed size and the stack pointer is in range.
    pub open spec fn wf(&self) -> bool {
        &&& self.memory.len() == MEMORY_SIZE
        &&& self.v.len() == 16
        &&& self.stack.len() == STACK_DEPTH
        &&& self.sp <= STACK_DEPTH
        &&& self.gfx.len() == SCREEN_PIXELS
        &&& self.keys.len() == KEY_COUNT
    }
}

impl View for Chip8 {
    type V = MachineView;

    open spec fn view(&self) -> MachineView {
        MachineView {
            memory: self.memory.bytes@,
            v: self.regs.v@,
            i: self.regs.i,
            pc: self.regs.pc,
            delay_timer: self.regs.delay_timer,
            sound_timer: self.regs.sound_timer,
            stack: self.stack.entries@,
            sp: self.stack.sp as nat,
            gfx: self.graphics.gfx@,
            draw_flag: self.draw_flag,
            keys: self.keys@,
        }
    }
}

/// The built-in font: glyphs `0` to `F`, five rows of four pixels each.
pub open spec fn fontset() -> Seq<u8> {
    seq![
        0xF0u8, 0x90, 0x90, 0x90, 0xF0,  // 0
        0x20, 0x60, 0x20, 0x20, 0x70,  // 1
        0xF0, 0x10, 0xF0, 0x80, 0xF0,  // 2
        0xF0, 0x10, 0xF0, 0x10, 0xF0,  // 3
        0x90, 0x90, 0xF0, 0x10, 0x10,  // 4
        0xF0, 0x80, 0xF0, 0x10, 0xF0,  // 5
        0xF0, 0x80, 0xF0, 0x90, 0xF0,  // 6
        0xF0, 0x10, 0x20, 0x40, 0x40,  // 7
        0xF0, 0x90, 0xF0, 0x90, 0xF0,  // 8
        0xF0, 0x90, 0xF0, 0x10, 0xF0,  // 9
        0xF0, 0x90, 0xF0, 0x90, 0x90,  // A
        0xE0, 0x90, 0xE0, 0x90, 0xE0,  // B
        0xF0, 0x80, 0x80, 0x80, 0xF0,  // C
        0xE0, 0x90, 0x90, 0x90, 0xE0,  // D
        0xF0, 0x80, 0xF0, 0x80, 0xF0,  // E
        0xF0, 0x80, 0xF0, 0x80, 0x80,  // F
    ]
}

/// Memory right after a reset: the font at address 0, zero elsewhere.
pub open spec fn reset_memory() -> Seq<u8> {
    Seq::new(MEMORY_SIZE as nat, |a: int| if a < FONT_SIZE { fontset()[a] } else { 0u8 })
}

/// The state that `initialize` produces; the keypad belongs to the host
/// and is kept.
pub open spec fn reset_view(keys: Seq<bool>) -> MachineView {
    MachineView {
        memory: reset_memory(),
        v: Seq::new(16, |k: int| 0u8),
        i: 0,
        pc: PROGRAM_START,
        delay_timer: 0,
        sound_timer: 0,
        stack: Seq::new(STACK_DEPTH as nat, |k: int| 0u16),
        sp: 0,
        gfx: Seq::new(SCREEN_PIXELS as nat, |p: int| false),
        draw_flag: true,
        keys,
    }
}

/// Loading a program: it must fit above `PROGRAM_START`, and is then copied
/// there byte for byte; nothing else changes.
pub open spec fn load_spec(s: MachineView, rom: Seq<u8>) -> Result<MachineView, Chip8Error> {
    if rom.len() > MAX_ROM_SIZE {
        Err(Chip8Error::RomTooLarge)
    } else {
        Ok(
            MachineView {
                memory: Seq::new(
                    MEMORY_SIZE as nat,
                    |a: int|
                        if PROGRAM_START <= a < PROGRAM_START + rom.len() {
                            rom[a - PROGRAM_START]
                        } else {
                            s.memory[a]
                        },
                ),
                ..s
            },
        )
    }
}

/// A key press from the host: a valid key becomes the only key held;
/// anything else leaves the keypad as it was.
pub open spec fn press_spec(keys: Seq<bool>, pressed: Option<u8>) -> Seq<bool> {
    match pressed {
        Some(k) if k < KEY_COUNT => Seq::new(KEY_COUNT as nat, |j: int| j == k),
        _ => keys,
    }
}

impl Memory {
    pub fn new() -> (r: Memory)
        ensures
            r.bytes@ == Seq::new(MEMORY_SIZE as nat, |a: int| 0u8),
    {
        Memory { bytes: [0u8; 4096] }
    }

    pub fn clear(&mut self)
        ensures
            final(self).bytes@ == Seq::new(MEMORY_SIZE as nat, |a: int| 0u8),
    {
        self.bytes = [0u8; 4096];
    }
}

impl Registers {
    pub fn new() -> (r: Registers)
        ensures
            r.v@ == Seq::new(16, |k: int| 0u8),
            r.pc == 0,
            r.i == 0,
            r.delay_timer == 0,
            r.sound_timer == 0,
    {
        Registers { v: [0u8; 16], pc: 0, i: 0, delay_timer: 0, sound_timer: 0 }
    }

    /// Zeroes every register and points the program counter at the program.
    pub fn clear(&mut self)
        ensures
            final(self).v@ == Seq::new(16, |k: int| 0u8),
            final(self).pc == PROGRAM_START,
            final(self).i == 0,
            final(self).delay_timer == 0,
            final(self).sound_timer == 0,
    {
        self.v = [0u8; 16];
        self.pc = PROGRAM_START;
        self.i = 0;
        self.delay_timer = 0;
        self.sound_timer = 0;
    }
}

impl Graphics {
    pub fn new() -> (r: Graphics)
        ensures
            r.gfx@ == Seq::new(SCREEN_PIXELS as nat, |p: int| false),
    {
        Graphics { gfx: [false; 2048] }
    }

    pub fn clear(&mut self)
        ensures
            final(self).gfx@ == Seq::new(SCREEN_PIXELS as nat, |p: int| false),
    {
        self.gfx = [false; 2048];
    }
}

impl Stack {
    pub fn new() -> (r: Stack)
        ensures
            r.entries@ == Seq::new(STACK_DEPTH as nat, |k: int| 0u16),
            r.sp == 0,
    {
        Stack { entries: [0u16; 16], sp: 0 }
    }

    pub fn clear(&mut self)
        ensures
            final(self).entries@ == Seq::new(STACK_DEPTH as nat, |k: int| 0u16),
            final(self).sp == 0,
    {
        self.entries = [0u16; 16];
        self.sp = 0;
    }
}

impl Chip8 {
    /// The machine's own invariant: the stack pointer is in range.
    pub open spec fn wf(&self) -> bool {
        self.stack.sp <= STACK_DEPTH
    }

    /// A machine with every component zeroed; `initialize` prepares it to run.
    pub fn new() -> (r: Chip8)
        ensures
            r.wf(),
            r@.wf(),
            r@.memory == Seq::new(MEMORY_SIZE as nat, |a: int| 0u8),
            r@.v == Seq::new(16, |k: int| 0u8),
            r@.i == 0,
            r@.pc == 0,
            r@.delay_timer == 0,
            r@.sound_timer == 0,
            r@.stack == Seq::new(STACK_DEPTH as nat, |k: int| 0u16),
            r@.sp == 0,
            r@.gfx == Seq::new(SCREEN_PIXELS as nat, |p: int| false),
            !r@.draw_flag,
            r@.keys == Seq::new(KEY_COUNT as nat, |k: int| false),
    {
        Chip8 {
            draw_flag: false,
            regs: Registers::new(),
            memory: Memory::new(),
            stack: Stack::new(),
            graphics: Graphics::new(),
            keys: [false; 16],
        }
    }

    /// Copies the font into memory at address 0; nothing else changes.
    pub fn init_fontset(&mut self)
        ensures
            final(self)@ == (MachineView {
                memory: fontset() + old(self)@.memory.subrange(FONT_SIZE as int, MEMORY_SIZE as int),
                ..old(self)@
            }),
            final(self).wf() == old(self).wf(),
    {
        let font: [u8; 80] = [
            0xF0, 0x90, 0x90, 0x90, 0xF0,  // 0
            0x20, 0x60, 0x20, 0x20, 0x70,  // 1
            0xF0, 0x10, 0xF0, 0x80, 0xF0,  // 2
            0xF0, 0x10, 0xF0, 0x10, 0xF0,  // 3
            0x90, 0x90, 0xF0, 0x10, 0x10,  // 4
            0xF0, 0x80, 0xF0, 0x10, 0xF0,  // 5
            0xF0, 0x80, 0xF0, 0x90, 0xF0,  // 6
            0xF0, 0x10, 0x20, 0x40, 0x40,  // 7
            0xF0, 0x90, 0xF0, 0x90, 0xF0,  // 8
            0xF0, 0x90, 0xF0, 0x10, 0xF0,  // 9
            0xF0, 0x90, 0xF0, 0x90, 0x90,  // A
            0xE0, 0x90, 0xE0, 0x90, 0xE0,  // B
            0xF0, 0x80, 0x80, 0x80, 0xF0,  // C
            0xE0, 0x90, 0x90, 0x90, 0xE0,  // D
            0xF0, 0x80, 0xF0, 0x80, 0xF0,  // E
            0xF0, 0x80, 0xF0, 0x80, 0x80,  // F
        ];
        assert(font@ =~= fontset());
        let ghost before = self.memory.bytes@;
        for idx in 0..FONT_SIZE
            invariant
                self.memory.bytes@.len() == MEMORY_SIZE,
                font@ == fontset(),
                forall|a: int| 0 <= a < idx ==> self.memory.bytes@[a] == fontset()[a],
                forall|a: int| idx <= a < MEMORY_SIZE ==> self.memory.bytes@[a] == before[a],
                self.regs == old(self).regs,
                self.stack == old(self).stack,
                self.graphics == old(self).graphics,
                self.keys == old(self).keys,
                self.draw_flag == old(self).draw_flag,
        {
            self.memory.bytes.set(idx, font[idx]);
        }
        assert(self.memory.bytes@ =~= fontset() + before.subrange(FONT_SIZE as int, MEMORY_SIZE as int));
    }

    /// Resets the machine: memory, registers, stack and framebuffer are
    /// cleared, the font is loaded, execution will start at `PROGRAM_START`
    /// and a redraw is requested. Only the keypad is kept.
    pub fn initialize(&mut self)
        ensures
            final(self).wf(),
            final(self)@ == reset_view(old(self)@.keys),
    {
        self.stack.clear();
        self.regs.clear();
        self.memory.clear();
        self.graphics.clear();
        self.init_fontset();
        self.draw_flag = true;
        assert(self@.memory =~= reset_memory());
    }

    /// Copies a program into memory at `PROGRAM_START`. A program longer
    /// than `MAX_ROM_SIZE` is refused with `RomTooLarge` and changes nothing.
    pub fn load_game(&mut self, rom: &[u8]) -> (r: Result<(), Chip8Error>)
        ensures
            final(self).wf() == old(self).wf(),
            r is Ok <==> rom@.len() <= MAX_ROM_SIZE,
            match load_spec(old(self)@, rom@) {
                Ok(t) => r == Ok::<(), Chip8Error>(()) && final(self)@ == t,
                Err(e) => r == Err::<(), Chip8Error>(e) && final(self)@ == old(self)@,
            },
    {
        let len = rom.len();
        if len > MAX_ROM_SIZE {
            return Err(Chip8Error::RomTooLarge);
        }
        let ghost before = self.memory.bytes@;
        for idx in 0..len
            invariant
                len == rom@.len(),
                len <= MAX_ROM_SIZE,
                self.memory.bytes@.len() == MEMORY_SIZE,
                forall|a: int|
                    0 <= a < MEMORY_SIZE ==> self.memory.bytes@[a] == if PROGRAM_START <= a
                        < PROGRAM_START + idx {
                        rom@[a - PROGRAM_START]
                    } else {
                        before[a]
                    },
                self.regs == old(self).regs,
                self.stack == old(self).stack,
                self.graphics == old(self).graphics,
                self.keys == old(self).keys,
                self.draw_flag == old(self).draw_flag,
        {
            self.memory.bytes.set(PROGRAM_START as usize + idx, rom[idx]);
        }
        assert(self@.memory =~= load_spec(old(self)@, rom@)->Ok_0.memory);
        Ok(())
    }

    /// Takes a key press from the host: a key index below 16 becomes the
    /// only key held; `None` or an invalid index changes nothing.
    pub fn set_keys(&mut self, pressed: Option<u8>)
        ensures
            final(self)@ == (MachineView { keys: press_spec(old(self)@.keys, pressed), ..old(self)@ }),
            final(self).wf() == old(self).wf(),
    {
        if let Some(key) = pressed {
            if (key as usize) < KEY_COUNT {
                let mut idx: usize = 0;
                while idx < KEY_COUNT
                    invariant
                        idx <= KEY_COUNT,
                        key < KEY_COUNT,
                        forall|j: int| 0 <= j < idx ==> self.keys@[j] == (j == key),
                        self.regs == old(self).regs,
                        self.memory == old(self).memory,
                        self.stack == old(self).stack,
                        self.graphics == old(self).graphics,
                        self.draw_flag == old(self).draw_flag,
                    decreases KEY_COUNT - idx,
                {
                    self.keys.set(idx, idx == key as usize);
                    idx = idx + 1;
                }
                assert(self.keys@ =~= press_spec(old(self)@.keys, pressed));
            }
        }
    }

    /// Whether pixel `(x, y)` is lit.
    pub fn pixel(&self, x: usize, y: usize) -> (r: bool)
        requires
            x < SCREEN_WIDTH,
            y < SCREEN_HEIGHT,
        ensures
            r == self@.gfx[y * SCREEN_WIDTH + x],
    {
        self.graphics.gfx[y * SCREEN_WIDTH + x]
    }

    /// Whether the framebuffer changed since the host last cleared the flag.
    pub fn draw_flag(&self) -> (r: bool)
        ensures
            r == self@.draw_flag,
    {
        self.draw_flag
    }

    /// Called by the host once it has drawn the framebuffer.
    pub fn clear_draw_flag(&mut self)
        ensures
            final(self)@ == (MachineView { draw_flag: false, ..old(self)@ }),
            final(self).wf() == old(self).wf(),
    {
        self.draw_flag = false;
    }
}

} // verus!
