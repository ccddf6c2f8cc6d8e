use chip8::engine::{CycleReport, CycleStatus};
use chip8::keypad::key_index_of;
use chip8::machine::{Chip8, Chip8Error, MAX_ROM_SIZE, PROGRAM_START};
use chip8::opcode::{OpCode, OpCodeSymbol};

/// A reset machine with `program` loaded at the program start.
fn machine_with(program: &[u8]) -> Chip8 {
    let mut m = Chip8::new();
    m.initialize();
    m.load_game(program).expect("program fits");
    m
}

fn words(ws: &[u16]) -> Vec<u8> {
    let mut out = Vec::new();
    for w in ws {
        out.push((w >> 8) as u8);
        out.push((w & 0xFF) as u8);
    }
    out
}

fn step(m: &mut Chip8) -> CycleReport {
    m.emulate_cycle_with(0).expect("no fault")
}

fn executed() -> CycleReport {
    CycleReport { status: CycleStatus::Executed, beep: false }
}

#[test]
fn a2f0_decodes_to_index_load() {
    let op = OpCode::new(0xA2F0);
    assert_eq!(op.find_opcode_symbol(), OpCodeSymbol::LoadIndex);
    assert_eq!(op.nnn(), 0x2F0);
}

#[test]
fn a2f0_sets_index_and_advances() {
    let mut m = machine_with(&words(&[0xA2F0]));
    assert_eq!(step(&mut m), executed());
    assert_eq!(m.regs.i, 0x2F0);
    assert_eq!(m.regs.pc, 0x202);
}

#[test]
fn decoder_refines_overloaded_classes() {
    let cases: [(u16, OpCodeSymbol); 16] = [
        (0x00E0, OpCodeSymbol::ClearScreen),
        (0x00EE, OpCodeSymbol::Return),
        (0x00E1, OpCodeSymbol::Undefined),
        (0x0000, OpCodeSymbol::Undefined),
        (0x0123, OpCodeSymbol::Sys),
        (0x8AB4, OpCodeSymbol::AddReg),
        (0x8AB8, OpCodeSymbol::Undefined),
        (0x8ABE, OpCodeSymbol::ShiftLeft),
        (0xE19E, OpCodeSymbol::SkipKeyPressed),
        (0xE1A1, OpCodeSymbol::SkipKeyNotPressed),
        (0xE1AE, OpCodeSymbol::Undefined),
        (0xF107, OpCodeSymbol::GetDelay),
        (0xF10A, OpCodeSymbol::WaitKey),
        (0xF165, OpCodeSymbol::LoadRegs),
        (0xF117, OpCodeSymbol::Undefined),
        (0xD125, OpCodeSymbol::Draw),
    ];
    for (w, sym) in cases {
        assert_eq!(OpCode::new(w).find_opcode_symbol(), sym, "word {:#06X}", w);
    }
}

#[test]
fn operand_fields() {
    let op = OpCode::new(0xD7A3);
    assert_eq!(op.x(), 7);
    assert_eq!(op.y(), 0xA);
    assert_eq!(op.n(), 3);
    assert_eq!(op.nn(), 0xA3);
    assert_eq!(op.nnn(), 0x7A3);
}

#[test]
fn arithmetic_wraps_for_every_pair() {
    let mut m = machine_with(&[]);
    for a in 0..=255u16 {
        for b in 0..=255u16 {
            let (a8, b8) = (a as u8, b as u8);
            // 7XNN
            m.regs.pc = PROGRAM_START;
            m.regs.v[1] = a8;
            m.regs.v[0xF] = 0x42;
            m.execute_opcode(OpCode::new(0x7100 | b), 0).unwrap();
            assert_eq!(m.regs.v[1] as u16, (a + b) % 256);
            assert_eq!(m.regs.v[0xF], 0x42);
            // 8XY4
            m.regs.v[1] = a8;
            m.regs.v[2] = b8;
            m.execute_opcode(OpCode::new(0x8124), 0).unwrap();
            assert_eq!(m.regs.v[1] as u16, (a + b) % 256);
            assert_eq!(m.regs.v[0xF], if a + b > 255 { 1 } else { 0 });
            // 8XY5
            m.regs.v[1] = a8;
            m.regs.v[2] = b8;
            m.execute_opcode(OpCode::new(0x8125), 0).unwrap();
            assert_eq!(m.regs.v[1] as u16, (a + 256 - b) % 256);
            assert_eq!(m.regs.v[0xF], if a < b { 0 } else { 1 });
            // 8XY7
            m.regs.v[1] = a8;
            m.regs.v[2] = b8;
            m.execute_opcode(OpCode::new(0x8127), 0).unwrap();
            assert_eq!(m.regs.v[1] as u16, (b + 256 - a) % 256);
            assert_eq!(m.regs.v[0xF], if b < a { 0 } else { 1 });
        }
    }
}

#[test]
fn flag_register_as_destination_holds_the_flag() {
    let mut m = machine_with(&words(&[0x8F14]));
    m.regs.v[0xF] = 200;
    m.regs.v[1] = 100;
    step(&mut m);
    assert_eq!(m.regs.v[0xF], 1);
}

#[test]
fn shifts_keep_the_bit_shifted_out() {
    let mut m = machine_with(&words(&[0x8306, 0x840E]));
    m.regs.v[3] = 0b1000_0101;
    m.regs.v[4] = 0b1000_0101;
    step(&mut m);
    assert_eq!(m.regs.v[3], 0b0100_0010);
    assert_eq!(m.regs.v[0xF], 1);
    step(&mut m);
    assert_eq!(m.regs.v[4], 0b0000_1010);
    assert_eq!(m.regs.v[0xF], 1);
}

#[test]
fn bitwise_and_copy() {
    let mut m = machine_with(&words(&[0x8121, 0x8322, 0x8523, 0x8760]));
    m.regs.v[1] = 0b1100;
    m.regs.v[2] = 0b1010;
    m.regs.v[3] = 0b1100;
    m.regs.v[5] = 0b1100;
    m.regs.v[6] = 0x77;
    for _ in 0..4 {
        step(&mut m);
    }
    assert_eq!(m.regs.v[1], 0b1110);
    assert_eq!(m.regs.v[3], 0b1000);
    assert_eq!(m.regs.v[5], 0b0110);
    assert_eq!(m.regs.v[7], 0x77);
}

#[test]
fn clear_screen_turns_every_pixel_off() {
    let mut m = machine_with(&words(&[0x00E0]));
    for p in 0..2048 {
        m.graphics.gfx[p] = p % 3 == 0;
    }
    m.clear_draw_flag();
    assert_eq!(step(&mut m), executed());
    assert!(m.graphics.gfx.iter().all(|p| !p));
    assert!(m.draw_flag());
    assert_eq!(m.regs.pc, 0x202);
}

#[test]
fn call_then_return_resumes_after_the_call() {
    // 0x200: call 0x300; at 0x300: return
    let mut rom = words(&[0x2300]);
    rom.resize(0x100, 0);
    rom.extend(words(&[0x00EE]));
    let mut m = machine_with(&rom);
    let sp = m.stack.sp;
    step(&mut m);
    assert_eq!(m.regs.pc, 0x300);
    assert_eq!(m.stack.sp, sp + 1);
    step(&mut m);
    assert_eq!(m.regs.pc, 0x202);
    assert_eq!(m.stack.sp, sp);
}

#[test]
fn seventeenth_nested_call_overflows() {
    // a subroutine at 0x200 that calls itself
    let mut m = machine_with(&words(&[0x2200]));
    for depth in 0..16 {
        assert_eq!(step(&mut m), executed());
        assert_eq!(m.stack.sp, depth + 1);
    }
    let pc = m.regs.pc;
    assert_eq!(m.emulate_cycle_with(0), Err(Chip8Error::StackOverflow));
    assert_eq!(m.stack.sp, 16);
    assert_eq!(m.regs.pc, pc);
}

#[test]
fn return_with_empty_stack_underflows() {
    let mut m = machine_with(&words(&[0x00EE]));
    assert_eq!(m.emulate_cycle_with(0), Err(Chip8Error::StackUnderflow));
    assert_eq!(m.regs.pc, 0x200);
}

#[test]
fn drawing_twice_restores_the_screen() {
    // I = font glyph 0, draw it at (V1, V2) twice
    let mut m = machine_with(&words(&[0xA000, 0xD125, 0xD125]));
    m.regs.v[1] = 10;
    m.regs.v[2] = 7;
    m.graphics.gfx[0] = true;
    let before = m.graphics.gfx;
    step(&mut m);
    step(&mut m);
    assert_eq!(m.regs.v[0xF], 0);
    assert!(m.pixel(10, 7));
    assert!(m.pixel(13, 11));
    assert!(!m.pixel(11, 8));
    step(&mut m);
    assert_eq!(m.regs.v[0xF], 1);
    assert_eq!(m.graphics.gfx, before);
    assert!(m.draw_flag());
}

#[test]
fn sprites_wrap_at_the_screen_edges() {
    // glyph 0 (0xF0 0x90 0x90 0x90 0xF0) at (62, 30)
    let mut m = machine_with(&words(&[0xA000, 0xD125]));
    m.regs.v[1] = 62;
    m.regs.v[2] = 30;
    step(&mut m);
    step(&mut m);
    assert!(m.pixel(62, 30) && m.pixel(63, 30) && m.pixel(0, 30) && m.pixel(1, 30));
    assert!(m.pixel(62, 31) && !m.pixel(63, 31) && !m.pixel(0, 31) && m.pixel(1, 31));
    assert!(m.pixel(62, 0) && m.pixel(1, 0));
    assert!(m.pixel(62, 2) && m.pixel(63, 2) && m.pixel(0, 2) && m.pixel(1, 2));
    assert!(!m.pixel(61, 30) && !m.pixel(2, 30));
}

#[test]
fn sprite_beyond_memory_faults() {
    let mut m = machine_with(&words(&[0xAFFE, 0xD123]));
    step(&mut m);
    let screen = m.graphics.gfx;
    assert_eq!(m.emulate_cycle_with(0), Err(Chip8Error::MemoryFault));
    assert_eq!(m.graphics.gfx, screen);
    assert_eq!(m.regs.pc, 0x202);
}

#[test]
fn rom_of_maximum_size_fills_memory() {
    let rom: Vec<u8> = (0..MAX_ROM_SIZE).map(|k| (k % 251) as u8 + 1).collect();
    assert_eq!(rom.len(), 3584);
    let mut m = Chip8::new();
    m.initialize();
    assert_eq!(m.load_game(&rom), Ok(()));
    for k in 0..3584 {
        assert_eq!(m.memory.bytes[0x200 + k], rom[k]);
    }
    assert_eq!(m.memory.bytes[0xFFF], rom[3583]);
}

#[test]
fn rom_one_byte_too_large_is_refused() {
    let rom = vec![0xAAu8; 3585];
    let mut m = Chip8::new();
    m.initialize();
    assert_eq!(m.load_game(&rom), Err(Chip8Error::RomTooLarge));
    assert!(m.memory.bytes[0x200..].iter().all(|b| *b == 0));
}

#[test]
fn bcd_of_157() {
    let mut m = machine_with(&words(&[0x6A9D, 0xA300, 0xFA33]));
    for _ in 0..3 {
        step(&mut m);
    }
    assert_eq!(m.regs.v[0xA], 157);
    assert_eq!(m.memory.bytes[0x300], 1);
    assert_eq!(m.memory.bytes[0x301], 5);
    assert_eq!(m.memory.bytes[0x302], 7);
}

#[test]
fn bcd_beyond_memory_faults() {
    let mut m = machine_with(&words(&[0xAFFE, 0xF033]));
    step(&mut m);
    assert_eq!(m.emulate_cycle_with(0), Err(Chip8Error::MemoryFault));
}

#[test]
fn store_and_load_registers_include_vx_and_advance_index() {
    let mut m = machine_with(&words(&[0xA300, 0xF355, 0xA300, 0xF265]));
    for k in 0..16 {
        m.regs.v[k] = 10 + k as u8;
    }
    step(&mut m);
    step(&mut m);
    assert_eq!(&m.memory.bytes[0x300..0x305], &[10, 11, 12, 13, 0]);
    assert_eq!(m.regs.i, 0x304);
    for k in 0..16 {
        m.regs.v[k] = 0;
    }
    step(&mut m);
    step(&mut m);
    assert_eq!(&m.regs.v[0..4], &[10, 11, 12, 0]);
    assert_eq!(m.regs.i, 0x303);
}

#[test]
fn store_registers_beyond_memory_faults() {
    let mut m = machine_with(&words(&[0xAFFD, 0xF355]));
    step(&mut m);
    assert_eq!(m.emulate_cycle_with(0), Err(Chip8Error::MemoryFault));
    assert_eq!(m.regs.i, 0xFFD);
}

#[test]
fn add_to_index_flags_leaving_memory() {
    let mut m = machine_with(&words(&[0xAFFE, 0xF11E, 0xF11E]));
    m.regs.v[1] = 1;
    step(&mut m);
    step(&mut m);
    assert_eq!(m.regs.i, 0xFFF);
    assert_eq!(m.regs.v[0xF], 0);
    step(&mut m);
    assert_eq!(m.regs.i, 0x1000);
    assert_eq!(m.regs.v[0xF], 1);
}

#[test]
fn add_to_index_past_sixteen_bits_faults() {
    let mut m = machine_with(&words(&[0xF11E]));
    m.regs.i = 0xFFFF;
    m.regs.v[1] = 1;
    assert_eq!(m.emulate_cycle_with(0), Err(Chip8Error::MemoryFault));
    assert_eq!(m.regs.i, 0xFFFF);
}

#[test]
fn font_glyph_address() {
    let mut m = machine_with(&words(&[0xF429]));
    m.regs.v[4] = 0xB;
    step(&mut m);
    assert_eq!(m.regs.i, 55);
    assert_eq!(m.memory.bytes[55], 0xE0);
}

#[test]
fn conditional_skips() {
    let mut m = machine_with(&[]);
    m.regs.v[1] = 5;
    m.regs.v[2] = 5;
    m.regs.v[3] = 6;
    let cases: [(u16, u16); 8] = [
        (0x3105, 4),
        (0x3106, 2),
        (0x4105, 2),
        (0x4106, 4),
        (0x5120, 4),
        (0x5130, 2),
        (0x9120, 2),
        (0x9130, 4),
    ];
    for (w, advance) in cases {
        m.regs.pc = 0x200;
        assert_eq!(m.execute_opcode(OpCode::new(w), 0), Ok(CycleStatus::Executed));
        assert_eq!(m.regs.pc, 0x200 + advance, "word {:#06X}", w);
    }
}

#[test]
fn key_skips() {
    let mut m = machine_with(&[]);
    m.regs.v[1] = 7;
    m.regs.v[2] = 0x20;
    m.set_keys(Some(7));
    let cases: [(u16, u16); 4] = [(0xE19E, 4), (0xE1A1, 2), (0xE29E, 2), (0xE2A1, 4)];
    for (w, advance) in cases {
        m.regs.pc = 0x200;
        m.execute_opcode(OpCode::new(w), 0).unwrap();
        assert_eq!(m.regs.pc, 0x200 + advance, "word {:#06X}", w);
    }
}

#[test]
fn jumps() {
    let mut m = machine_with(&words(&[0x1345]));
    step(&mut m);
    assert_eq!(m.regs.pc, 0x345);
    m.regs.v[0] = 0x10;
    m.execute_opcode(OpCode::new(0xB300), 0).unwrap();
    assert_eq!(m.regs.pc, 0x310);
    m.regs.v[0] = 0xFF;
    assert_eq!(m.execute_opcode(OpCode::new(0xBFFF), 0), Err(Chip8Error::MemoryFault));
    assert_eq!(m.regs.pc, 0x310);
}

#[test]
fn fetch_past_the_end_of_memory_faults() {
    let mut m = machine_with(&[]);
    m.regs.pc = 0xFFF;
    assert_eq!(m.fetch_opcode(), Err(Chip8Error::MemoryFault));
    m.regs.pc = 0xFFE;
    m.memory.bytes[0xFFE] = 0x12;
    m.memory.bytes[0xFFF] = 0x34;
    assert_eq!(m.fetch_opcode(), Ok(OpCode::new(0x1234)));
}

#[test]
fn random_byte_is_masked() {
    let mut m = machine_with(&words(&[0xC30F, 0xC400]));
    m.emulate_cycle_with(0xAB).unwrap();
    assert_eq!(m.regs.v[3], 0x0B);
    m.emulate_cycle().unwrap();
    assert_eq!(m.regs.v[4], 0);
}

#[test]
fn wait_for_key_holds_until_a_key_is_pressed() {
    let mut m = machine_with(&words(&[0xF50A]));
    let report = step(&mut m);
    assert_eq!(report.status, CycleStatus::AwaitingKey);
    assert_eq!(m.regs.pc, 0x200);
    step(&mut m);
    assert_eq!(m.regs.pc, 0x200);
    m.set_keys(Some(0xC));
    assert_eq!(step(&mut m), executed());
    assert_eq!(m.regs.v[5], 0xC);
    assert_eq!(m.regs.pc, 0x202);
}

#[test]
fn undefined_opcode_is_reported_without_effect() {
    let mut m = machine_with(&words(&[0x8008]));
    m.regs.delay_timer = 3;
    let report = step(&mut m);
    assert_eq!(report.status, CycleStatus::UndefinedOpcode(0x8008));
    assert_eq!(m.regs.pc, 0x200);
    assert_eq!(m.regs.delay_timer, 2);
}

#[test]
fn native_routine_is_not_run() {
    let mut m = machine_with(&words(&[0x0123]));
    assert_eq!(step(&mut m).status, CycleStatus::UnsupportedOpcode(0x0123));
    assert_eq!(m.regs.pc, 0x200);
}

#[test]
fn timers_count_down_and_beep_once() {
    // V1 = 2; sound = V1; delay = V1; then jump to self
    let mut m = machine_with(&words(&[0x6102, 0xF118, 0xF115, 0x1206]));
    step(&mut m);
    let r = step(&mut m);
    assert!(!r.beep);
    assert_eq!(m.regs.sound_timer, 1);
    let r = step(&mut m);
    assert!(r.beep);
    assert_eq!(m.regs.sound_timer, 0);
    assert_eq!(m.regs.delay_timer, 1);
    let r = step(&mut m);
    assert!(!r.beep);
    assert_eq!(m.regs.delay_timer, 0);
    let r = step(&mut m);
    assert!(!r.beep);
    assert_eq!(m.regs.delay_timer, 0);
    assert_eq!(m.regs.sound_timer, 0);
}

#[test]
fn get_delay_timer() {
    let mut m = machine_with(&words(&[0xF207]));
    m.regs.delay_timer = 9;
    step(&mut m);
    assert_eq!(m.regs.v[2], 9);
    assert_eq!(m.regs.delay_timer, 8);
}

#[test]
fn initialize_resets_everything_but_the_keypad() {
    let mut m = machine_with(&words(&[0x1234]));
    m.regs.v[3] = 4;
    m.stack.sp = 2;
    m.graphics.gfx[5] = true;
    m.set_keys(Some(2));
    m.initialize();
    assert_eq!(m.regs.pc, 0x200);
    assert_eq!(m.regs.v, [0; 16]);
    assert_eq!(m.stack.sp, 0);
    assert!(m.graphics.gfx.iter().all(|p| !p));
    assert_eq!(&m.memory.bytes[0..5], &[0xF0, 0x90, 0x90, 0x90, 0xF0]);
    assert_eq!(&m.memory.bytes[75..80], &[0xF0, 0x80, 0xF0, 0x80, 0x80]);
    assert!(m.memory.bytes[80..].iter().all(|b| *b == 0));
    assert!(m.draw_flag());
    assert!(m.keys[2]);
    let snapshot = (m.memory.bytes, m.regs.pc, m.keys);
    m.initialize();
    assert_eq!((m.memory.bytes, m.regs.pc, m.keys), snapshot);
}

#[test]
fn new_machine_is_zeroed() {
    let m = Chip8::new();
    assert_eq!(m.regs.pc, 0);
    assert!(!m.draw_flag());
    assert!(m.memory.bytes.iter().all(|b| *b == 0));
}

#[test]
fn pressing_a_key_releases_the_others() {
    let mut m = Chip8::new();
    m.set_keys(Some(3));
    m.set_keys(Some(9));
    let held: Vec<usize> = (0..16).filter(|k| m.keys[*k]).collect();
    assert_eq!(held, vec![9]);
    m.set_keys(None);
    m.set_keys(Some(16));
    assert!(m.keys[9]);
}

#[test]
fn keyboard_layout() {
    let expected = "1234qwerasdfzxcv";
    for (k, c) in expected.chars().enumerate() {
        assert_eq!(key_index_of(c), Some(k as u8));
    }
    assert_eq!(key_index_of('Q'), None);
    assert_eq!(key_index_of('5'), None);
}
