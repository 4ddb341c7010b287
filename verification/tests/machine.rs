use new_project::chip8::cpu::{Emulator, CPU};
use new_project::chip8::display::{can_draw, Display, DARK, LIT, PIXELS};
use new_project::chip8::keypad::Keypad;
use new_project::chip8::memory::{Memory, MEMORY_SIZE, PROGRAM_START};
use new_project::chip8::module::{
    ControlFlow, DataOps, Graphics, Input, Instruction, MemoryOps, Timers, Versions,
};
use new_project::chip8::multy_executor::CYCLES_PER_FRAME;
use new_project::cpu::create_emulator;

/// A machine with `program` loaded at the program start.
fn machine_with(program: &[u16]) -> Emulator {
    let mut rom = Vec::new();
    for op in program {
        rom.push((op >> 8) as u8);
        rom.push((op & 0xFF) as u8);
    }
    let mut emu = create_emulator(Versions::CHIP8);
    emu.load_rom(&rom);
    emu
}

/// Runs `n` cycles, checking first that each can run.
fn run(emu: &mut Emulator, n: usize) {
    for _ in 0..n {
        assert!(emu.can_cycle());
        assert!(emu.cycle());
    }
}

#[test]
fn decode_known_opcodes() {
    assert_eq!(Instruction::decode(0x00E0), Instruction::Graphics(Graphics::Clear));
    assert_eq!(Instruction::decode(0x00EE), Instruction::Control(ControlFlow::Return));
    assert_eq!(Instruction::decode(0x1234), Instruction::Control(ControlFlow::Jump { nnn: 0x234 }));
    assert_eq!(Instruction::decode(0x2ABC), Instruction::Control(ControlFlow::Call { nnn: 0xABC }));
    assert_eq!(
        Instruction::decode(0x3A42),
        Instruction::Control(ControlFlow::SkipIfEq { vx: 0xA, kk: 0x42 })
    );
    assert_eq!(
        Instruction::decode(0x8AB4),
        Instruction::Data(DataOps::Add { vx: 0xA, vy: 0xB })
    );
    assert_eq!(Instruction::decode(0x8A76), Instruction::Data(DataOps::Shr { vx: 0xA }));
    assert_eq!(Instruction::decode(0x8A7E), Instruction::Data(DataOps::Shl { vx: 0xA }));
    assert_eq!(
        Instruction::decode(0xD125),
        Instruction::Graphics(Graphics::Draw { vx: 1, vy: 2, n: 5 })
    );
    assert_eq!(Instruction::decode(0xE39E), Instruction::Input(Input::SkipPressed { vx: 3 }));
    assert_eq!(Instruction::decode(0xE3A1), Instruction::Input(Input::SkipNotPressed { vx: 3 }));
    assert_eq!(Instruction::decode(0xF40A), Instruction::Input(Input::WaitKey { vx: 4 }));
    assert_eq!(Instruction::decode(0xF507), Instruction::Timers(Timers::GetDelay { vx: 5 }));
    assert_eq!(Instruction::decode(0xF633), Instruction::Memory(MemoryOps::StoreBcd { vx: 6 }));
    assert_eq!(Instruction::decode(0xA123), Instruction::Memory(MemoryOps::SetI { nnn: 0x123 }));
    assert_eq!(Instruction::decode(0xC7F0), Instruction::Data(DataOps::Rand { vx: 7, kk: 0xF0 }));
}

#[test]
fn decode_unknown_opcodes() {
    assert_eq!(Instruction::decode(0x0123), Instruction::Unknown(0x0123));
    assert_eq!(Instruction::decode(0x5121), Instruction::Unknown(0x5121));
    assert_eq!(Instruction::decode(0x812F), Instruction::Unknown(0x812F));
    assert_eq!(Instruction::decode(0x9011), Instruction::Unknown(0x9011));
    assert_eq!(Instruction::decode(0xE100), Instruction::Unknown(0xE100));
    assert_eq!(Instruction::decode(0xF1FF), Instruction::Unknown(0xF1FF));
}

#[test]
fn keypad_press_release() {
    let mut k = Keypad::new();
    assert!(!k.is_any_key_pressed());
    k.press_key(0xA);
    assert!(k.is_key_pressed(0xA));
    assert!(!k.is_key_pressed(0xB));
    assert!(k.is_any_key_pressed());
    assert_eq!(k.get_last_pressed_key(), 0xA);
    k.press_key(0x3);
    assert_eq!(k.get_last_pressed_key(), 0x3);
    k.release_key(0xA);
    assert!(!k.is_key_pressed(0xA));
    assert!(k.is_key_pressed(0x3));
    k.release_key(0x3);
    assert!(!k.is_any_key_pressed());
    // the last key stays recorded after it is let go
    assert_eq!(k.get_last_pressed_key(), 0x3);
}

#[test]
fn keypad_highest_key() {
    let mut k = Keypad::new();
    k.press_key(0xF);
    assert!(k.is_key_pressed(0xF));
    k.release_key(0xF);
    assert!(!k.is_key_pressed(0xF));
}

#[test]
fn stack_push_pop() {
    let mut cpu = CPU::new(Versions::CHIP8);
    cpu.stack.push(0x222);
    cpu.stack.push(0x444);
    assert_eq!(cpu.stack.pop(), 0x444);
    assert_eq!(cpu.stack.pop(), 0x222);
}

#[test]
fn stack_full_depth() {
    let mut cpu = CPU::new(Versions::CHIP8);
    for k in 0..16u16 {
        cpu.stack.push(k);
    }
    for k in (0..16u16).rev() {
        assert_eq!(cpu.stack.pop(), k);
    }
}

#[test]
fn cpu_initial_state_and_setters() {
    let mut cpu = CPU::new(Versions::SuperChip8);
    assert_eq!(cpu.get_pc(), 0x200);
    assert_eq!(cpu.get_i(), 0);
    assert_eq!(cpu.get_dl_timer(), 0);
    for x in 0..16 {
        assert_eq!(cpu.get_v(x), 0);
    }
    cpu.skip();
    assert_eq!(cpu.get_pc(), 0x202);
    cpu.set_pc(0x300);
    assert_eq!(cpu.get_pc(), 0x300);
    cpu.set_v(0xF, 9);
    assert_eq!(cpu.get_v(0xF), 9);
    cpu.set_i(0x123);
    assert_eq!(cpu.get_i(), 0x123);
    cpu.set_dl_time(2);
    cpu.set_sound(1);
    cpu.decrement_timers();
    assert_eq!(cpu.get_dl_timer(), 1);
    assert_eq!(cpu.timers.sound_timer, 0);
    cpu.decrement_timers();
    cpu.decrement_timers();
    assert_eq!(cpu.get_dl_timer(), 0);
    assert_eq!(cpu.timers.sound_timer, 0);
}

#[test]
fn memory_font_rom_and_words() {
    let mut m = Memory::new();
    // digit 0 of the font, then digit F
    assert_eq!(m.read_bytes(0, 5), vec![0xF0, 0x90, 0x90, 0x90, 0xF0]);
    assert_eq!(m.read_bytes(75, 5), vec![0xF0, 0x80, 0xF0, 0x80, 0x80]);
    assert_eq!(m.read(80), 0);
    m.load_memory(&[0x12, 0x34, 0x56]);
    assert_eq!(m.read_word(PROGRAM_START), 0x1234);
    assert_eq!(m.read_word(PROGRAM_START + 1), 0x3456);
    assert_eq!(m.read(PROGRAM_START + 3), 0);
    m.write(MEMORY_SIZE - 1, 0xAB);
    assert_eq!(m.read(MEMORY_SIZE - 1), 0xAB);
    m.write_bytes(0x300, &[1, 2, 3]);
    assert_eq!(m.read_bytes(0x2FF, 5), vec![0, 1, 2, 3, 0]);
}

#[test]
fn display_draw_collision_and_render() {
    let mut d = Display::new();
    let frame = d.render();
    assert!(frame.iter().all(|&p| p == DARK));
    // one full byte at column 0, row 0
    assert!(!d.drawing(&[0xFF], 0, 0));
    let frame = d.render();
    for col in 0..8 {
        assert_eq!(frame[col], LIT);
    }
    assert_eq!(frame[8], DARK);
    assert_eq!(frame[64], DARK);
    // drawing again turns the pixels off and reports it
    assert!(d.drawing(&[0xFF], 0, 0));
    assert!(d.render().iter().all(|&p| p == DARK));
}

#[test]
fn display_draw_position() {
    let mut d = Display::new();
    // 0x80 is one pixel: column x, row y
    assert!(!d.drawing(&[0x80], 10, 3));
    let frame = d.render();
    assert_eq!(frame.len(), PIXELS);
    assert_eq!(frame[3 * 64 + 10], LIT);
    assert_eq!(frame.iter().filter(|&&p| p == LIT).count(), 1);
    // at column 60 the sprite runs off the right edge: four pixels remain
    let mut d = Display::new();
    d.drawing(&[0xFF], 60, 0);
    let frame = d.render();
    assert_eq!(frame.iter().filter(|&&p| p == LIT).count(), 4);
    assert_eq!(frame[63], LIT);
}

#[test]
fn display_rows_below_screen_left_out() {
    let mut d = Display::new();
    assert!(!d.drawing(&[0x80, 0x80, 0x80], 0, 30));
    let frame = d.render();
    assert_eq!(frame[30 * 64], LIT);
    assert_eq!(frame[31 * 64], LIT);
    assert_eq!(frame.iter().filter(|&&p| p == LIT).count(), 2);
    // nothing at all is drawn from row 32 on
    assert!(!d.drawing(&[0xFF], 0, 40));
    d.clear();
    assert!(d.render().iter().all(|&p| p == DARK));
}

#[test]
fn display_column_limits() {
    assert!(can_draw(1, 0, 0));
    assert!(can_draw(1, 119, 0));
    assert!(!can_draw(1, 120, 0));
    assert!(!can_draw(1, 200, 0));
    assert!(can_draw(1, 249, 0));
    // nothing is placed when no row is drawn
    assert!(can_draw(0, 150, 0));
    assert!(can_draw(1, 150, 32));
}

#[test]
fn cycle_load_add_with_carry() {
    // V0 = 0xF0, V1 = 0x20, V0 += V1 (carry), V2 += 1
    let mut emu = machine_with(&[0x60F0, 0x6120, 0x8014, 0x7201]);
    run(&mut emu, 4);
    assert_eq!(emu.cpu.get_v(0), 0x10);
    assert_eq!(emu.cpu.get_v(0xF), 1);
    assert_eq!(emu.cpu.get_v(2), 1);
    assert_eq!(emu.cpu.get_pc(), 0x208);
}

#[test]
fn cycle_sub_and_subn() {
    // V0 = 5, V1 = 7; V0 -= V1 borrows
    let mut emu = machine_with(&[0x6005, 0x6107, 0x8015]);
    run(&mut emu, 3);
    assert_eq!(emu.cpu.get_v(0), 0xFE);
    assert_eq!(emu.cpu.get_v(0xF), 0);
    // V2 = 5, V3 = 7; V2 = V3 - V2
    let mut emu = machine_with(&[0x6205, 0x6307, 0x8237]);
    run(&mut emu, 3);
    assert_eq!(emu.cpu.get_v(2), 2);
    assert_eq!(emu.cpu.get_v(0xF), 1);
    // equal values do not borrow
    let mut emu = machine_with(&[0x6409, 0x6509, 0x8455]);
    run(&mut emu, 3);
    assert_eq!(emu.cpu.get_v(4), 0);
    assert_eq!(emu.cpu.get_v(0xF), 1);
}

#[test]
fn cycle_logic_and_shifts() {
    let mut emu = machine_with(&[0x60F0, 0x613C, 0x8011, 0x6281, 0x8206, 0x6381, 0x830E]);
    run(&mut emu, 3);
    assert_eq!(emu.cpu.get_v(0), 0xFC);
    run(&mut emu, 2);
    assert_eq!(emu.cpu.get_v(2), 0x40);
    assert_eq!(emu.cpu.get_v(0xF), 1);
    run(&mut emu, 2);
    assert_eq!(emu.cpu.get_v(3), 0x02);
    assert_eq!(emu.cpu.get_v(0xF), 1);
}

#[test]
fn cycle_and_xor_mov_addimm_wraps() {
    let mut emu = machine_with(&[0x60F0, 0x613C, 0x8012, 0x8213, 0x8300, 0x73FF]);
    run(&mut emu, 3);
    assert_eq!(emu.cpu.get_v(0), 0x30);
    run(&mut emu, 1);
    assert_eq!(emu.cpu.get_v(2), 0x3C);
    run(&mut emu, 2);
    assert_eq!(emu.cpu.get_v(3), 0x2F);
}

#[test]
fn cycle_call_and_return() {
    // 0x200: call 0x206; 0x202: V1 = 1; 0x204: jump 0x204; 0x206: V0 = 7; 0x208: return
    let mut emu = machine_with(&[0x2206, 0x6101, 0x1204, 0x6007, 0x00EE]);
    run(&mut emu, 1);
    assert_eq!(emu.cpu.get_pc(), 0x206);
    run(&mut emu, 2);
    assert_eq!(emu.cpu.get_pc(), 0x202);
    assert_eq!(emu.cpu.get_v(0), 7);
    run(&mut emu, 2);
    assert_eq!(emu.cpu.get_v(1), 1);
    assert_eq!(emu.cpu.get_pc(), 0x204);
}

#[test]
fn cycle_return_on_empty_stack_is_refused() {
    let emu = machine_with(&[0x00EE]);
    assert!(!emu.can_cycle());
}

#[test]
fn cycle_call_on_full_stack_is_refused() {
    // a subroutine that calls itself fills the stack after sixteen calls
    let mut emu = machine_with(&[0x2200]);
    run(&mut emu, 16);
    assert!(!emu.can_cycle());
}

#[test]
fn cycle_skips() {
    // V0 = 3; skip if V0 == 3; V1 = 1 (skipped); skip if V0 != 3; V2 = 2
    let mut emu = machine_with(&[0x6003, 0x3003, 0x6101, 0x4003, 0x6202]);
    run(&mut emu, 4);
    assert_eq!(emu.cpu.get_v(1), 0);
    assert_eq!(emu.cpu.get_v(2), 2);
    // V0 = 1, V1 = 1: 5xy0 skips, 9xy0 does not
    let mut emu = machine_with(&[0x6001, 0x6101, 0x5010, 0x6A0A, 0x9010, 0x6B0B]);
    run(&mut emu, 5);
    assert_eq!(emu.cpu.get_v(0xA), 0);
    assert_eq!(emu.cpu.get_v(0xB), 0x0B);
}

#[test]
fn cycle_jump_with_offset() {
    let mut emu = machine_with(&[0x6004, 0xB300]);
    run(&mut emu, 2);
    assert_eq!(emu.cpu.get_pc(), 0x304);
}

#[test]
fn cycle_memory_ops() {
    // I = 0x300; V5 = 234; BCD of V5 at I
    let mut emu = machine_with(&[0xA300, 0x65EA, 0xF533]);
    run(&mut emu, 3);
    assert_eq!(emu.memory.read_bytes(0x300, 3), vec![2, 3, 4]);
    // LoadSprite: I points at the glyph of V0
    let mut emu = machine_with(&[0x600A, 0xF029]);
    run(&mut emu, 2);
    assert_eq!(emu.cpu.get_i(), 50);
    // AddI
    let mut emu = machine_with(&[0xA010, 0x6105, 0xF11E]);
    run(&mut emu, 3);
    assert_eq!(emu.cpu.get_i(), 0x15);
}

#[test]
fn cycle_store_and_read_registers() {
    // V0..V2 = 1, 2, 3; I = 0x400; store V0..V2; clear them; read them back
    let mut emu = machine_with(&[
        0x6001, 0x6102, 0x6203, 0xA400, 0xF255, 0x6000, 0x6100, 0x6200, 0xF165,
    ]);
    run(&mut emu, 5);
    assert_eq!(emu.memory.read_bytes(0x400, 4), vec![1, 2, 3, 0]);
    run(&mut emu, 4);
    assert_eq!(emu.cpu.get_v(0), 1);
    assert_eq!(emu.cpu.get_v(1), 2);
    assert_eq!(emu.cpu.get_v(2), 0);
}

#[test]
fn cycle_draw_font_digit_twice() {
    // V0 = 0 (digit, x, y); I = glyph 0; draw 5 rows at (0, 0); draw again
    let mut emu = machine_with(&[0x6000, 0xF029, 0xD005, 0xD005]);
    run(&mut emu, 3);
    assert_eq!(emu.cpu.get_v(0xF), 0);
    let frame = emu.render();
    // top row of the glyph 0 is 0xF0: four lit pixels
    assert_eq!(&frame[0..8], &[LIT, LIT, LIT, LIT, DARK, DARK, DARK, DARK]);
    assert_eq!(frame.iter().filter(|&&p| p == LIT).count(), 14);
    run(&mut emu, 1);
    assert_eq!(emu.cpu.get_v(0xF), 1);
    assert!(emu.render().iter().all(|&p| p == DARK));
}

#[test]
fn cycle_clear_screen() {
    let mut emu = machine_with(&[0x6000, 0xD005, 0x00E0]);
    run(&mut emu, 3);
    assert!(emu.render().iter().all(|&p| p == DARK));
}

#[test]
fn cycle_keys_and_wait() {
    // V0 = 5; skip if key V0 down; V1 = 1; wait for a key into V2
    let mut emu = machine_with(&[0x6005, 0xE09E, 0x6101, 0xF20A]);
    run(&mut emu, 3);
    assert_eq!(emu.cpu.get_v(1), 1);
    // no key: the wait stays in place
    run(&mut emu, 2);
    assert_eq!(emu.cpu.get_pc(), 0x206);
    emu.press_key(0xC);
    run(&mut emu, 1);
    assert_eq!(emu.cpu.get_v(2), 0xC);
    assert_eq!(emu.cpu.get_pc(), 0x208);

    let mut emu = machine_with(&[0x6005, 0xE09E, 0x6101]);
    emu.press_key(5);
    run(&mut emu, 3);
    assert_eq!(emu.cpu.get_v(1), 0);
    emu.release_key(5);
    let mut emu2 = machine_with(&[0x6005, 0xE0A1, 0x6101]);
    run(&mut emu2, 3);
    assert_eq!(emu2.cpu.get_v(1), 0);
}

#[test]
fn cycle_key_register_out_of_range_is_refused() {
    let emu_ops = [0x6010, 0xE09E];
    let mut emu = machine_with(&emu_ops);
    run(&mut emu, 1);
    assert!(!emu.can_cycle());
}

#[test]
fn cycle_timers() {
    let mut emu = machine_with(&[0x6003, 0xF015, 0xF018, 0xF107]);
    run(&mut emu, 3);
    emu.decrement_timers();
    run(&mut emu, 1);
    assert_eq!(emu.cpu.get_v(1), 2);
    assert_eq!(emu.cpu.timers.sound_timer, 2);
}

#[test]
fn cycle_unknown_opcode_moves_on() {
    let mut emu = machine_with(&[0x0123, 0x6001]);
    run(&mut emu, 2);
    assert_eq!(emu.cpu.get_pc(), 0x204);
    assert_eq!(emu.cpu.get_v(0), 1);
}

#[test]
fn random_byte_masked_and_varies() {
    let mut emu = create_emulator(Versions::CHIP8);
    let mut seen = std::collections::HashSet::new();
    for _ in 0..200 {
        assert!(emu.ex_data(DataOps::Rand { vx: 3, kk: 0x0F }));
        let v = emu.cpu.get_v(3);
        assert_eq!(v & 0xF0, 0);
        seen.insert(v);
    }
    assert!(seen.len() > 1);
    emu.ex_data_with_random(DataOps::Rand { vx: 4, kk: 0x3C }, 0xFF);
    assert_eq!(emu.cpu.get_v(4), 0x3C);
}

#[test]
fn emulator_keys_and_render() {
    let mut emu = Emulator::new(Versions::CHIP8);
    emu.press_key(1);
    assert!(emu.keypad.is_key_pressed(1));
    emu.release_key(1);
    assert!(!emu.keypad.is_key_pressed(1));
    assert_eq!(emu.render().len(), PIXELS);
    assert_eq!(emu.get_v_pair(0, 1), (0, 0));
}


#[test]
fn set_keys_follows_the_flags() {
    let mut emu = create_emulator(Versions::CHIP8);
    let mut down = [false; 16];
    down[3] = true;
    down[9] = true;
    emu.set_keys(down);
    for k in 0..16u8 {
        assert_eq!(emu.keypad.is_key_pressed(k), k == 3 || k == 9);
    }
    assert_eq!(emu.keypad.get_last_pressed_key(), 9);
    emu.set_keys([false; 16]);
    assert!(!emu.keypad.is_any_key_pressed());
    assert_eq!(emu.keypad.get_last_pressed_key(), 9);
}

#[test]
fn last_key_is_latest_press() {
    let mut k = Keypad::new();
    k.press_key(2);
    k.press_key(5);
    k.release_key(5);
    k.release_key(2);
    k.release_key(7);
    assert_eq!(k.get_last_pressed_key(), 5);
    k.press_key(1);
    assert_eq!(k.get_last_pressed_key(), 1);
}

#[test]
fn drawing_twice_collides_only_when_visible() {
    // the low four pixels of 0x0F fall past the right edge at column 60
    let mut d = Display::new();
    let c1 = d.drawing(&[0x0F], 60, 0);
    let c2 = d.drawing(&[0x0F], 60, 0);
    assert!(!(c1 || c2));
    // 0xF0 at column 60 lands on the screen: the second draw collides
    let mut d = Display::new();
    let c1 = d.drawing(&[0xF0], 60, 0);
    let c2 = d.drawing(&[0xF0], 60, 0);
    assert!(!c1 && c2);
    assert!(d.render().iter().all(|&p| p == DARK));
}

#[test]
fn non_random_data_always_runs() {
    let mut emu = create_emulator(Versions::CHIP8);
    assert!(emu.ex_data(DataOps::LoadImm { vx: 1, kk: 9 }));
    assert_eq!(emu.cpu.get_v(1), 9);
}

#[test]
fn run_frame_runs_ten_cycles_and_ticks() {
    // V0 += 1 ten times, with an unknown opcode in the middle; delay = 5 first
    let mut emu = machine_with(&[
        0x6005, 0xF015, 0x7001, 0x7001, 0x0123, 0x7001, 0x7001, 0x7001, 0x7001, 0x7001,
    ]);
    let mut down = [false; 16];
    down[4] = true;
    let (ran, unknown) = emu.run_frame(down);
    assert_eq!(ran, CYCLES_PER_FRAME);
    assert_eq!(unknown, vec![0x0123]);
    assert_eq!(emu.cpu.get_v(0), 5 + 7);
    assert_eq!(emu.cpu.get_dl_timer(), 4);
    assert!(emu.keypad.is_key_pressed(4));
    assert_eq!(emu.cpu.get_pc(), 0x200 + 2 * 10);
}

#[test]
fn run_frame_stops_at_a_refused_cycle() {
    // the third instruction returns with an empty stack
    let mut emu = machine_with(&[0x6001, 0x7001, 0x00EE]);
    let (ran, unknown) = emu.run_frame([false; 16]);
    assert_eq!(ran, 2);
    assert!(unknown.is_empty());
    assert_eq!(emu.cpu.get_v(0), 2);
    assert_eq!(emu.cpu.get_pc(), 0x204);
    assert!(!emu.can_cycle());
}
