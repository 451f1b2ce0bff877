use chip8::cpu::Cpu;
use chip8::machine::Fault;
use chip8::rom_loader::{RomError, RomLoader};

const NO_KEYS: [bool; 16] = [false; 16];

fn words(program: &[u16]) -> Vec<u8> {
    let mut bytes = Vec::new();
    for w in program {
        bytes.push((w >> 8) as u8);
        bytes.push((w & 0xFF) as u8);
    }
    bytes
}

fn boot(program: &[u16]) -> Cpu {
    boot_bytes(&words(program))
}

fn boot_bytes(bytes: &[u8]) -> Cpu {
    let rom = RomLoader::new(bytes).unwrap();
    let mut cpu = Cpu::new();
    cpu.load_program(&rom);
    cpu
}

fn run(cpu: &mut Cpu, cycles: usize) {
    for _ in 0..cycles {
        assert!(cpu.run_cycle(NO_KEYS, 0).is_ok());
    }
}

#[test]
fn add_immediate_wraps_with_carry() {
    let mut cpu = boot(&[0x6AFA, 0x7A0A]);
    run(&mut cpu, 2);
    assert_eq!(cpu.get_register(0xA), 4);
    assert_eq!(cpu.get_register(0xF), 1);

    let mut cpu = boot(&[0x630A, 0x730A]);
    run(&mut cpu, 2);
    assert_eq!(cpu.get_register(3), 20);
    assert_eq!(cpu.get_register(0xF), 0);
}

#[test]
fn subtract_sets_no_borrow_flag() {
    let mut cpu = boot(&[0x6A05, 0x6B0A, 0x8AB5]);
    run(&mut cpu, 3);
    assert_eq!(cpu.get_register(0xA), 251);
    assert_eq!(cpu.get_register(0xF), 0);

    let mut cpu = boot(&[0x6A0A, 0x6B05, 0x8AB5]);
    run(&mut cpu, 3);
    assert_eq!(cpu.get_register(0xA), 5);
    assert_eq!(cpu.get_register(0xF), 1);
}

#[test]
fn clear_screen_darkens_display_and_flags_redraw_once() {
    // draw glyph 0, clear, then a plain register write
    let mut cpu = boot(&[0x6000, 0xF029, 0xD005, 0x00E0, 0x6101]);
    run(&mut cpu, 3);
    assert!(cpu.get_display().display.iter().any(|&p| p == 1));
    run(&mut cpu, 1);
    assert!(cpu.get_draw_flag());
    assert!(cpu.get_display().display.iter().all(|&p| p == 0));
    run(&mut cpu, 1);
    assert!(!cpu.get_draw_flag());
}

#[test]
fn sprite_wraps_around_right_edge_and_collides_on_redraw() {
    // VA = 60, VB = 0, I = 0x20A, draw twice; the sprite byte 0xFF sits at 0x20A
    let mut bytes = words(&[0x6A3C, 0x6B00, 0xA20A, 0xDAB1, 0xDAB1]);
    bytes.push(0xFF);
    let mut cpu = boot_bytes(&bytes);
    run(&mut cpu, 4);
    let d = cpu.get_display();
    for x in 60..64 {
        assert_eq!(d.pixel(x, 0), 1);
    }
    for x in 0..4 {
        assert_eq!(d.pixel(x, 0), 1);
    }
    assert_eq!(d.pixel(4, 0), 0);
    assert_eq!(d.pixel(59, 0), 0);
    assert_eq!(d.display.iter().filter(|&&p| p == 1).count(), 8);
    assert_eq!(cpu.get_register(0xF), 0);
    assert!(cpu.get_draw_flag());

    run(&mut cpu, 1);
    assert_eq!(cpu.get_register(0xF), 1);
    assert!(cpu.get_display().display.iter().all(|&p| p == 0));
}

#[test]
fn call_then_return_resumes_after_call() {
    // 0x200: call 0x206; 0x206: return
    let mut cpu = boot(&[0x2206, 0x0000, 0x0000, 0x00EE]);
    run(&mut cpu, 1);
    assert_eq!(cpu.get_pc(), 0x206);
    assert_eq!(cpu.get_stack_pointer(), 1);
    run(&mut cpu, 1);
    assert_eq!(cpu.get_pc(), 0x202);
    assert_eq!(cpu.get_stack_pointer(), 0);
}

#[test]
fn delay_timer_set_to_one_reads_zero_next_cycle() {
    let mut cpu = boot(&[0x6A01, 0xFA15, 0xFB07]);
    run(&mut cpu, 2);
    assert_eq!(cpu.get_delay_timer(), 0);
    cpu.run_cycle(NO_KEYS, 0).unwrap();
    assert_eq!(cpu.get_register(0xB), 0);
}

#[test]
fn sound_timer_signals_expiry_once() {
    let mut cpu = boot(&[0x6A01, 0xFA18, 0x6000, 0x6000, 0x6000]);
    assert_eq!(cpu.run_cycle(NO_KEYS, 0), Ok(false));
    assert_eq!(cpu.run_cycle(NO_KEYS, 0), Ok(true));
    assert_eq!(cpu.get_sound_timer(), 0);
    for _ in 0..3 {
        assert_eq!(cpu.run_cycle(NO_KEYS, 0), Ok(false));
        assert_eq!(cpu.get_sound_timer(), 0);
    }
}

#[test]
fn wait_for_key_holds_until_pressed() {
    let mut cpu = boot(&[0x6533, 0xF50A]);
    run(&mut cpu, 1);
    for _ in 0..3 {
        run(&mut cpu, 1);
        assert_eq!(cpu.get_pc(), 0x202);
        assert_eq!(cpu.get_register(5), 0x33);
    }
    let mut keys = NO_KEYS;
    keys[9] = true;
    keys[7] = true;
    cpu.run_cycle(keys, 0).unwrap();
    assert_eq!(cpu.get_pc(), 0x204);
    assert_eq!(cpu.get_register(5), 7);
}

#[test]
fn store_and_load_registers_round_trip() {
    let mut cpu = boot(&[
        0x6011, 0x6122, 0x6233, 0x6344, 0xA300, 0xF355, 0x6000, 0x6100, 0x6200, 0x6300, 0xF365,
    ]);
    run(&mut cpu, 6);
    assert_eq!(cpu.read_memory(0x300), 0x11);
    assert_eq!(cpu.read_memory(0x303), 0x44);
    assert_eq!(cpu.read_memory(0x304), 0);
    run(&mut cpu, 4);
    assert_eq!(cpu.get_register(2), 0);
    run(&mut cpu, 1);
    assert_eq!(cpu.get_register(0), 0x11);
    assert_eq!(cpu.get_register(1), 0x22);
    assert_eq!(cpu.get_register(2), 0x33);
    assert_eq!(cpu.get_register(3), 0x44);
    assert_eq!(cpu.get_index(), 0x300);
}

#[test]
fn unknown_opcode_is_a_fault_and_keeps_state() {
    let mut cpu = boot(&[0x6A07, 0x5AB1]);
    run(&mut cpu, 1);
    assert_eq!(cpu.run_cycle(NO_KEYS, 0), Err(Fault::InvalidOpcode(0x5AB1)));
    assert_eq!(cpu.get_pc(), 0x202);
    assert_eq!(cpu.get_register(0xA), 7);
    let mut fresh = Cpu::new();
    assert_eq!(fresh.run_cycle(NO_KEYS, 0), Err(Fault::InvalidOpcode(0x0000)));
}

#[test]
fn return_with_empty_stack_underflows() {
    let mut cpu = boot(&[0x00EE]);
    assert_eq!(cpu.run_cycle(NO_KEYS, 0), Err(Fault::StackUnderflow));
    assert_eq!(cpu.get_pc(), 0x200);
}

#[test]
fn seventeenth_nested_call_overflows() {
    let mut cpu = boot(&[0x2200]);
    run(&mut cpu, 16);
    assert_eq!(cpu.get_stack_pointer(), 16);
    assert_eq!(cpu.run_cycle(NO_KEYS, 0), Err(Fault::StackOverflow));
    assert_eq!(cpu.get_stack_pointer(), 16);
}

#[test]
fn operands_past_end_of_memory_fault() {
    let mut cpu = boot(&[0xAFFF, 0xF233]);
    run(&mut cpu, 1);
    assert_eq!(cpu.run_cycle(NO_KEYS, 0), Err(Fault::MemoryOutOfRange));

    // V0..V1 at 0xFFE..0xFFF still fit; V0..V2 do not
    let mut cpu = boot(&[0xAFFE, 0xF155]);
    run(&mut cpu, 1);
    assert_eq!(cpu.run_cycle(NO_KEYS, 0), Ok(false));
    let mut cpu = boot(&[0xAFFE, 0xF255]);
    run(&mut cpu, 1);
    assert_eq!(cpu.run_cycle(NO_KEYS, 0), Err(Fault::MemoryOutOfRange));

    let mut cpu = boot(&[0xAFFE, 0xF265]);
    run(&mut cpu, 1);
    assert_eq!(cpu.run_cycle(NO_KEYS, 0), Err(Fault::MemoryOutOfRange));

    let mut cpu = boot(&[0xAFFE, 0xD003]);
    run(&mut cpu, 1);
    assert_eq!(cpu.run_cycle(NO_KEYS, 0), Err(Fault::MemoryOutOfRange));

    let mut cpu = boot(&[0x1FFF]);
    run(&mut cpu, 1);
    assert_eq!(cpu.get_pc(), 0xFFF);
    assert_eq!(cpu.run_cycle(NO_KEYS, 0), Err(Fault::MemoryOutOfRange));
}

#[test]
fn key_above_f_is_a_fault() {
    let mut cpu = boot(&[0x60FF, 0xE09E]);
    run(&mut cpu, 1);
    assert_eq!(cpu.run_cycle(NO_KEYS, 0), Err(Fault::InvalidKey(0xFF)));
}

#[test]
fn key_skips_follow_keypad() {
    let mut keys = NO_KEYS;
    keys[4] = true;
    let mut cpu = boot(&[0x6004, 0xE09E, 0x0000, 0xE0A1]);
    run(&mut cpu, 1);
    cpu.run_cycle(keys, 0).unwrap();
    assert_eq!(cpu.get_pc(), 0x206);
    cpu.run_cycle(keys, 0).unwrap();
    assert_eq!(cpu.get_pc(), 0x208);

    let mut cpu = boot(&[0x6004, 0xE0A1]);
    run(&mut cpu, 2);
    assert_eq!(cpu.get_pc(), 0x206);
}

#[test]
fn comparisons_skip_when_they_hold() {
    let mut cpu = boot(&[0x6A05, 0x3A05]);
    run(&mut cpu, 2);
    assert_eq!(cpu.get_pc(), 0x206);
    let mut cpu = boot(&[0x6A05, 0x3A06]);
    run(&mut cpu, 2);
    assert_eq!(cpu.get_pc(), 0x204);
    let mut cpu = boot(&[0x6A05, 0x4A06]);
    run(&mut cpu, 2);
    assert_eq!(cpu.get_pc(), 0x206);
    let mut cpu = boot(&[0x6A05, 0x6B05, 0x5AB0]);
    run(&mut cpu, 3);
    assert_eq!(cpu.get_pc(), 0x208);
    let mut cpu = boot(&[0x6A05, 0x6B05, 0x9AB0]);
    run(&mut cpu, 3);
    assert_eq!(cpu.get_pc(), 0x206);
}

#[test]
fn bitwise_and_arithmetic_register_operations() {
    let mut cpu = boot(&[0x6A0C, 0x6B0A, 0x8AB1]);
    run(&mut cpu, 3);
    assert_eq!(cpu.get_register(0xA), 0x0E);
    let mut cpu = boot(&[0x6A0C, 0x6B0A, 0x8AB2]);
    run(&mut cpu, 3);
    assert_eq!(cpu.get_register(0xA), 0x08);
    let mut cpu = boot(&[0x6A0C, 0x6B0A, 0x8AB3]);
    run(&mut cpu, 3);
    assert_eq!(cpu.get_register(0xA), 0x06);
    let mut cpu = boot(&[0x6B0A, 0x8AB0]);
    run(&mut cpu, 2);
    assert_eq!(cpu.get_register(0xA), 0x0A);

    let mut cpu = boot(&[0x6AC8, 0x6B64, 0x8AB4]);
    run(&mut cpu, 3);
    assert_eq!(cpu.get_register(0xA), 44);
    assert_eq!(cpu.get_register(0xF), 1);
    let mut cpu = boot(&[0x6A01, 0x6B02, 0x8AB4]);
    run(&mut cpu, 3);
    assert_eq!(cpu.get_register(0xA), 3);
    assert_eq!(cpu.get_register(0xF), 0);

    let mut cpu = boot(&[0x6A05, 0x6B0A, 0x8AB7]);
    run(&mut cpu, 3);
    assert_eq!(cpu.get_register(0xA), 5);
    assert_eq!(cpu.get_register(0xF), 1);
    let mut cpu = boot(&[0x6A0A, 0x6B05, 0x8AB7]);
    run(&mut cpu, 3);
    assert_eq!(cpu.get_register(0xA), 251);
    assert_eq!(cpu.get_register(0xF), 0);

    // equal operands: no borrow is not "greater", so VF is 0
    let mut cpu = boot(&[0x6A07, 0x6B07, 0x8AB5]);
    run(&mut cpu, 3);
    assert_eq!(cpu.get_register(0xA), 0);
    assert_eq!(cpu.get_register(0xF), 0);
}

#[test]
fn shifts_move_the_outgoing_bit_into_vf() {
    let mut cpu = boot(&[0x6A81, 0x8A06]);
    run(&mut cpu, 2);
    assert_eq!(cpu.get_register(0xA), 0x40);
    assert_eq!(cpu.get_register(0xF), 1);
    let mut cpu = boot(&[0x6A80, 0x8A06]);
    run(&mut cpu, 2);
    assert_eq!(cpu.get_register(0xA), 0x40);
    assert_eq!(cpu.get_register(0xF), 0);
    let mut cpu = boot(&[0x6A81, 0x8A0E]);
    run(&mut cpu, 2);
    assert_eq!(cpu.get_register(0xA), 0x02);
    assert_eq!(cpu.get_register(0xF), 1);
    let mut cpu = boot(&[0x6A41, 0x8A0E]);
    run(&mut cpu, 2);
    assert_eq!(cpu.get_register(0xA), 0x82);
    assert_eq!(cpu.get_register(0xF), 0);
}

#[test]
fn flag_write_comes_before_result_when_x_is_vf() {
    let mut cpu = boot(&[0x6FFA, 0x7F0A]);
    run(&mut cpu, 2);
    assert_eq!(cpu.get_register(0xF), 4);
}

#[test]
fn jumps_and_index_operations() {
    let mut cpu = boot(&[0x1234]);
    run(&mut cpu, 1);
    assert_eq!(cpu.get_pc(), 0x234);

    let mut cpu = boot(&[0x6005, 0xB300]);
    run(&mut cpu, 2);
    assert_eq!(cpu.get_pc(), 0x305);

    let mut cpu = boot(&[0xA123, 0x6A10, 0xFA1E]);
    run(&mut cpu, 3);
    assert_eq!(cpu.get_index(), 0x133);

    let mut cpu = boot(&[0x6A0A, 0xFA29]);
    run(&mut cpu, 2);
    assert_eq!(cpu.get_index(), 50);
}

#[test]
fn bcd_stores_three_decimal_digits() {
    let mut cpu = boot(&[0x6A9C, 0xA300, 0xFA33]);
    run(&mut cpu, 3);
    assert_eq!(cpu.read_memory(0x300), 1);
    assert_eq!(cpu.read_memory(0x301), 5);
    assert_eq!(cpu.read_memory(0x302), 6);
}

#[test]
fn random_byte_is_masked_by_kk() {
    let mut cpu = boot(&[0xCA0F]);
    cpu.run_cycle(NO_KEYS, 0xAB).unwrap();
    assert_eq!(cpu.get_register(0xA), 0x0B);

    let mut cpu = boot(&[0xCA00]);
    cpu.emulate_cycle(NO_KEYS).unwrap();
    assert_eq!(cpu.get_register(0xA), 0);
}

#[test]
fn emulated_random_bytes_stay_below_255() {
    let program = vec![0xC0FF; 200];
    let mut cpu = boot(&program);
    let mut seen_nonzero = false;
    for _ in 0..200 {
        cpu.emulate_cycle(NO_KEYS).unwrap();
        assert!(cpu.get_register(0) < 255);
        seen_nonzero |= cpu.get_register(0) != 0;
    }
    assert!(seen_nonzero);
}

#[test]
fn new_cpu_holds_glyphs_and_starts_at_load_address() {
    let cpu = Cpu::new();
    assert_eq!(cpu.get_pc(), 0x200);
    assert_eq!(cpu.get_index(), 0x200);
    assert_eq!(cpu.get_stack_pointer(), 0);
    assert!(!cpu.get_draw_flag());
    let glyph_zero = [0xF0, 0x90, 0x90, 0x90, 0xF0];
    for (k, b) in glyph_zero.iter().enumerate() {
        assert_eq!(cpu.read_memory(k), *b);
    }
    assert_eq!(cpu.read_memory(75), 0xF0);
    assert_eq!(cpu.read_memory(79), 0x80);
    assert_eq!(cpu.read_memory(80), 0);
    for x in 0..16 {
        assert_eq!(cpu.get_register(x), 0);
    }
}

#[test]
fn get_input_reports_lowest_pressed_key() {
    let mut cpu = Cpu::new();
    assert_eq!(cpu.get_input(NO_KEYS), None);
    let mut keys = NO_KEYS;
    keys[0xC] = true;
    keys[0x3] = true;
    assert_eq!(cpu.get_input(keys), Some(3));
}

#[test]
fn timers_count_down_and_stop_at_zero() {
    let mut cpu = boot(&[0x6A02, 0xFA15, 0xFA18]);
    run(&mut cpu, 3);
    assert_eq!(cpu.get_delay_timer(), 0);
    assert_eq!(cpu.get_sound_timer(), 1);
    assert!(cpu.update_timer());
    assert_eq!(cpu.get_sound_timer(), 0);
    assert!(!cpu.update_timer());
    assert_eq!(cpu.get_delay_timer(), 0);
    assert_eq!(cpu.get_sound_timer(), 0);
}

#[test]
fn decode_opcode_runs_one_instruction() {
    let mut cpu = Cpu::new();
    assert_eq!(cpu.decode_opcode(0x6A2A, 0), Ok(()));
    assert_eq!(cpu.get_register(0xA), 0x2A);
    assert_eq!(cpu.get_pc(), 0x202);
    assert_eq!(cpu.decode_opcode(0xF0FF, 0), Err(Fault::InvalidOpcode(0xF0FF)));
    assert_eq!(cpu.get_pc(), 0x202);
}

#[test]
fn rom_loader_accepts_up_to_the_memory_left() {
    let rom = RomLoader::new(&[1, 2, 3]).unwrap();
    assert_eq!(rom.get_length(), 3);
    let data = rom.get_data();
    assert_eq!(&data[..4], &[1, 2, 3, 0]);

    let full = vec![7u8; 3584];
    let rom = RomLoader::new(&full).unwrap();
    assert_eq!(rom.get_length(), 3584);
    let mut cpu = Cpu::new();
    cpu.load_program(&rom);
    assert_eq!(cpu.read_memory(0x1FF), 0);
    assert_eq!(cpu.read_memory(0x200), 7);
    assert_eq!(cpu.read_memory(4095), 7);

    let too_long = vec![0u8; 3585];
    assert_eq!(RomLoader::new(&too_long).err(), Some(RomError::TooLarge(3585)));

    let empty = RomLoader::new(&[]).unwrap();
    assert_eq!(empty.get_length(), 0);
}

#[test]
fn display_pixels_are_row_major() {
    // glyph 1 at (2, 3): its first row 0x20 lights column 2 + 2 = 4 on row 3
    let mut cpu = boot(&[0x6001, 0xF029, 0x6102, 0x6203, 0xD121]);
    run(&mut cpu, 5);
    let d = cpu.get_display();
    assert_eq!(d.pixel(4, 3), 1);
    assert_eq!(d.display[3 * 64 + 4], 1);
    assert_eq!(d.display.iter().filter(|&&p| p == 1).count(), 1);
}
