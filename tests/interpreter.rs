use crab_chip::{trim_file_ext, Chip8, Error, Instruction, MAX_ROM_SIZE, PC_START_ADDRESS};

fn machine(rom: &[u8]) -> Chip8 {
    let mut chip8 = Chip8::new();
    chip8.initialize();
    chip8.load_game(rom).unwrap();
    chip8
}

fn run(chip8: &mut Chip8, cycles: usize) {
    for _ in 0..cycles {
        chip8.execute_cycle(0).unwrap();
    }
}

#[test]
fn new_machine_is_zeroed() {
    let chip8 = Chip8::new();
    assert!(chip8.memory().iter().all(|&b| b == 0));
    assert_eq!(chip8.registers(), [0u8; 16]);
    assert_eq!(chip8.program_counter(), 0);
    assert_eq!(chip8.index_register(), 0);
    assert_eq!(chip8.stack_depth(), 0);
    assert!(!chip8.draw_flag());
    assert!(chip8.video_memory().iter().all(|&c| c == 0));
}

#[test]
fn initialize_sets_start_address_and_fontset() {
    let mut chip8 = Chip8::new();
    chip8.initialize();
    assert_eq!(chip8.program_counter(), 0x200);
    assert_eq!(&chip8.memory()[0x50..0x55], &[0xF0, 0x90, 0x90, 0x90, 0xF0]);
    assert_eq!(&chip8.memory()[0x9B..0xA0], &[0xF0, 0x80, 0xF0, 0x80, 0x80]);
    assert_eq!(chip8.memory()[0x4F], 0);
    assert_eq!(chip8.memory()[0xA0], 0);
}

#[test]
fn loaded_rom_reads_back_from_start_address() {
    let rom: Vec<u8> = (0..300u32).map(|i| (i * 7 % 256) as u8).collect();
    let chip8 = machine(&rom);
    let start = PC_START_ADDRESS as usize;
    assert_eq!(&chip8.memory()[start..start + rom.len()], &rom[..]);
    assert_eq!(chip8.memory()[start + rom.len()], 0);
}

#[test]
fn largest_rom_fits_and_one_more_byte_is_refused() {
    let mut chip8 = Chip8::new();
    chip8.initialize();
    let rom = vec![0xAB; MAX_ROM_SIZE];
    assert_eq!(chip8.load_game(&rom), Ok(()));
    assert_eq!(chip8.memory()[4095], 0xAB);
    let mut fresh = Chip8::new();
    let too_big = vec![0xCD; MAX_ROM_SIZE + 1];
    assert_eq!(fresh.load_game(&too_big), Err(Error::RomTooLarge));
    assert!(fresh.memory().iter().all(|&b| b == 0));
}

#[test]
fn clear_screen_blanks_video_and_advances() {
    // Draw the glyph for 0, then clear twice.
    let mut chip8 = machine(&[0xA0, 0x50, 0xD0, 0x05, 0x00, 0xE0, 0x00, 0xE0]);
    run(&mut chip8, 2);
    assert!(chip8.video_memory().iter().any(|&c| c == 0xFF));
    run(&mut chip8, 1);
    assert!(chip8.video_memory().iter().all(|&c| c == 0));
    assert_eq!(chip8.program_counter(), 0x206);
    let regs = chip8.registers();
    run(&mut chip8, 1);
    assert!(chip8.video_memory().iter().all(|&c| c == 0));
    assert_eq!(chip8.program_counter(), 0x208);
    assert_eq!(chip8.registers(), regs);
}

#[test]
fn load_immediate_sets_register() {
    let mut chip8 = machine(&[0x6A, 0x05]);
    run(&mut chip8, 1);
    assert_eq!(chip8.registers()[0xA], 0x05);
    assert_eq!(chip8.program_counter(), 0x202);
}

#[test]
fn add_immediate_wraps_and_leaves_flag() {
    let mut chip8 = machine(&[0x6F, 0x42, 0x60, 0xFF, 0x70, 0x01]);
    run(&mut chip8, 3);
    assert_eq!(chip8.registers()[0], 0x00);
    assert_eq!(chip8.registers()[0xF], 0x42);
}

#[test]
fn add_registers_sets_carry() {
    let mut chip8 = machine(&[0x60, 0xFF, 0x61, 0x01, 0x80, 0x14]);
    run(&mut chip8, 3);
    assert_eq!(chip8.registers()[0], 0x00);
    assert_eq!(chip8.registers()[0xF], 1);
}

#[test]
fn add_registers_without_carry_clears_flag() {
    let mut chip8 = machine(&[0x6F, 0x07, 0x60, 0x10, 0x61, 0x20, 0x80, 0x14]);
    run(&mut chip8, 4);
    assert_eq!(chip8.registers()[0], 0x30);
    assert_eq!(chip8.registers()[0xF], 0);
}

#[test]
fn subtract_with_borrow_clears_flag() {
    let mut chip8 = machine(&[0x60, 0x01, 0x61, 0x02, 0x80, 0x15]);
    run(&mut chip8, 3);
    assert_eq!(chip8.registers()[0], 0xFF);
    assert_eq!(chip8.registers()[0xF], 0);
}

#[test]
fn subtract_without_borrow_sets_flag() {
    let mut chip8 = machine(&[0x60, 0x05, 0x61, 0x02, 0x80, 0x15]);
    run(&mut chip8, 3);
    assert_eq!(chip8.registers()[0], 0x03);
    assert_eq!(chip8.registers()[0xF], 1);
}

#[test]
fn reverse_subtract_and_shifts() {
    let mut chip8 = machine(&[
        0x60, 0x02, 0x61, 0x05, 0x80, 0x17, // V0 = 5 - 2
        0x62, 0x81, 0x82, 0x06, // V2 = 0x81 >> 1, VF = 1
        0x63, 0x81, 0x83, 0x0E, // V3 = 0x81 << 1, VF = 1
    ]);
    run(&mut chip8, 3);
    assert_eq!(chip8.registers()[0], 3);
    assert_eq!(chip8.registers()[0xF], 1);
    run(&mut chip8, 2);
    assert_eq!(chip8.registers()[2], 0x40);
    assert_eq!(chip8.registers()[0xF], 1);
    run(&mut chip8, 2);
    assert_eq!(chip8.registers()[3], 0x02);
    assert_eq!(chip8.registers()[0xF], 1);
}

#[test]
fn flag_wins_when_result_targets_vf() {
    let mut chip8 = machine(&[0x6F, 0xFF, 0x61, 0x01, 0x8F, 0x14]);
    run(&mut chip8, 3);
    assert_eq!(chip8.registers()[0xF], 1);
}

#[test]
fn bitwise_register_operations() {
    let mut chip8 = machine(&[
        0x60, 0x0C, 0x61, 0x0A, 0x82, 0x00, 0x82, 0x11, // V2 = V0 | V1
        0x83, 0x00, 0x83, 0x12, // V3 = V0 & V1
        0x84, 0x00, 0x84, 0x13, // V4 = V0 ^ V1
    ]);
    run(&mut chip8, 8);
    let v = chip8.registers();
    assert_eq!((v[2], v[3], v[4]), (0x0E, 0x08, 0x06));
}

#[test]
fn set_index_register() {
    let mut chip8 = machine(&[0xA1, 0x23]);
    run(&mut chip8, 1);
    assert_eq!(chip8.index_register(), 0x123);
}

#[test]
fn add_index_and_font_character() {
    let mut chip8 = machine(&[0xA1, 0x00, 0x60, 0x0A, 0xF0, 0x1E, 0xF0, 0x29]);
    run(&mut chip8, 3);
    assert_eq!(chip8.index_register(), 0x10A);
    run(&mut chip8, 1);
    assert_eq!(chip8.index_register(), 0x50 + 5 * 0x0A);
}

#[test]
fn store_decimal_digits() {
    let mut chip8 = machine(&[0x60, 157, 0xA3, 0x00, 0xF0, 0x33]);
    run(&mut chip8, 3);
    assert_eq!(&chip8.memory()[0x300..0x303], &[1, 5, 7]);
}

#[test]
fn store_and_load_register_block() {
    let mut chip8 = machine(&[
        0x60, 0x11, 0x61, 0x22, 0x62, 0x33, 0x63, 0x44, 0xA3, 0x00, 0xF2, 0x55, // store V0..=V2
        0x60, 0x00, 0x61, 0x00, 0x62, 0x00, 0xF1, 0x65, // load V0..=V1
    ]);
    run(&mut chip8, 6);
    assert_eq!(&chip8.memory()[0x300..0x304], &[0x11, 0x22, 0x33, 0x00]);
    run(&mut chip8, 4);
    let v = chip8.registers();
    assert_eq!((v[0], v[1], v[2], v[3]), (0x11, 0x22, 0x00, 0x44));
}

#[test]
fn skips_compare_registers_and_immediates() {
    let mut chip8 = machine(&[0x60, 0x05, 0x30, 0x05]);
    run(&mut chip8, 2);
    assert_eq!(chip8.program_counter(), 0x206);
    let mut chip8 = machine(&[0x60, 0x05, 0x40, 0x05]);
    run(&mut chip8, 2);
    assert_eq!(chip8.program_counter(), 0x204);
    let mut chip8 = machine(&[0x60, 0x05, 0x61, 0x05, 0x50, 0x10]);
    run(&mut chip8, 3);
    assert_eq!(chip8.program_counter(), 0x208);
    let mut chip8 = machine(&[0x60, 0x05, 0x61, 0x05, 0x90, 0x10]);
    run(&mut chip8, 3);
    assert_eq!(chip8.program_counter(), 0x206);
}

#[test]
fn jumps() {
    let mut chip8 = machine(&[0x13, 0x00]);
    run(&mut chip8, 1);
    assert_eq!(chip8.program_counter(), 0x300);
    let mut chip8 = machine(&[0x60, 0x10, 0xB3, 0x00]);
    run(&mut chip8, 2);
    assert_eq!(chip8.program_counter(), 0x310);
}

#[test]
fn call_pushes_and_return_pops() {
    let mut chip8 = machine(&[0x22, 0x04, 0x00, 0x00, 0x00, 0xEE]);
    run(&mut chip8, 1);
    assert_eq!(chip8.program_counter(), 0x204);
    assert_eq!(chip8.stack_depth(), 1);
    run(&mut chip8, 1);
    assert_eq!(chip8.program_counter(), 0x200);
    assert_eq!(chip8.stack_depth(), 0);
}

#[test]
fn return_with_empty_stack_underflows() {
    let mut chip8 = machine(&[0x00, 0xEE]);
    assert_eq!(chip8.execute_cycle(0), Err(Error::StackUnderflow));
    assert_eq!(chip8.program_counter(), 0x200);
}

#[test]
fn seventeenth_nested_call_overflows() {
    let mut chip8 = machine(&[0x22, 0x00]);
    run(&mut chip8, 16);
    assert_eq!(chip8.stack_depth(), 16);
    assert_eq!(chip8.execute_cycle(0), Err(Error::StackOverflow));
    assert_eq!(chip8.stack_depth(), 16);
    assert_eq!(chip8.program_counter(), 0x200);
}

#[test]
fn unknown_opcode_stops_the_cycle() {
    let mut chip8 = machine(&[0x01, 0x23]);
    assert_eq!(chip8.execute_cycle(0), Err(Error::UnknownOpcode(0x0123)));
    assert_eq!(chip8.program_counter(), 0x200);
    let mut chip8 = machine(&[0x8A, 0xB9]);
    assert_eq!(chip8.emulate_cycle(), Err(Error::UnknownOpcode(0x8AB9)));
}

#[test]
fn random_byte_is_masked() {
    let mut chip8 = machine(&[0xC3, 0x0F]);
    chip8.execute_cycle(0xAB).unwrap();
    assert_eq!(chip8.registers()[3], 0x0B);
    let mut chip8 = machine(&[0xC3, 0x00]);
    chip8.emulate_cycle().unwrap();
    assert_eq!(chip8.registers()[3], 0x00);
    let mut chip8 = machine(&[0xC3, 0xF0]);
    chip8.emulate_cycle().unwrap();
    assert_eq!(chip8.registers()[3] & 0x0F, 0x00);
}

#[test]
fn draw_instruction_sets_and_clears_with_collision_flag() {
    let mut chip8 = machine(&[0x60, 0x00, 0x61, 0x00, 0xA2, 0x0A, 0xD0, 0x11, 0xD0, 0x11, 0xFF]);
    run(&mut chip8, 4);
    assert!(chip8.video_memory()[..8].iter().all(|&c| c == 0xFF));
    assert!(chip8.video_memory()[8..].iter().all(|&c| c == 0));
    assert_eq!(chip8.registers()[0xF], 0);
    assert!(chip8.draw_flag());
    chip8.clear_draw_flag();
    run(&mut chip8, 1);
    assert!(chip8.video_memory().iter().all(|&c| c == 0));
    assert_eq!(chip8.registers()[0xF], 1);
    assert!(chip8.draw_flag());
}

#[test]
fn key_skips_follow_the_keypad() {
    let mut keys = vec![false; 16];
    keys[5] = true;
    let mut chip8 = machine(&[0x60, 0x05, 0xE0, 0x9E]);
    chip8.set_keys(keys.clone());
    run(&mut chip8, 2);
    assert_eq!(chip8.program_counter(), 0x206);
    let mut chip8 = machine(&[0x60, 0x05, 0xE0, 0xA1]);
    chip8.set_keys(keys);
    run(&mut chip8, 2);
    assert_eq!(chip8.program_counter(), 0x204);
    let mut chip8 = machine(&[0x60, 0x20, 0xE0, 0xA1]);
    run(&mut chip8, 2);
    assert_eq!(chip8.program_counter(), 0x206);
}

#[test]
fn wait_for_key_repeats_until_a_key_is_held() {
    let mut chip8 = machine(&[0xF4, 0x0A]);
    run(&mut chip8, 3);
    assert_eq!(chip8.program_counter(), 0x200);
    let mut keys = vec![false; 16];
    keys[0xF] = true;
    chip8.set_keys(keys.clone());
    run(&mut chip8, 1);
    assert_eq!(chip8.program_counter(), 0x200);
    keys[3] = true;
    keys[9] = true;
    chip8.set_keys(keys);
    run(&mut chip8, 1);
    assert_eq!(chip8.program_counter(), 0x202);
    assert_eq!(chip8.registers()[4], 9);
}

#[test]
fn set_keys_with_short_snapshot_keeps_the_rest() {
    let mut chip8 = Chip8::new();
    chip8.set_keys(vec![true; 16]);
    chip8.set_keys(vec![false, false]);
    assert_eq!(chip8.pressed_keys(), (2..16).collect::<Vec<u8>>());
}

#[test]
fn delay_timer_drops_once_every_ten_cycles_at_600_hz() {
    // V0 = 5, delay = V0, then spin on a jump to itself.
    let mut chip8 = machine(&[0x60, 0x05, 0xF0, 0x15, 0x12, 0x04]);
    run(&mut chip8, 9);
    assert_eq!(chip8.delay_timer(), 5);
    run(&mut chip8, 1);
    assert_eq!(chip8.delay_timer(), 4);
    run(&mut chip8, 9);
    assert_eq!(chip8.delay_timer(), 4);
    run(&mut chip8, 1);
    assert_eq!(chip8.delay_timer(), 3);
}

#[test]
fn delay_timer_reads_into_register() {
    let mut chip8 = machine(&[0x60, 0x09, 0xF0, 0x15, 0xF1, 0x07]);
    run(&mut chip8, 3);
    assert_eq!(chip8.registers()[1], 9);
}

#[test]
fn sound_request_is_taken_once() {
    let mut chip8 = Chip8::with_clock_rate(60);
    chip8.initialize();
    chip8.load_game(&[0x60, 0x02, 0xF0, 0x18, 0x12, 0x04]).unwrap();
    run(&mut chip8, 2);
    assert_eq!(chip8.sound_timer(), 1);
    assert!(!chip8.take_sound_request());
    run(&mut chip8, 1);
    assert_eq!(chip8.sound_timer(), 0);
    assert!(chip8.take_sound_request());
    assert!(!chip8.take_sound_request());
}

#[test]
fn execute_runs_a_decoded_instruction() {
    let mut chip8 = machine(&[]);
    chip8.execute(Instruction::Load { x: 7, nn: 0x99 }, 0).unwrap();
    assert_eq!(chip8.registers()[7], 0x99);
    assert_eq!(chip8.program_counter(), 0x202);
    assert_eq!(chip8.execute(Instruction::Return, 0), Err(Error::StackUnderflow));
}

#[test]
fn trims_directory_and_extension() {
    assert_eq!(trim_file_ext("roms/pong.ch8"), "pong");
    assert_eq!(trim_file_ext("tetris"), "tetris");
}
