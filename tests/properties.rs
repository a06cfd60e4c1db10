use patata::chip8::{Chip8, Chip8Error, MAX_ROM_SIZE_BYTES};
use patata::video::{DrawCoords, Video};
use patata::{Chip8Runner, RunnerEvent};

fn machine_with(program: &[u8]) -> Chip8 {
    let mut c = Chip8::default();
    c.load_rom(program).unwrap();
    c
}

fn run_one(a: u8, b: u8, op_lo: u8) -> (u8, u8) {
    let mut c = machine_with(&[0x80, op_lo]);
    c.registers[0] = a;
    c.registers[1] = b;
    c.step(0).unwrap();
    (c.registers[0], c.registers[15])
}

#[test]
fn arithmetic_flags_on_all_pairs() {
    for a in 0..=255u8 {
        for b in (0..=255u8).step_by(17) {
            let sum = a as u16 + b as u16;
            assert_eq!((sum as u8, (sum > 255) as u8), run_one(a, b, 0x14));
            assert_eq!((a.wrapping_sub(b), (a >= b) as u8), run_one(a, b, 0x15));
            assert_eq!((b.wrapping_sub(a), (b >= a) as u8), run_one(a, b, 0x17));
            assert_eq!((a >> 1, a & 1), run_one(a, b, 0x16));
            assert_eq!((a << 1, a >> 7), run_one(a, b, 0x1E));
        }
    }
}

#[test]
fn add_writes_flag_after_result() {
    let mut c = machine_with(&[0x8F, 0x04]);
    c.registers[15] = 200;
    c.registers[0] = 100;
    c.step(0).unwrap();
    assert_eq!(1, c.registers[15]);
}

#[test]
fn same_sprite_twice_clears_and_collides() {
    let mut video = Video::default();
    let coords = DrawCoords::new(10, 7);
    let sprite = [0x3C, 0x42, 0x81];
    assert!(!video.draw(&sprite, &coords));
    assert_eq!(8, video.buffer.iter().filter(|&&p| p == 0xFF).count());
    assert!(video.draw(&sprite, &coords));
    assert!(video.buffer.iter().all(|&p| p == 0));
}

#[test]
fn disjoint_sprites_do_not_collide() {
    let mut video = Video::default();
    assert!(!video.draw(&[0xF0, 0xF0], &DrawCoords::new(0, 0)));
    assert!(!video.draw(&[0x0F, 0x0F], &DrawCoords::new(0, 0)));
    assert!(!video.draw(&[0xFF], &DrawCoords::new(0, 2)));
    assert_eq!(24, video.buffer.iter().filter(|&&p| p == 0xFF).count());
}

#[test]
fn sixteen_calls_fill_the_stack() {
    let mut c = machine_with(&[0x22, 0x00]);
    for depth in 1..=16u8 {
        c.step(0).unwrap();
        assert_eq!(depth, c.stack_pointer);
        assert_eq!(0x200, c.program_counter);
    }
    assert_eq!([0x202u16; 16], c.stack);
    assert_eq!(Err(Chip8Error::StackOverflow(0x2200)), c.step(0));
    assert_eq!(16, c.stack_pointer);
}

#[test]
fn return_on_empty_stack_underflows() {
    let mut c = machine_with(&[0x00, 0xEE]);
    assert_eq!(Err(Chip8Error::StackUnderflow(0x00EE)), c.step(0));
    assert_eq!(0x200, c.program_counter);
    assert_eq!(0, c.stack_pointer);
}

#[test]
fn call_then_return() {
    let mut c = machine_with(&[0x22, 0x04, 0x00, 0x00, 0x00, 0xEE]);
    c.step(0).unwrap();
    assert_eq!(0x204, c.program_counter);
    c.step(0).unwrap();
    assert_eq!(0x202, c.program_counter);
    assert_eq!(0, c.stack_pointer);
}

#[test]
fn key_wait_spins_until_a_key_is_down() {
    let mut c = machine_with(&[0xF5, 0x0A]);
    for _ in 0..5 {
        c.step(0).unwrap();
        assert_eq!(0x200, c.program_counter);
        assert_eq!(0, c.registers[5]);
    }
    c.keypad.set_key(9, true);
    c.keypad.set_key(3, true);
    c.step(0).unwrap();
    assert_eq!(0x202, c.program_counter);
    assert_eq!(3, c.registers[5]);
}

#[test]
fn clear_screen_program() {
    let mut c = machine_with(&[0x00, 0xE0]);
    c.display.buffer[0] = 0xFF;
    c.display.buffer[2047] = 0xFF;
    c.display.buffer[100] = 0x12;
    c.step(0).unwrap();
    assert!(c.display.buffer.iter().all(|&p| p == 0));
    assert_eq!(0x202, c.program_counter);
}

#[test]
fn load_then_add_program() {
    let mut c = machine_with(&[0x61, 0x05, 0x71, 0x03]);
    c.step(0).unwrap();
    c.step(0).unwrap();
    assert_eq!(8, c.registers[1]);
    assert_eq!(0, c.registers[15]);
}

#[test]
fn rom_size_limits() {
    let mut c = Chip8::default();
    assert!(c.load_rom(&[7u8; MAX_ROM_SIZE_BYTES]).is_ok());
    assert_eq!(7, c.memory[4095]);
    let mut d = Chip8::default();
    let before = d.memory;
    assert_eq!(
        Err(Chip8Error::InvalidRomLength(MAX_ROM_SIZE_BYTES + 1)),
        d.load_rom(&[7u8; MAX_ROM_SIZE_BYTES + 1])
    );
    assert_eq!(Err(Chip8Error::InvalidRomLength(0)), d.load_rom(&[]));
    assert_eq!(before, d.memory);
}

#[test]
fn timers_tick_once_per_step() {
    let mut c = machine_with(&[0x60, 0x03, 0xF0, 0x15, 0xF0, 0x18, 0x12, 0x06]);
    c.step(0).unwrap();
    c.step(0).unwrap();
    assert_eq!(2, c.delay_timer.cur_count());
    c.step(0).unwrap();
    assert_eq!(1, c.delay_timer.cur_count());
    assert_eq!(2, c.sound_timer.cur_count());
    for _ in 0..4 {
        c.step(0).unwrap();
    }
    assert_eq!(0, c.delay_timer.cur_count());
    assert_eq!(0, c.sound_timer.cur_count());
}

#[test]
fn random_byte_is_masked() {
    let mut c = machine_with(&[0xC2, 0x0F]);
    c.step(0xAB).unwrap();
    assert_eq!(0x0B, c.registers[2]);
    let mut d = machine_with(&[0xC2, 0x00]);
    d.tick().unwrap();
    assert_eq!(0, d.registers[2]);
    assert_eq!(0x202, d.program_counter);
}

#[test]
fn draw_instruction_sets_flag() {
    let mut c = machine_with(&[0xF0, 0x29, 0xD1, 0x25, 0xD1, 0x25]);
    c.registers[0] = 0xA;
    c.registers[1] = 70;
    c.registers[2] = 1;
    c.step(0).unwrap();
    assert_eq!(0x50 + 50, c.index.get());
    c.step(0).unwrap();
    assert_eq!(0, c.registers[15]);
    assert_eq!(0xFF, c.display.buffer[64 + 6]);
    assert_eq!(0, c.display.buffer[64 + 10]);
    c.step(0).unwrap();
    assert_eq!(1, c.registers[15]);
    assert!(c.display.buffer.iter().all(|&p| p == 0));
}

#[test]
fn skip_on_key_state() {
    let mut c = machine_with(&[0xE4, 0x9E, 0x00, 0x00, 0xE4, 0xA1]);
    c.registers[4] = 7;
    c.keypad.set_key(7, true);
    c.step(0).unwrap();
    assert_eq!(0x204, c.program_counter);
    c.step(0).unwrap();
    assert_eq!(0x206, c.program_counter);
}

#[test]
fn bcd_store_and_load_registers() {
    let mut c = machine_with(&[0xA3, 0x00, 0xF0, 0x33, 0xF2, 0x65]);
    c.registers[0] = 197;
    for _ in 0..3 {
        c.step(0).unwrap();
    }
    assert_eq!([1, 9, 7], c.registers[0..3]);
    assert_eq!([1, 9, 7], c.memory[0x300..0x303]);
}

#[test]
fn jump_with_offset_uses_twelve_bits() {
    let mut c = machine_with(&[0xBF, 0x00]);
    c.registers[0] = 0x20;
    c.step(0).unwrap();
    assert_eq!(0xF20, c.program_counter);
}

#[test]
fn pc_out_of_range() {
    let mut c = Chip8::default();
    c.program_counter = 4095;
    assert_eq!(Err(Chip8Error::PcOutOfRange(4095)), c.step(0));
    assert_eq!(4095, c.program_counter);
}

#[test]
fn unknown_opcode() {
    let mut c = machine_with(&[0x51, 0x21]);
    assert_eq!(Err(Chip8Error::UnknownOpcode(0x5121)), c.step(0));
    assert_eq!(0x200, c.program_counter);
}

#[test]
fn index_out_of_range() {
    let mut c = machine_with(&[0xAF, 0xFF, 0xF3, 0x1E]);
    c.registers[3] = 1;
    c.step(0).unwrap();
    assert_eq!(Err(Chip8Error::IndexOutOfRange(0xF31E)), c.step(0));
    assert_eq!(0xFFF, c.index.get());
    assert_eq!(0x202, c.program_counter);
}

#[test]
fn key_out_of_range() {
    let mut c = machine_with(&[0xE0, 0x9E]);
    c.registers[0] = 16;
    assert_eq!(Err(Chip8Error::KeyOutOfRange(16)), c.step(0));
}

#[test]
fn memory_out_of_range() {
    let mut c = machine_with(&[0xAF, 0xFE, 0xF0, 0x33, 0xD0, 0x03, 0xF2, 0x55]);
    c.step(0).unwrap();
    assert_eq!(Err(Chip8Error::MemoryOutOfRange(0xF033)), c.step(0));
    c.program_counter = 0x204;
    assert_eq!(Err(Chip8Error::MemoryOutOfRange(0xD003)), c.step(0));
    c.program_counter = 0x206;
    assert_eq!(Err(Chip8Error::MemoryOutOfRange(0xF255)), c.step(0));
}

#[test]
fn runner_transitions() {
    let mut runner = Chip8Runner::new(machine_with(&[0x12, 0x00]), 700);
    assert_eq!(Ok(false), runner.cycle());
    assert!(!runner.start());
    assert!(runner.start());
    assert_eq!(Ok(true), runner.cycle());
    runner.handle_event(RunnerEvent::Stop);
    assert_eq!(Ok(false), runner.cycle());
    runner.handle_event(RunnerEvent::Start);
    assert_eq!(Ok(true), runner.cycle());
    assert_eq!(700, runner.tick_hz);
}

#[test]
fn font_table_is_never_overwritten() {
    let mut c = machine_with(&[0xA0, 0x50, 0xF0, 0x33]);
    let font_before = c.memory[0x50..0xA0].to_vec();
    c.step(0).unwrap();
    assert_eq!(Err(Chip8Error::MemoryOutOfRange(0xF033)), c.step(0));
    assert_eq!(font_before, c.memory[0x50..0xA0].to_vec());
    assert_eq!(0x202, c.program_counter);

    let mut d = machine_with(&[0xA1, 0xFE, 0xF3, 0x55]);
    d.registers[3] = 0xAA;
    d.step(0).unwrap();
    assert_eq!(Err(Chip8Error::MemoryOutOfRange(0xF355)), d.step(0));
    assert_eq!([0, 0, 0xA1, 0xFE], d.memory[0x1FE..0x202]);
}

#[test]
fn store_registers_at_program_region_start() {
    let mut c = machine_with(&[0xA2, 0x00, 0xF1, 0x55]);
    c.registers[0] = 0x12;
    c.registers[1] = 0x34;
    c.step(0).unwrap();
    c.step(0).unwrap();
    assert_eq!([0x12, 0x34], c.memory[0x200..0x202]);
}

#[test]
fn seeded_interpreters_start_alike() {
    let a = Chip8::with_seed(1);
    let b = Chip8::default();
    assert_eq!(a.memory, b.memory);
    assert_eq!(0x200, a.program_counter);
    let mut c = Chip8::with_seed(42);
    c.load_rom(&[0xC0, 0xFF]).unwrap();
    let mut d = Chip8::with_seed(42);
    d.load_rom(&[0xC0, 0xFF]).unwrap();
    c.tick().unwrap();
    d.tick().unwrap();
    assert_eq!(c.registers[0], d.registers[0]);
}
