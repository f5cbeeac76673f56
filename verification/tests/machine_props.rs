use chip8::cpu::Cpu;
use chip8::cpu::Fault;
use chip8::display::Display;

// Add-with-carry: result is the sum modulo 256 and the flag is the
// carry, on values where both matter.
#[test]
fn add_with_carry_wraps_and_flags() {
    let mut cpu = Cpu::new();
    Cpu::load_data(&mut cpu, vec![0x8A, 0xB4]);
    cpu.v[0xA] = 0x80;
    cpu.v[0xB] = 0x90;
    let _ = cpu.emulate_cycle();
    assert_eq!(cpu.v[0xA], 0x10);
    assert_eq!(cpu.v[0xF], 1);
}

// Subtraction: the result wraps modulo 256 regardless of the flag, and
// the flag is 0 when the minuend is not strictly greater.
#[test]
fn sub_equal_values_clears_flag() {
    let mut cpu = Cpu::new();
    Cpu::load_data(&mut cpu, vec![0x8A, 0xB5]);
    cpu.v[0xA] = 7;
    cpu.v[0xB] = 7;
    let _ = cpu.emulate_cycle();
    assert_eq!(cpu.v[0xA], 0);
    assert_eq!(cpu.v[0xF], 0);
}

// Shift-left doubles modulo 256 and the flag takes the bit shifted out.
#[test]
fn shl_wraps_and_flags() {
    let mut cpu = Cpu::new();
    Cpu::load_data(&mut cpu, vec![0x84, 0x5E]);
    cpu.v[5] = 0x81;
    let _ = cpu.emulate_cycle();
    assert_eq!(cpu.v[4], 0x02);
    assert_eq!(cpu.v[0xF], 1);
}

// Clear-screen, a draw, then the identical draw: every pixel is off
// again and the second draw reports a collision.
#[test]
fn clear_then_draw_twice_restores() {
    let mut cpu = Cpu::new();
    Cpu::load_data(
        &mut cpu,
        vec![0x00, 0xE0, 0x62, 0x0A, 0x63, 0x05, 0xF3, 0x29, 0xD2, 0x35, 0xD2, 0x35],
    );
    for _ in 0..6 {
        let _ = cpu.emulate_cycle();
    }
    for r in 0..32 {
        for c in 0..64 {
            assert!(!cpu.disp_buff[r][c]);
        }
    }
    assert_eq!(cpu.v[0xF], 1);
}

// A sprite entirely within bounds drawn twice at the same place leaves
// the region all off and the collision flag set.
#[test]
fn in_bounds_draw_twice_erases_region() {
    let mut cpu = Cpu::new();
    Cpu::load_data(&mut cpu, vec![0xA5, 0x00, 0xD0, 0x12, 0xD0, 0x12]);
    cpu.memory[0x500] = 0xFF;
    cpu.memory[0x501] = 0x81;
    cpu.v[0] = 10;
    cpu.v[1] = 20;
    for _ in 0..3 {
        let _ = cpu.emulate_cycle();
    }
    for r in 20..22 {
        for c in 10..18 {
            assert!(!cpu.disp_buff[r][c]);
        }
    }
    assert_eq!(cpu.v[0xF], 1);
}

// The first in-bounds draw puts exactly the sprite's bits on screen and
// reports no collision on a fresh display.
#[test]
fn draw_renders_sprite_bits() {
    let mut cpu = Cpu::new();
    Cpu::load_data(&mut cpu, vec![0xA5, 0x00, 0xD0, 0x11]);
    cpu.memory[0x500] = 0b10100000;
    cpu.v[0] = 4;
    cpu.v[1] = 6;
    for _ in 0..2 {
        let _ = cpu.emulate_cycle();
    }
    assert!(cpu.disp_buff[6][4]);
    assert!(!cpu.disp_buff[6][5]);
    assert!(cpu.disp_buff[6][6]);
    assert!(!cpu.disp_buff[6][7]);
    assert_eq!(cpu.v[0xF], 0);
}

// Sprites are clipped at the right and bottom edges, not wrapped.
#[test]
fn draw_clips_at_edges() {
    let mut cpu = Cpu::new();
    Cpu::load_data(&mut cpu, vec![0xA5, 0x00, 0xD0, 0x12]);
    cpu.memory[0x500] = 0xFF;
    cpu.memory[0x501] = 0xFF;
    cpu.v[0] = 63;
    cpu.v[1] = 31;
    for _ in 0..2 {
        let _ = cpu.emulate_cycle();
    }
    assert!(cpu.disp_buff[31][63]);
    for r in 0..32 {
        for c in 0..64 {
            if !(r == 31 && c == 63) {
                assert!(!cpu.disp_buff[r][c]);
            }
        }
    }
}

// Coordinates off the screen draw nothing: the screen keeps every
// pixel, the flag is explicitly cleared, and the counter advances.
#[test]
fn draw_off_screen_is_empty_blit() {
    let mut cpu = Cpu::new();
    Cpu::load_data(&mut cpu, vec![0xD0, 0x11]);
    cpu.v[0] = 64;
    cpu.v[1] = 0;
    cpu.v[0xF] = 1;
    assert_eq!(cpu.emulate_cycle(), Ok(()));
    assert_eq!(cpu.pc, 0x202);
    assert_eq!(cpu.v[0xF], 0);
    for r in 0..32 {
        for c in 0..64 {
            assert!(!cpu.disp_buff[r][c]);
        }
    }
}

// The timer decision: at or over the 17 ms threshold both timers count
// down together, never below zero; under it nothing moves.
#[test]
fn tick_timers_follows_threshold() {
    let mut cpu = Cpu::new();
    cpu.delay_timer = 120;
    cpu.sound_timer = 1;
    cpu.tick_timers(18);
    assert_eq!(cpu.delay_timer, 119);
    assert_eq!(cpu.sound_timer, 0);
    cpu.tick_timers(16);
    assert_eq!(cpu.delay_timer, 119);
    assert_eq!(cpu.sound_timer, 0);
    cpu.tick_timers(17);
    assert_eq!(cpu.delay_timer, 118);
    assert_eq!(cpu.sound_timer, 0);
}

// A call followed at once by a return lands two past the call, with
// the stack pointer back where it was.
#[test]
fn call_then_ret_balances() {
    let mut cpu = Cpu::new();
    Cpu::load_data(&mut cpu, vec![0x22, 0x04, 0x00, 0x00, 0x00, 0xEE]);
    let _ = cpu.emulate_cycle();
    let _ = cpu.emulate_cycle();
    assert_eq!(cpu.pc, 0x202);
    assert_eq!(cpu.sp, 0);
}

// Wait-for-key stores the lowest pressed key when several are down.
#[test]
fn wait_key_takes_lowest() {
    let mut cpu = Cpu::new();
    Cpu::load_data(&mut cpu, vec![0xF5, 0x0A]);
    cpu.key_buff[9] = true;
    cpu.key_buff[3] = true;
    cpu.key_buff[12] = true;
    let _ = cpu.emulate_cycle();
    assert_eq!(cpu.v[5], 3);
    assert_eq!(cpu.pc, 0x202);
}

// Wait-for-key leaves the counter alone over many cycles without keys.
#[test]
fn wait_key_busy_waits() {
    let mut cpu = Cpu::new();
    Cpu::load_data(&mut cpu, vec![0xF5, 0x0A]);
    for _ in 0..10 {
        assert_eq!(cpu.emulate_cycle(), Ok(()));
        assert_eq!(cpu.pc, 0x200);
    }
}

// The all-zero word is reported as the distinct halt condition, with
// the machine left in place.
#[test]
fn zero_word_halts() {
    let mut cpu = Cpu::new();
    Cpu::load_data(&mut cpu, vec![0x00, 0x00]);
    assert_eq!(cpu.emulate_cycle(), Err(Fault::Halt));
    assert_eq!(cpu.pc, 0x200);
}

// A word that decodes to nothing is a decode failure naming the word.
#[test]
fn unknown_word_is_reported() {
    let mut cpu = Cpu::new();
    Cpu::load_data(&mut cpu, vec![0xF0, 0xFF]);
    assert_eq!(cpu.emulate_cycle(), Err(Fault::UnknownOpcode(0xF0FF)));
    let mut cpu = Cpu::new();
    Cpu::load_data(&mut cpu, vec![0x80, 0x18]);
    assert_eq!(cpu.emulate_cycle(), Err(Fault::UnknownOpcode(0x8018)));
}

// A call with all sixteen frames in use overflows the stack.
#[test]
fn call_overflow_faults() {
    let mut cpu = Cpu::new();
    Cpu::load_data(&mut cpu, vec![0x22, 0x00]);
    cpu.sp = 16;
    assert_eq!(cpu.emulate_cycle(), Err(Fault::StackOverflow));
    assert_eq!(cpu.sp, 16);
}

// A return with nothing on the stack underflows it.
#[test]
fn ret_underflow_faults() {
    let mut cpu = Cpu::new();
    Cpu::load_data(&mut cpu, vec![0x00, 0xEE]);
    assert_eq!(cpu.emulate_cycle(), Err(Fault::StackUnderflow));
    assert_eq!(cpu.pc, 0x200);
}

// Reads or writes past the 4096-byte space are faults that leave the
// machine as it was.
#[test]
fn out_of_bounds_faults() {
    // a sprite fetch past the end of memory
    let mut cpu = Cpu::new();
    Cpu::load_data(&mut cpu, vec![0xD0, 0x15]);
    cpu.i = 4093;
    assert_eq!(cpu.emulate_cycle(), Err(Fault::OutOfBounds));
    // a decimal-digit store past the end of memory
    let mut cpu = Cpu::new();
    Cpu::load_data(&mut cpu, vec![0xF0, 0x33]);
    cpu.i = 4094;
    assert_eq!(cpu.emulate_cycle(), Err(Fault::OutOfBounds));
    // a block store past the end of memory
    let mut cpu = Cpu::new();
    Cpu::load_data(&mut cpu, vec![0xF3, 0x55]);
    cpu.i = 4094;
    assert_eq!(cpu.emulate_cycle(), Err(Fault::OutOfBounds));
    // a fetch from the last byte of memory
    let mut cpu = Cpu::new();
    cpu.pc = 4095;
    assert_eq!(cpu.emulate_cycle(), Err(Fault::OutOfBounds));
    assert_eq!(cpu.pc, 4095);
    // a key test from a register value past the 16-key latch
    let mut cpu = Cpu::new();
    Cpu::load_data(&mut cpu, vec![0xE0, 0x9E]);
    cpu.v[0] = 200;
    assert_eq!(cpu.emulate_cycle(), Err(Fault::OutOfBounds));
}

// Loading a program puts the font at the bottom of memory, zeroes up
// to the program origin, and the image at the origin.
#[test]
fn load_data_lays_out_memory() {
    let mut cpu = Cpu::new();
    Cpu::load_data(&mut cpu, vec![0xAB, 0xCD]);
    assert_eq!(cpu.memory[0], 0xF0);
    assert_eq!(cpu.memory[4], 0xF0);
    assert_eq!(cpu.memory[75], 0xF0);
    assert_eq!(cpu.memory[79], 0x80);
    for k in 80..0x200 {
        assert_eq!(cpu.memory[k], 0);
    }
    assert_eq!(cpu.memory[0x200], 0xAB);
    assert_eq!(cpu.memory[0x201], 0xCD);
    for k in 0x202..4096 {
        assert_eq!(cpu.memory[k], 0);
    }
}

// The font-address instruction points at the 5-byte glyph of a digit.
#[test]
fn font_address_steps_by_five() {
    let mut cpu = Cpu::new();
    Cpu::load_data(&mut cpu, vec![0xF7, 0x29]);
    cpu.v[7] = 0xA;
    let _ = cpu.emulate_cycle();
    assert_eq!(cpu.i, 50);
}

// The decimal decomposition covers one-digit values too.
#[test]
fn bcd_of_small_value() {
    let mut cpu = Cpu::new();
    Cpu::load_data(&mut cpu, vec![0xF0, 0x33]);
    cpu.i = 0x500;
    cpu.v[0] = 7;
    let _ = cpu.emulate_cycle();
    assert_eq!(cpu.memory[0x500], 0);
    assert_eq!(cpu.memory[0x501], 0);
    assert_eq!(cpu.memory[0x502], 7);
}

// Block load and store advance the address register by x + 1.
#[test]
fn block_ops_advance_address_register() {
    let mut cpu = Cpu::new();
    Cpu::load_data(&mut cpu, vec![0xF2, 0x55]);
    cpu.i = 0x500;
    let _ = cpu.emulate_cycle();
    assert_eq!(cpu.i, 0x503);
    let mut cpu = Cpu::new();
    Cpu::load_data(&mut cpu, vec![0xF4, 0x65]);
    cpu.i = 0x600;
    let _ = cpu.emulate_cycle();
    assert_eq!(cpu.i, 0x605);
}

// The sound timer is set from a register like the delay timer.
#[test]
fn sound_timer_loads() {
    let mut cpu = Cpu::new();
    Cpu::load_data(&mut cpu, vec![0xF3, 0x18]);
    cpu.v[3] = 0x44;
    let _ = cpu.emulate_cycle();
    assert_eq!(cpu.sound_timer, 0x44);
}

// The delay timer reads back into a register.
#[test]
fn delay_timer_reads() {
    let mut cpu = Cpu::new();
    Cpu::load_data(&mut cpu, vec![0xF6, 0x07]);
    cpu.delay_timer = 0x33;
    let _ = cpu.emulate_cycle();
    assert_eq!(cpu.v[6], 0x33);
}

// A display snapshot keeps the buffer handed to it.
#[test]
fn display_keeps_buffer() {
    let mut buff = [[false; 64]; 32];
    buff[3][7] = true;
    let d = Display::new(buff);
    assert!(d.buff[3][7]);
    assert!(!d.buff[0][0]);
}
