//! Display semantics: XOR drawing, the OR-accumulated collision flag,
//! wraparound at the edges, screen bounds errors, and clearing.

use chip8_emu::cpu::Ram;
use chip8_emu::nybble::Nybble;
use chip8_emu::opcode::InvalidOpcode;
use chip8_emu::screen::{get_bit, Screen};
use chip8_emu::Chip8;

fn boot(prog: &[u8]) -> Chip8 {
    Chip8::new(prog)
}

fn lit_pixels(c: &Chip8) -> usize {
    let mut n: usize = 0;
    for row in c.cpu.screen.buffer.iter() {
        for px in row.iter() {
            if *px {
                n += 1;
            }
        }
    }
    n
}

#[test]
fn drawing_twice_clears_and_reports_collision() {
    // I = 0 (glyph 0), draw 5 rows at (V0, V1) = (0, 0), twice.
    let mut c = boot(&[0xA0, 0x00, 0xD0, 0x15, 0xD0, 0x15]);
    c.cpu.step().unwrap();
    c.cpu.step().unwrap();
    assert!(lit_pixels(&c) > 0);
    assert_eq!(c.cpu.regs.v_regs[0xF], 0);
    c.cpu.step().unwrap();
    assert_eq!(lit_pixels(&c), 0);
    assert_eq!(c.cpu.regs.v_regs[0xF], 1);
}

#[test]
fn draw_at_right_edge_wraps_to_left_columns() {
    // V1 = 63, I = 0, draw glyph 0 (top row 0xF0) at (63, 0).
    let mut c = boot(&[0x61, 0x3F, 0xA0, 0x00, 0xD1, 0x25]);
    c.cpu.step().unwrap();
    c.cpu.step().unwrap();
    c.cpu.step().unwrap();
    // Top row of glyph 0 is 0xF0: bits at columns 63, 0, 1, 2.
    assert!(c.cpu.screen.buffer[0][63]);
    assert!(c.cpu.screen.buffer[0][0]);
    assert!(c.cpu.screen.buffer[0][1]);
    assert!(c.cpu.screen.buffer[0][2]);
    assert!(!c.cpu.screen.buffer[0][3]);
    assert!(!c.cpu.screen.buffer[0][6]);
    assert_eq!(c.cpu.regs.v_regs[0xF], 0);
}

#[test]
fn draw_rows_wrap_at_the_bottom() {
    // V1 = 30 as the row origin: rows land on 30, 31, 0, 1, 2.
    let mut c = boot(&[0x61, 0x1E, 0xA0, 0x00, 0xD0, 0x15]);
    c.cpu.step().unwrap();
    c.cpu.step().unwrap();
    c.cpu.step().unwrap();
    // Glyph 0 row 2 is 0x90: bits at columns 0 and 3 of screen row 0.
    assert!(c.cpu.screen.buffer[0][0]);
    assert!(c.cpu.screen.buffer[0][3]);
    assert!(c.cpu.screen.buffer[30][0]);
}

#[test]
fn draw_origin_off_screen_fails_with_coordinates() {
    let mut c = boot(&[0xD0, 0x15]);
    c.cpu.regs.v_regs[0] = 100;
    match c.cpu.step() {
        Err(InvalidOpcode::OutOfScreenBounds(x, y, _)) => {
            assert_eq!(x, 100);
            assert_eq!(y, 0);
        },
        other => panic!("expected an out-of-screen error, got {:?}", other),
    }
    assert_eq!(lit_pixels(&c), 0);
}

#[test]
fn sprite_read_past_bank_end_fails() {
    let mut c = boot(&[0xD0, 0x15]);
    c.cpu.regs.i_reg = 0xFFE;
    assert!(matches!(
        c.cpu.step(),
        Err(InvalidOpcode::OutOfBoundsAddress(_))
    ));
}

#[test]
fn collision_accumulates_over_all_bits_not_just_the_last() {
    // First lay down only the top row (one byte), then draw the full
    // glyph: the overlap is on the first byte, while the last byte of
    // the second draw lands on dark pixels.
    let mut c = boot(&[0xA0, 0x00, 0xD0, 0x11, 0xD0, 0x15]);
    c.cpu.step().unwrap();
    c.cpu.step().unwrap();
    assert_eq!(c.cpu.regs.v_regs[0xF], 0);
    c.cpu.step().unwrap();
    assert_eq!(c.cpu.regs.v_regs[0xF], 1);
    // The overlapping top row was cleared, the rest is now lit.
    assert!(!c.cpu.screen.buffer[0][0]);
    assert!(c.cpu.screen.buffer[4][0]);
}

#[test]
fn clear_screen_blanks_every_pixel() {
    let mut c = boot(&[0xA0, 0x00, 0xD0, 0x15, 0x00, 0xE0]);
    c.cpu.step().unwrap();
    c.cpu.step().unwrap();
    assert!(lit_pixels(&c) > 0);
    c.cpu.step().unwrap();
    assert_eq!(lit_pixels(&c), 0);
}

#[test]
fn draw_nybble_direct_call_reports_collision_flag() {
    let mut s = Screen::new();
    let mut ram = Ram::initialize_ram(&[]);
    ram.0[0x200] = 0x80;
    let mut flag: u8 = 7;
    s.draw_nybble(0, 0, 0x200, Nybble::new([1]), &mut flag, &ram)
        .unwrap();
    assert_eq!(flag, 0);
    assert!(s.buffer[0][0]);
    s.draw_nybble(0, 0, 0x200, Nybble::new([1]), &mut flag, &ram)
        .unwrap();
    assert_eq!(flag, 1);
    assert!(!s.buffer[0][0]);
}

#[test]
fn draw_nybble_rejects_bad_origin() {
    let mut s = Screen::new();
    let ram = Ram::initialize_ram(&[]);
    let mut flag: u8 = 9;
    let r = s.draw_nybble(64, 0, 0, Nybble::new([1]), &mut flag, &ram);
    assert_eq!(r, Err((64, 0)));
    assert_eq!(flag, 9);
}

#[test]
fn get_bit_counts_from_the_left() {
    assert_eq!(get_bit(0b1000_0000, 0), Ok(true));
    assert_eq!(get_bit(0b1000_0000, 7), Ok(false));
    assert_eq!(get_bit(0b0000_0001, 7), Ok(true));
    assert!(get_bit(0xFF, 8).is_err());
}
