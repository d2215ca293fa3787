//! Instruction semantics through the public step interface, the stack,
//! the glyph table, and every error kind the engine can report.

use chip8_emu::cpu::{i_eq_spr_digit_vx, Cpu, ProgramCounter, Stack};
use chip8_emu::opcode::InvalidOpcode;
use chip8_emu::Chip8;

fn boot(prog: &[u8]) -> Chip8 {
    Chip8::new(prog)
}

#[test]
fn register_write_then_read_round_trips() {
    // 6A42: VA = 0x42.  Every other register stays zero.
    let mut c = boot(&[0x6A, 0x42]);
    c.cpu.step().unwrap();
    assert_eq!(c.cpu.regs.v_regs[0xA], 0x42);
    for (k, v) in c.cpu.regs.v_regs.iter().enumerate() {
        if k != 0xA {
            assert_eq!(*v, 0);
        }
    }
    assert_eq!(c.cpu.regs.pc.get_addr(), 0x202);
}

#[test]
fn decimal_store_zero_writes_three_zeroes() {
    // A300: I = 0x300; F333: decimal digits of V3 at I, I+1, I+2.
    let mut c = boot(&[0xA3, 0x00, 0xF3, 0x33]);
    c.cpu.regs.v_regs[3] = 0;
    c.cpu.step().unwrap();
    c.cpu.step().unwrap();
    assert_eq!(c.cpu.ram.0[0x300], 0);
    assert_eq!(c.cpu.ram.0[0x301], 0);
    assert_eq!(c.cpu.ram.0[0x302], 0);
}

#[test]
fn decimal_store_255_writes_2_5_5() {
    let mut c = boot(&[0xA3, 0x00, 0xF3, 0x33]);
    c.cpu.regs.v_regs[3] = 255;
    c.cpu.step().unwrap();
    c.cpu.step().unwrap();
    assert_eq!(c.cpu.ram.0[0x300], 2);
    assert_eq!(c.cpu.ram.0[0x301], 5);
    assert_eq!(c.cpu.ram.0[0x302], 5);
}

#[test]
fn fill_then_spill_reproduces_memory() {
    // A400: I = 0x400; F565: fill V0..=V5; F555: spill V0..=V5.
    let mut c = boot(&[0xA4, 0x00, 0xF5, 0x65, 0xF5, 0x55]);
    let bytes = [9u8, 8, 7, 6, 5, 4];
    for (k, b) in bytes.iter().enumerate() {
        c.cpu.ram.0[0x400 + k] = *b;
    }
    c.cpu.step().unwrap();
    c.cpu.step().unwrap();
    for (k, b) in bytes.iter().enumerate() {
        assert_eq!(c.cpu.regs.v_regs[k], *b);
    }
    c.cpu.step().unwrap();
    for (k, b) in bytes.iter().enumerate() {
        assert_eq!(c.cpu.ram.0[0x400 + k], *b);
    }
}

#[test]
fn add_with_carry_flag() {
    // VA = 250, VB = 10, VA += VB: wraps to 4 with carry set.
    let mut c = boot(&[0x6A, 0xFA, 0x6B, 0x0A, 0x8A, 0xB4]);
    c.cpu.step().unwrap();
    c.cpu.step().unwrap();
    c.cpu.step().unwrap();
    assert_eq!(c.cpu.regs.v_regs[0xA], 4);
    assert_eq!(c.cpu.regs.v_regs[0xF], 1);
}

#[test]
fn add_without_carry_flag() {
    let mut c = boot(&[0x6A, 0x0A, 0x6B, 0x14, 0x8A, 0xB4]);
    c.cpu.step().unwrap();
    c.cpu.step().unwrap();
    c.cpu.step().unwrap();
    assert_eq!(c.cpu.regs.v_regs[0xA], 30);
    assert_eq!(c.cpu.regs.v_regs[0xF], 0);
}

#[test]
fn subtract_without_borrow_sets_flag() {
    // VA = 10, VB = 3, VA -= VB: 7, flag 1 means no borrow.
    let mut c = boot(&[0x6A, 0x0A, 0x6B, 0x03, 0x8A, 0xB5]);
    c.cpu.step().unwrap();
    c.cpu.step().unwrap();
    c.cpu.step().unwrap();
    assert_eq!(c.cpu.regs.v_regs[0xA], 7);
    assert_eq!(c.cpu.regs.v_regs[0xF], 1);
}

#[test]
fn subtract_with_borrow_wraps_and_clears_flag() {
    let mut c = boot(&[0x6A, 0x03, 0x6B, 0x0A, 0x8A, 0xB5]);
    c.cpu.step().unwrap();
    c.cpu.step().unwrap();
    c.cpu.step().unwrap();
    assert_eq!(c.cpu.regs.v_regs[0xA], 249);
    assert_eq!(c.cpu.regs.v_regs[0xF], 0);
}

#[test]
fn shift_right_reports_low_bit() {
    let mut c = boot(&[0x62, 0x05, 0x82, 0x06]);
    c.cpu.step().unwrap();
    c.cpu.step().unwrap();
    assert_eq!(c.cpu.regs.v_regs[2], 2);
    assert_eq!(c.cpu.regs.v_regs[0xF], 1);
}

#[test]
fn shift_left_reports_high_bit() {
    let mut c = boot(&[0x62, 0x81, 0x82, 0x0E]);
    c.cpu.step().unwrap();
    c.cpu.step().unwrap();
    assert_eq!(c.cpu.regs.v_regs[2], 0x02);
    assert_eq!(c.cpu.regs.v_regs[0xF], 1);
}

#[test]
fn index_add_register_sets_no_flag_and_wraps() {
    // F01E: I += V0 silently wraps and, unlike 8XY4, never touches VF.
    let mut c = boot(&[0x60, 0xC8, 0xF0, 0x1E]);
    c.cpu.step().unwrap();
    c.cpu.regs.i_reg = 0xFFFF;
    c.cpu.step().unwrap();
    assert_eq!(c.cpu.regs.i_reg, 199);
    assert_eq!(c.cpu.regs.v_regs[0xF], 0);
}

#[test]
fn random_and_with_zero_mask_is_zero() {
    // C000: V0 = random byte AND 0, so always 0.
    let mut c = boot(&[0xC0, 0x00]);
    c.cpu.regs.v_regs[0] = 0x5A;
    c.cpu.step().unwrap();
    assert_eq!(c.cpu.regs.v_regs[0], 0);
}

#[test]
fn random_respects_mask() {
    // C50F: V5 = random byte AND 0x0F, so at most 0x0F.
    let mut c = boot(&[0xC5, 0x0F]);
    c.cpu.step().unwrap();
    assert!(c.cpu.regs.v_regs[5] <= 0x0F);
}

#[test]
fn call_pushes_and_return_pops() {
    // 2204: call 0x204; at 0x204, 00EE: return.
    let mut c = boot(&[0x22, 0x04, 0x00, 0x00, 0x00, 0xEE]);
    c.cpu.step().unwrap();
    assert_eq!(c.cpu.regs.pc.get_addr(), 0x204);
    assert_eq!(c.cpu.regs.sp, 1);
    c.cpu.step().unwrap();
    assert_eq!(c.cpu.regs.pc.get_addr(), 0x202);
    assert_eq!(c.cpu.regs.sp, 0);
}

#[test]
fn stack_push_pop_round_trip() {
    let mut st = Stack::new();
    let mut sp: u8 = 0;
    st.push(&mut sp, &ProgramCounter(0x300)).unwrap();
    assert_eq!(sp, 1);
    let back = st.pop(&mut sp).unwrap();
    assert_eq!(back.get_addr(), 0x300);
    assert_eq!(sp, 0);
    assert!(st.pop(&mut sp).is_err());
}

#[test]
fn popping_empty_stack_is_underflow() {
    let mut c = boot(&[0x00, 0xEE]);
    assert!(matches!(
        c.cpu.step(),
        Err(InvalidOpcode::StackUnderflow(_))
    ));
}

#[test]
fn sixteenth_call_overflows_stack() {
    let mut c = boot(&[0x22, 0x00]);
    c.cpu.regs.sp = 15;
    assert!(matches!(c.cpu.step(), Err(InvalidOpcode::StackOverflow(_))));
}

#[test]
fn offset_jump_below_program_region_is_out_of_bounds() {
    // B000 with V0 = 0 targets address 0, outside [0x200, 0xFFE].
    let mut c = boot(&[0xB0, 0x00]);
    assert!(matches!(
        c.cpu.step(),
        Err(InvalidOpcode::OutOfBoundsAddress(_))
    ));
}

#[test]
fn offset_jump_in_range_sets_pc() {
    let mut c = boot(&[0xB3, 0x00]);
    c.cpu.regs.v_regs[0] = 4;
    c.cpu.step().unwrap();
    assert_eq!(c.cpu.regs.pc.get_addr(), 0x304);
}

#[test]
fn decimal_store_near_end_of_bank_is_out_of_bounds() {
    let mut c = boot(&[0xF0, 0x33]);
    c.cpu.regs.i_reg = 0xFFD;
    assert!(matches!(
        c.cpu.step(),
        Err(InvalidOpcode::OutOfBoundsAddress(_))
    ));
}

#[test]
fn wild_program_counter_is_reported_not_fetched() {
    let mut c = boot(&[0x00, 0xE0]);
    c.cpu.regs.pc.set_addr(0xFFE);
    assert_eq!(c.cpu.step(), Err(InvalidOpcode::PcOutOfBounds(0xFFE)));
}

#[test]
fn unknown_word_is_a_decode_failure() {
    let mut c = boot(&[0xFF, 0xFF]);
    assert_eq!(c.cpu.step(), Err(InvalidOpcode::DoesntExist(0xFFFF)));
}

#[test]
fn glyph_lookup_above_fifteen_fails() {
    let mut c = boot(&[0xF0, 0x29]);
    c.cpu.regs.v_regs[0] = 16;
    assert!(matches!(
        c.cpu.step(),
        Err(InvalidOpcode::NoSuchDigitSprite(_))
    ));
}

#[test]
fn key_skip_with_bad_register_value_fails() {
    let mut c = boot(&[0xE0, 0x9E]);
    c.cpu.regs.v_regs[0] = 20;
    assert!(matches!(
        c.cpu.step(),
        Err(InvalidOpcode::InvalidKeyIndex(_))
    ));
}

#[test]
fn digit_glyph_table_is_loaded() {
    let c = Cpu::new(&[]);
    assert_eq!(&c.ram.0[0..5], &[0xF0, 0x90, 0x90, 0x90, 0xF0]);
    assert_eq!(&c.ram.0[75..80], &[0xF0, 0x80, 0xF0, 0x80, 0x80]);
    assert_eq!(c.ram.0[80], 0);
}

#[test]
fn program_bytes_land_at_0x200() {
    let c = Cpu::new(&[0xAB, 0xCD]);
    assert_eq!(c.ram.0[0x200], 0xAB);
    assert_eq!(c.ram.0[0x201], 0xCD);
    assert_eq!(c.ram.0[0x202], 0);
}

#[test]
fn retrieve_bytes_reads_a_window() {
    let c = Cpu::new(&[1, 2, 3, 4]);
    let n = chip8_emu::nybble::Nybble::new([3]);
    assert_eq!(c.ram.retrieve_bytes(0x200, n), vec![1, 2, 3]);
}

#[test]
fn glyph_start_addresses_step_by_five() {
    let mut i: u16 = 0xBEEF;
    i_eq_spr_digit_vx(0xF, &mut i).unwrap();
    assert_eq!(i, 75);
    i_eq_spr_digit_vx(0x0, &mut i).unwrap();
    assert_eq!(i, 0);
    let mut j: u16 = 42;
    assert!(i_eq_spr_digit_vx(16, &mut j).is_err());
    assert_eq!(j, 42);
}

#[test]
fn end_to_end_glyph_lookup_scenario() {
    // A200: I = 0x200, then F029 with V0 = 5: I becomes glyph 5's start.
    let mut c = boot(&[0xA2, 0x00, 0xF0, 0x29]);
    c.cpu.regs.v_regs[0] = 5;
    c.cpu.step().unwrap();
    assert_eq!(c.cpu.regs.i_reg, 0x200);
    c.cpu.step().unwrap();
    assert_eq!(c.cpu.regs.i_reg, 25);
}

#[test]
fn skip_families_advance_twice_when_taken() {
    // 3A07 with VA = 7 skips; the skipped slot holds an unknown word.
    let mut c = boot(&[0x3A, 0x07, 0xFF, 0xFF, 0x60, 0x01]);
    c.cpu.regs.v_regs[0xA] = 7;
    c.cpu.step().unwrap();
    assert_eq!(c.cpu.regs.pc.get_addr(), 0x204);
    c.cpu.step().unwrap();
    assert_eq!(c.cpu.regs.v_regs[0], 1);
}

#[test]
fn machine_code_routine_call_is_a_no_op() {
    // 0NNN executes as a no-op that only advances the program counter.
    let mut c = boot(&[0x01, 0x23]);
    c.cpu.step().unwrap();
    assert_eq!(c.cpu.regs.pc.get_addr(), 0x202);
    assert_eq!(c.cpu.regs.v_regs, [0u8; 16]);
}

#[test]
fn register_move_copies_vy_into_vx() {
    // 6B2A: VB = 0x2A; 8AB0: VA = VB.
    let mut c = boot(&[0x6B, 0x2A, 0x8A, 0xB0]);
    c.cpu.step().unwrap();
    c.cpu.step().unwrap();
    assert_eq!(c.cpu.regs.v_regs[0xA], 0x2A);
    assert_eq!(c.cpu.regs.v_regs[0xB], 0x2A);
}

#[test]
fn skip_when_registers_equal() {
    let mut c = boot(&[0x5A, 0xB0]);
    c.cpu.regs.v_regs[0xA] = 9;
    c.cpu.regs.v_regs[0xB] = 9;
    c.cpu.step().unwrap();
    assert_eq!(c.cpu.regs.pc.get_addr(), 0x204);
}

#[test]
fn skip_when_registers_differ() {
    let mut c = boot(&[0x9A, 0xB0]);
    c.cpu.regs.v_regs[0xA] = 9;
    c.cpu.step().unwrap();
    assert_eq!(c.cpu.regs.pc.get_addr(), 0x204);
    let mut d = boot(&[0x9A, 0xB0]);
    d.cpu.step().unwrap();
    assert_eq!(d.cpu.regs.pc.get_addr(), 0x202);
}

#[test]
fn skip_when_immediate_differs() {
    let mut c = boot(&[0x4A, 0x07]);
    c.cpu.regs.v_regs[0xA] = 8;
    c.cpu.step().unwrap();
    assert_eq!(c.cpu.regs.pc.get_addr(), 0x204);
}

#[test]
fn program_counter_unit_operations() {
    let mut pc = ProgramCounter(0x200);
    pc.update();
    assert_eq!(pc.get_addr(), 0x202);
    pc.set_addr(0x400);
    assert_eq!(pc.get_addr(), 0x400);
}

#[test]
fn wait_for_key_latches_destination_register() {
    let mut c = boot(&[0xF7, 0x0A]);
    c.cpu.step().unwrap();
    assert_eq!(c.cpu.keyboard.wait_press, Some(7));
    assert_eq!(c.cpu.regs.pc.get_addr(), 0x202);
}

#[test]
fn skip_not_taken_advances_once() {
    let mut c = boot(&[0x3A, 0x07]);
    c.cpu.regs.v_regs[0xA] = 8;
    c.cpu.step().unwrap();
    assert_eq!(c.cpu.regs.pc.get_addr(), 0x202);
}
