//! The host-facing surface: batched ticks, timers, key events and the
//! waiting-for-key state.

use chip8_emu::keyboard::{InputError, Keyboard};
use chip8_emu::opcode::InvalidOpcode;
use chip8_emu::Chip8;

#[test]
fn tick_runs_up_to_the_budget() {
    let mut c = Chip8::new(&[0x60, 0x01, 0x61, 0x02, 0x62, 0x03]);
    c.tick(2).unwrap();
    assert_eq!(c.cpu.regs.v_regs[0], 1);
    assert_eq!(c.cpu.regs.v_regs[1], 2);
    assert_eq!(c.cpu.regs.v_regs[2], 0);
    c.tick(1).unwrap();
    assert_eq!(c.cpu.regs.v_regs[2], 3);
}

#[test]
fn tick_decrements_timers_once_regardless_of_budget() {
    let mut c = Chip8::new(&[0x60, 0x01, 0x61, 0x02]);
    c.cpu.regs.delay = 2;
    c.cpu.regs.sound = 1;
    c.tick(2).unwrap();
    assert_eq!(c.cpu.regs.delay, 1);
    assert_eq!(c.cpu.regs.sound, 0);
    c.tick(0).unwrap();
    assert_eq!(c.cpu.regs.delay, 0);
    assert_eq!(c.cpu.regs.sound, 0);
    c.tick(0).unwrap();
    assert_eq!(c.cpu.regs.delay, 0);
}

#[test]
fn tick_propagates_the_first_error() {
    let mut c = Chip8::new(&[0x60, 0x01, 0xFF, 0xFF]);
    assert_eq!(c.tick(5), Err(InvalidOpcode::DoesntExist(0xFFFF)));
    assert_eq!(c.cpu.regs.v_regs[0], 1);
    assert_eq!(c.cpu.regs.pc.get_addr(), 0x202);
}

#[test]
fn tick_stops_at_a_key_wait() {
    // F10A: wait for a key into V1; the following instruction must not
    // run within the same batch, however large the budget.
    let mut c = Chip8::new(&[0xF1, 0x0A, 0x60, 0x07]);
    c.tick(10).unwrap();
    assert_eq!(c.cpu.keyboard.wait_press, Some(1));
    assert_eq!(c.cpu.regs.v_regs[0], 0);
    assert_eq!(c.cpu.regs.pc.get_addr(), 0x202);
}

#[test]
fn run_cycle_is_a_no_op_while_waiting() {
    let mut c = Chip8::new(&[0xF1, 0x0A, 0x60, 0x07]);
    c.run_cycle().unwrap();
    assert_eq!(c.cpu.keyboard.wait_press, Some(1));
    c.run_cycle().unwrap();
    c.run_cycle().unwrap();
    assert_eq!(c.cpu.regs.pc.get_addr(), 0x202);
    assert_eq!(c.cpu.regs.v_regs[0], 0);
}

#[test]
fn key_press_resolves_a_pending_wait() {
    let mut c = Chip8::new(&[0xF1, 0x0A, 0x60, 0x07]);
    c.run_cycle().unwrap();
    c.set_ctrl_state(0xC, true).unwrap();
    assert_eq!(c.cpu.keyboard.wait_press, None);
    assert_eq!(c.cpu.regs.v_regs[1], 0xC);
    assert!(c.cpu.keyboard.key_buffer[0xC]);
    c.run_cycle().unwrap();
    assert_eq!(c.cpu.regs.v_regs[0], 7);
}

#[test]
fn key_release_does_not_resolve_a_wait() {
    let mut c = Chip8::new(&[0xF1, 0x0A]);
    c.run_cycle().unwrap();
    c.set_ctrl_state(0xC, false).unwrap();
    assert_eq!(c.cpu.keyboard.wait_press, Some(1));
    assert!(!c.cpu.keyboard.key_buffer[0xC]);
}

#[test]
fn key_index_sixteen_is_rejected() {
    let mut c = Chip8::new(&[]);
    assert_eq!(
        c.set_ctrl_state(16, true),
        Err(InputError::InvalidKeyIndex(16))
    );
    assert_eq!(
        c.set_ctrl_state(100, false),
        Err(InputError::InvalidKeyIndex(100))
    );
}

#[test]
fn keyboard_direct_press_and_release() {
    let mut kb = Keyboard::new();
    let mut regs = [0u8; 16];
    kb.press_key(3, &mut regs).unwrap();
    assert!(kb.key_buffer[3]);
    kb.release_key(3).unwrap();
    assert!(!kb.key_buffer[3]);
    assert!(kb.press_key(16, &mut regs).is_err());
    assert!(kb.release_key(16).is_err());
}

#[test]
fn skip_if_key_pressed() {
    // E09E with V0 = 3: skips when key 3 is down.
    let mut c = Chip8::new(&[0xE0, 0x9E]);
    c.cpu.regs.v_regs[0] = 3;
    c.set_ctrl_state(3, true).unwrap();
    c.run_cycle().unwrap();
    assert_eq!(c.cpu.regs.pc.get_addr(), 0x204);
}

#[test]
fn skip_if_key_not_pressed() {
    let mut c = Chip8::new(&[0xE0, 0xA1]);
    c.cpu.regs.v_regs[0] = 3;
    c.run_cycle().unwrap();
    assert_eq!(c.cpu.regs.pc.get_addr(), 0x204);
    let mut d = Chip8::new(&[0xE0, 0xA1]);
    d.cpu.regs.v_regs[0] = 3;
    d.set_ctrl_state(3, true).unwrap();
    d.run_cycle().unwrap();
    assert_eq!(d.cpu.regs.pc.get_addr(), 0x202);
}

#[test]
fn timers_load_and_read_back_through_registers() {
    // 6A30: VA = 0x30; FA15: delay = VA; FB07: VB = delay.
    let mut c = Chip8::new(&[0x6A, 0x30, 0xFA, 0x15, 0xFB, 0x07, 0xFA, 0x18]);
    c.cpu.step().unwrap();
    c.cpu.step().unwrap();
    assert_eq!(c.cpu.regs.delay, 0x30);
    c.cpu.step().unwrap();
    assert_eq!(c.cpu.regs.v_regs[0xB], 0x30);
    c.cpu.step().unwrap();
    assert_eq!(c.cpu.regs.sound, 0x30);
}

#[test]
fn logic_ops_write_the_first_operand() {
    // V1 = 0b1100, V2 = 0b1010: OR, AND, XOR in sequence on fresh pairs.
    let mut c = Chip8::new(&[
        0x61, 0x0C, 0x62, 0x0A, 0x81, 0x21, 0x63, 0x0C, 0x83, 0x22, 0x64, 0x0C, 0x84, 0x23,
    ]);
    for _ in 0..7 {
        c.cpu.step().unwrap();
    }
    assert_eq!(c.cpu.regs.v_regs[1], 0b1110);
    assert_eq!(c.cpu.regs.v_regs[3], 0b1000);
    assert_eq!(c.cpu.regs.v_regs[4], 0b0110);
    assert_eq!(c.cpu.regs.v_regs[2], 0b1010);
}

#[test]
fn jump_sets_pc_directly_without_extra_advance() {
    let mut c = Chip8::new(&[0x12, 0x06, 0x00, 0x00, 0x00, 0x00, 0x60, 0x09]);
    c.cpu.step().unwrap();
    assert_eq!(c.cpu.regs.pc.get_addr(), 0x206);
    c.cpu.step().unwrap();
    assert_eq!(c.cpu.regs.v_regs[0], 9);
}

#[test]
fn reverse_subtract_writes_vy_minus_vx() {
    // 8AB7: VA = VB - VA.
    let mut c = Chip8::new(&[0x6A, 0x03, 0x6B, 0x0A, 0x8A, 0xB7]);
    c.cpu.step().unwrap();
    c.cpu.step().unwrap();
    c.cpu.step().unwrap();
    assert_eq!(c.cpu.regs.v_regs[0xA], 7);
    assert_eq!(c.cpu.regs.v_regs[0xF], 1);
}

#[test]
fn add_immediate_wraps_silently() {
    // 7xkk wraps modulo 256 and never touches the flag register.
    let mut c = Chip8::new(&[0x6A, 0xFF, 0x7A, 0x02]);
    c.cpu.step().unwrap();
    c.cpu.step().unwrap();
    assert_eq!(c.cpu.regs.v_regs[0xA], 1);
    assert_eq!(c.cpu.regs.v_regs[0xF], 0);
}
