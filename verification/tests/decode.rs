//! Decoder coverage: every canonical instruction pattern maps to its
//! variant, neighbouring patterns are never confused, and unknown words
//! fail with the offending word.

use chip8_emu::nybble::{Nybble, ThreeNybbles, TwoNybbles};
use chip8_emu::opcode::{InvalidOpcode, NoArg, OneArg, Opcode, ThreeArg, TwoArg};

#[test]
fn nybble_construction_and_accessors() {
    let n = Nybble::new([0x0A]);
    assert_eq!(n.to_u8(), 0x0A);
    assert_eq!(n.to_usize(), 10);
    assert_eq!(n.to_u64(), 10);

    let two = TwoNybbles::from_word(0x8AB4);
    assert_eq!(two.x().to_u8(), 0xA);
    assert_eq!(two.y().to_u8(), 0xB);

    let three = ThreeNybbles::new([0x0A, 0xBC]);
    assert_eq!(three.to_addr(), 0xABC);
    assert_eq!(three.x().to_u8(), 0xA);
    assert_eq!(three.y().to_u8(), 0xB);
    assert_eq!(three.last_nybble(), 0xC);
    assert_eq!(three.get_byte(), 0xBC);

    let from_word = ThreeNybbles::from_word(0x1ABC);
    assert_eq!(from_word.to_addr(), 0xABC);
}

#[test]
fn decode_all_35_canonical_patterns() {
    assert!(matches!(
        Opcode::decode_op(0x00E0),
        Ok(Opcode::NoArg(NoArg::ClearScreen))
    ));
    assert!(matches!(
        Opcode::decode_op(0x00EE),
        Ok(Opcode::NoArg(NoArg::ReturnSubrt))
    ));
    assert!(matches!(
        Opcode::decode_op(0x0123),
        Ok(Opcode::ThreeArg(ThreeArg::JumpToCodeRout(_)))
    ));
    assert!(matches!(
        Opcode::decode_op(0x1234),
        Ok(Opcode::ThreeArg(ThreeArg::JumpToAddr(t))) if t.to_addr() == 0x234
    ));
    assert!(matches!(
        Opcode::decode_op(0x2345),
        Ok(Opcode::ThreeArg(ThreeArg::CallSubAt(t))) if t.to_addr() == 0x345
    ));
    assert!(matches!(
        Opcode::decode_op(0x3344),
        Ok(Opcode::ThreeArg(ThreeArg::SkipVxEqKK(t))) if t.x().to_u8() == 3 && t.get_byte() == 0x44
    ));
    assert!(matches!(
        Opcode::decode_op(0x4455),
        Ok(Opcode::ThreeArg(ThreeArg::SkipVxNEqKK(_)))
    ));
    assert!(matches!(
        Opcode::decode_op(0x5120),
        Ok(Opcode::TwoArg(TwoArg::SkipEqVxVy(t))) if t.x().to_u8() == 1 && t.y().to_u8() == 2
    ));
    assert!(matches!(
        Opcode::decode_op(0x6178),
        Ok(Opcode::ThreeArg(ThreeArg::SetVxKK(t))) if t.x().to_u8() == 1 && t.get_byte() == 0x78
    ));
    assert!(matches!(
        Opcode::decode_op(0x7234),
        Ok(Opcode::ThreeArg(ThreeArg::VxEqVxPlusKK(_)))
    ));
    assert!(matches!(
        Opcode::decode_op(0x8120),
        Ok(Opcode::TwoArg(TwoArg::VxEqVy(_)))
    ));
    assert!(matches!(
        Opcode::decode_op(0x8121),
        Ok(Opcode::TwoArg(TwoArg::VxOREqVy(_)))
    ));
    assert!(matches!(
        Opcode::decode_op(0x8122),
        Ok(Opcode::TwoArg(TwoArg::VxANDEqVy(_)))
    ));
    assert!(matches!(
        Opcode::decode_op(0x8123),
        Ok(Opcode::TwoArg(TwoArg::VxXOREqVy(_)))
    ));
    assert!(matches!(
        Opcode::decode_op(0x8124),
        Ok(Opcode::TwoArg(TwoArg::VxPlusEqVySetF(_)))
    ));
    assert!(matches!(
        Opcode::decode_op(0x8125),
        Ok(Opcode::TwoArg(TwoArg::VxSubEqVySetF(_)))
    ));
    // The named boundary: 8XY6 is a shift, never the 8XY0 register move.
    assert!(matches!(
        Opcode::decode_op(0x8126),
        Ok(Opcode::TwoArg(TwoArg::ShiftVxR(_)))
    ));
    assert!(matches!(
        Opcode::decode_op(0x8127),
        Ok(Opcode::TwoArg(TwoArg::VxEqVySubVxSetF(_)))
    ));
    assert!(matches!(
        Opcode::decode_op(0x812E),
        Ok(Opcode::TwoArg(TwoArg::ShiftVxL(_)))
    ));
    assert!(matches!(
        Opcode::decode_op(0x9120),
        Ok(Opcode::TwoArg(TwoArg::SkipVxNEqVy(_)))
    ));
    assert!(matches!(
        Opcode::decode_op(0xA123),
        Ok(Opcode::ThreeArg(ThreeArg::SetIToNNN(t))) if t.to_addr() == 0x123
    ));
    assert!(matches!(
        Opcode::decode_op(0xB123),
        Ok(Opcode::ThreeArg(ThreeArg::PCEqNNNPlusV0(_)))
    ));
    assert!(matches!(
        Opcode::decode_op(0xC177),
        Ok(Opcode::ThreeArg(ThreeArg::VxEqRandANDKK(_)))
    ));
    assert!(matches!(
        Opcode::decode_op(0xD125),
        Ok(Opcode::ThreeArg(ThreeArg::DrawVxVyNib(t))) if t.last_nybble() == 5
    ));
    assert!(matches!(
        Opcode::decode_op(0xE19E),
        Ok(Opcode::OneArg(OneArg::SkipIfVx(n))) if n.to_u8() == 1
    ));
    assert!(matches!(
        Opcode::decode_op(0xE1A1),
        Ok(Opcode::OneArg(OneArg::SkipIfNVx(_)))
    ));
    assert!(matches!(
        Opcode::decode_op(0xF107),
        Ok(Opcode::OneArg(OneArg::SetVxDT(_)))
    ));
    assert!(matches!(
        Opcode::decode_op(0xF10A),
        Ok(Opcode::OneArg(OneArg::WaitForKey(n))) if n.to_u8() == 1
    ));
    assert!(matches!(
        Opcode::decode_op(0xF115),
        Ok(Opcode::OneArg(OneArg::SetDT(_)))
    ));
    assert!(matches!(
        Opcode::decode_op(0xF118),
        Ok(Opcode::OneArg(OneArg::SetST(_)))
    ));
    assert!(matches!(
        Opcode::decode_op(0xF11E),
        Ok(Opcode::OneArg(OneArg::SetI(_)))
    ));
    assert!(matches!(
        Opcode::decode_op(0xF129),
        Ok(Opcode::OneArg(OneArg::SetSpriteI(_)))
    ));
    assert!(matches!(
        Opcode::decode_op(0xF133),
        Ok(Opcode::OneArg(OneArg::StoreDecVx(_)))
    ));
    assert!(matches!(
        Opcode::decode_op(0xF155),
        Ok(Opcode::OneArg(OneArg::StoreV0Vx(_)))
    ));
    assert!(matches!(
        Opcode::decode_op(0xF165),
        Ok(Opcode::OneArg(OneArg::ReadV0Vx(n))) if n.to_u8() == 1
    ));
}

#[test]
fn decode_rejects_unknown_words() {
    for w in [0x5001u16, 0x8008, 0x800F, 0x9005, 0xE000, 0xE1FF, 0xF100, 0xFFFF] {
        assert_eq!(Opcode::decode_op(w), Err(InvalidOpcode::DoesntExist(w)));
    }
}
