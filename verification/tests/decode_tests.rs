use chip8rs::keypad::{scan_key, Keypad};
use chip8rs::opcode::{decode, nibbles, Instruction};

#[test]
fn nibbles_are_big_endian() {
    assert_eq!(nibbles(0xD1, 0x2F), (0xD, 0x1, 0x2, 0xF));
    assert_eq!(nibbles(0x00, 0xE0), (0x0, 0x0, 0xE, 0x0));
}

#[test]
fn decodes_flow_control() {
    assert_eq!(decode(0x00, 0xE0), Some(Instruction::Cls));
    assert_eq!(decode(0x00, 0xEE), Some(Instruction::Ret));
    assert_eq!(decode(0x01, 0x23), Some(Instruction::Sys(0x123)));
    assert_eq!(decode(0x00, 0xE1), Some(Instruction::Sys(0x0E1)));
    assert_eq!(decode(0x1A, 0xBC), Some(Instruction::Jp(0xABC)));
    assert_eq!(decode(0x2F, 0xFF), Some(Instruction::Call(0xFFF)));
    assert_eq!(decode(0xB2, 0x00), Some(Instruction::JpV0(0x200)));
}

#[test]
fn decodes_skips_and_loads() {
    assert_eq!(decode(0x31, 0x42), Some(Instruction::SeByte(1, 0x42)));
    assert_eq!(decode(0x4F, 0x00), Some(Instruction::SneByte(0xF, 0x00)));
    assert_eq!(decode(0x51, 0x20), Some(Instruction::SeReg(1, 2)));
    assert_eq!(decode(0x91, 0x20), Some(Instruction::SneReg(1, 2)));
    assert_eq!(decode(0x64, 0x1A), Some(Instruction::LdByte(4, 0x1A)));
    assert_eq!(decode(0x7E, 0xFF), Some(Instruction::AddByte(0xE, 0xFF)));
    assert_eq!(decode(0xA1, 0x23), Some(Instruction::LdI(0x123)));
    assert_eq!(decode(0xC3, 0x0F), Some(Instruction::Rnd(3, 0x0F)));
    assert_eq!(decode(0xD1, 0x25), Some(Instruction::Drw(1, 2, 5)));
}

#[test]
fn decodes_arithmetic() {
    assert_eq!(decode(0x8A, 0xB0), Some(Instruction::LdReg(0xA, 0xB)));
    assert_eq!(decode(0x8A, 0xB1), Some(Instruction::Or(0xA, 0xB)));
    assert_eq!(decode(0x8A, 0xB2), Some(Instruction::And(0xA, 0xB)));
    assert_eq!(decode(0x8A, 0xB3), Some(Instruction::Xor(0xA, 0xB)));
    assert_eq!(decode(0x8A, 0xB4), Some(Instruction::AddReg(0xA, 0xB)));
    assert_eq!(decode(0x8A, 0xB5), Some(Instruction::Sub(0xA, 0xB)));
    assert_eq!(decode(0x8A, 0xB6), Some(Instruction::Shr(0xA, 0xB)));
    assert_eq!(decode(0x8A, 0xB7), Some(Instruction::Subn(0xA, 0xB)));
    assert_eq!(decode(0x8A, 0xBE), Some(Instruction::Shl(0xA, 0xB)));
}

#[test]
fn decodes_keys_and_misc() {
    assert_eq!(decode(0xE5, 0x9E), Some(Instruction::Skp(5)));
    assert_eq!(decode(0xE5, 0xA1), Some(Instruction::Sknp(5)));
    assert_eq!(decode(0xF5, 0x07), Some(Instruction::LdVxDt(5)));
    assert_eq!(decode(0xF5, 0x0A), Some(Instruction::LdVxK(5)));
    assert_eq!(decode(0xF5, 0x15), Some(Instruction::LdDtVx(5)));
    assert_eq!(decode(0xF5, 0x18), Some(Instruction::LdStVx(5)));
    assert_eq!(decode(0xF5, 0x1E), Some(Instruction::AddI(5)));
    assert_eq!(decode(0xF5, 0x29), Some(Instruction::LdF(5)));
    assert_eq!(decode(0xF5, 0x33), Some(Instruction::LdB(5)));
    assert_eq!(decode(0xF5, 0x55), Some(Instruction::StoreRegs(5)));
    assert_eq!(decode(0xF5, 0x65), Some(Instruction::LoadRegs(5)));
}

#[test]
fn rejects_undefined_words() {
    assert_eq!(decode(0xFF, 0xFF), None);
    assert_eq!(decode(0x51, 0x21), None);
    assert_eq!(decode(0x91, 0x2F), None);
    assert_eq!(decode(0x8A, 0xB8), None);
    assert_eq!(decode(0x8A, 0xBF), None);
    assert_eq!(decode(0xE5, 0x9F), None);
    assert_eq!(decode(0xE5, 0x00), None);
    assert_eq!(decode(0xF5, 0x00), None);
    assert_eq!(decode(0xF5, 0x66), None);
}

#[test]
fn every_word_decodes_to_registers_in_range() {
    let mut defined = 0usize;
    for hi in 0..=255u8 {
        for lo in 0..=255u8 {
            if decode(hi, lo).is_some() {
                defined += 1;
            }
        }
    }
    // 0x0..0x4, 0x6, 0x7, 0xA..0xD are total; 0x5 and 0x9 take one low
    // nibble of sixteen, 0x8 nine of sixteen, 0xE two low bytes and 0xF nine.
    let total = 11 * 4096 + 2 * 256 + 9 * 256 + 2 * 16 + 9 * 16;
    assert_eq!(defined, total);
}

#[test]
fn pad_is_scanned_row_by_row() {
    let order: Vec<u8> = (0..16).map(scan_key).collect();
    assert_eq!(
        order,
        vec![0x1, 0x2, 0x3, 0xC, 0x4, 0x5, 0x6, 0xD, 0x7, 0x8, 0x9, 0xE, 0xA, 0x0, 0xB, 0xF]
    );
    assert_eq!(scan_key(16), 0xF);
    assert_eq!(scan_key(usize::MAX), 0xF);
}

#[test]
fn keypad_press_and_release() {
    let mut pad = Keypad::new();
    assert_eq!(pad.first_pressed(), None);
    assert!(!pad.is_pressed(0x7));
    pad.press(0x7);
    assert!(pad.is_pressed(0x7));
    assert_eq!(pad.first_pressed(), Some(0x7));
    pad.press(0x10);
    pad.press(0xFF);
    assert!(!pad.is_pressed(0x10));
    assert!(!pad.is_pressed(0xFF));
    pad.release(0x7);
    assert!(!pad.is_pressed(0x7));
    assert_eq!(pad.first_pressed(), None);
}

#[test]
fn first_pressed_follows_the_pad_layout() {
    let mut pad = Keypad::new();
    pad.press(0x0);
    pad.press(0xF);
    assert_eq!(pad.first_pressed(), Some(0x0));
    pad.press(0xC);
    assert_eq!(pad.first_pressed(), Some(0xC));
    pad.press(0x1);
    assert_eq!(pad.first_pressed(), Some(0x1));
    pad.release(0x1);
    pad.release(0xC);
    pad.release(0x0);
    assert_eq!(pad.first_pressed(), Some(0xF));
}
