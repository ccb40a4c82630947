use std::time::Duration;

use chip8_core::instruction::Instruction;
use chip8_core::interpreter::MyInterpreter;
use chip8_core::nibble::{Datum, Nibble};

fn vm() -> MyInterpreter {
    MyInterpreter::new(Duration::new(0, 200_000_000))
}

#[test]
fn decode_nop() {
    assert_eq!(vm().decode((0x00, 0x00)), Some(Instruction::Nop));
}

#[test]
fn decode_clear_screen() {
    assert_eq!(vm().decode((0x00, 0xE0)), Some(Instruction::ClearScreen));
}

#[test]
fn decode_return_is_unimplemented() {
    // 0x00EE, the reserved subroutine return, is a decode failure here
    assert_eq!(vm().decode((0x00, 0xEE)), None);
}

#[test]
fn decode_jump() {
    assert_eq!(
        vm().decode((0x12, 0x34)),
        Some(Instruction::Jump(Datum(0x234)))
    );
}

#[test]
fn decode_load() {
    assert_eq!(vm().decode((0x6A, 0x37)), Some(Instruction::Load(0xA, 0x37)));
}

#[test]
fn decode_add() {
    assert_eq!(vm().decode((0x7F, 0x01)), Some(Instruction::Add(0xF, 0x01)));
}

#[test]
fn decode_set_index() {
    assert_eq!(
        vm().decode((0xAF, 0xFF)),
        Some(Instruction::SetIndex(Datum(0xFFF)))
    );
}

#[test]
fn decode_draw() {
    assert_eq!(
        vm().decode((0xD1, 0x2F)),
        Some(Instruction::Draw(Nibble(1), Nibble(2), Nibble(0xF)))
    );
}

#[test]
fn decode_unrecognized_encodings() {
    let m = vm();
    assert_eq!(m.decode((0x81, 0x23)), None); // arithmetic family, unimplemented
    assert_eq!(m.decode((0x00, 0x01)), None); // 0x0nnn machine call, unused
    assert_eq!(m.decode((0x0E, 0xE0)), None);
    assert_eq!(m.decode((0xFF, 0xFF)), None);
    assert_eq!(m.decode((0x21, 0x00)), None); // subroutine call, unimplemented
}
