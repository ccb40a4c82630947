use std::time::Duration;

use chip8_core::display::Display;
use chip8_core::instruction::Instruction;
use chip8_core::interpreter::MyInterpreter;
use chip8_core::nibble::{Datum, Nibble};

fn vm() -> MyInterpreter {
    MyInterpreter::new(Duration::new(0, 200_000_000))
}

#[test]
fn new_machine_starts_blank() {
    let m = vm();
    assert_eq!(m.pc, 0x200);
    assert_eq!(m.index, 0);
    assert_eq!(m.sp, 0);
    assert_eq!(m.memory.len(), 4096);
    assert!(m.memory.iter().all(|&b| b == 0));
    assert_eq!(m.reg_general.len(), 16);
    assert!(m.reg_general.iter().all(|&v| v == 0));
    assert!(!m.display.any_lit());
    assert_eq!(m.speed(), Duration::new(0, 200_000_000));
    assert!(!m.buzzer_active());
}

#[test]
fn load_writes_at_0x200() {
    let mut m = vm();
    m.load(&vec![0xDE, 0xAD, 0xBE, 0xEF]);
    assert_eq!(m.memory[0x1FF], 0);
    assert_eq!(m.memory[0x200], 0xDE);
    assert_eq!(m.memory[0x203], 0xEF);
    assert_eq!(m.memory[0x204], 0);
}

#[test]
fn load_truncates_to_address_space() {
    let mut m = vm();
    // 4000 bytes offered, only 4096 - 0x200 = 3584 fit
    m.load(&vec![0x77; 4000]);
    assert_eq!(m.memory[0x200], 0x77);
    assert_eq!(m.memory[4095], 0x77);
    assert_eq!(m.memory.len(), 4096);
}

#[test]
fn execute_nop_changes_nothing() {
    let mut m = vm();
    let r = m.execute(Instruction::Nop);
    assert!(r.is_none());
    assert_eq!(m.pc, 0x200);
    assert!(m.reg_general.iter().all(|&v| v == 0));
}

#[test]
fn execute_jump_sets_pc_exactly() {
    let mut m = vm();
    let inst = m.decode((0x12, 0x34)).unwrap();
    let r = m.execute(inst);
    // PC is 0x234 exactly, not 0x1234
    assert_eq!(m.pc, 0x234);
    assert!(r.is_none());
}

#[test]
fn execute_load_overwrites_register() {
    let mut m = vm();
    m.execute(Instruction::Load(3, 0xAB));
    assert_eq!(m.reg_general[3], 0xAB);
    m.execute(Instruction::Load(3, 0x01));
    assert_eq!(m.reg_general[3], 0x01);
}

#[test]
fn execute_add_wraps_and_spares_vf() {
    let mut m = vm();
    m.execute(Instruction::Load(0xF, 0x5A));
    // for all v, k in 0..=255: v + k wraps modulo 256 and VF keeps its value
    for v in 0u16..256 {
        for k in 0u16..256 {
            m.execute(Instruction::Load(2, v as u8));
            m.execute(Instruction::Add(2, k as u8));
            assert_eq!(m.reg_general[2] as u16, (v + k) % 256);
            assert_eq!(m.reg_general[0xF], 0x5A);
        }
    }
}

#[test]
fn execute_add_concrete_wrap() {
    let mut m = vm();
    m.execute(Instruction::Load(0, 250));
    let r = m.execute(Instruction::Add(0, 10));
    assert_eq!(m.reg_general[0], 4);
    assert_eq!(m.reg_general[0xF], 0);
    assert!(r.is_none());
}

#[test]
fn execute_set_index() {
    let mut m = vm();
    m.execute(Instruction::SetIndex(Datum(0xFFF)));
    assert_eq!(m.index, 0xFFF);
}

#[test]
fn clear_screen_is_idempotent() {
    let mut m = vm();
    // light some pixels first
    m.load(&vec![0xFF]);
    m.execute(Instruction::SetIndex(Datum(0x200)));
    m.execute(Instruction::Draw(Nibble(0), Nibble(0), Nibble(1)));
    assert!(m.display.any_lit());

    let once = m.execute(Instruction::ClearScreen);
    let after_once = m.display.snapshot();
    let twice = m.execute(Instruction::ClearScreen);
    let after_twice = m.display.snapshot();

    assert!(!m.display.any_lit());
    assert_eq!(after_once, after_twice);
    assert_eq!(after_once, Display::new());
    // the screen changed the first time, so a framebuffer was handed back;
    // the second clear changed nothing and hands back none
    assert!(once.is_some());
    assert!(twice.is_none());
}
