use std::time::Duration;

use chip8_core::instruction::Instruction;
use chip8_core::interpreter::{MyInterpreter, StepError};
use chip8_core::nibble::{Datum, Nibble};

const KEYS: [bool; 16] = [false; 16];

fn vm() -> MyInterpreter {
    MyInterpreter::new(Duration::new(0, 200_000_000))
}

#[test]
fn step_fetches_at_pc_and_advances_by_two() {
    let mut m = vm();
    m.load(&vec![0x00, 0x00, 0x63, 0x2A]);
    let r = m.step(&KEYS);
    assert_eq!(m.pc, 0x202);
    assert!(r.is_none()); // Nop leaves the screen alone
    m.step(&KEYS);
    assert_eq!(m.pc, 0x204);
    assert_eq!(m.reg_general[3], 0x2A);
}

#[test]
fn step_decodes_clear_screen_end_to_end() {
    // memory bytes [0x00, 0xE0] at PC decode to ClearScreen, and executing
    // them on a framebuffer with lit pixels yields an all-unlit framebuffer
    let mut m = vm();
    m.load(&vec![0x00, 0xE0]);
    m.execute(Instruction::SetIndex(Datum(0x200)));
    m.execute(Instruction::Draw(Nibble(0), Nibble(0), Nibble(2)));
    assert!(m.display.any_lit());
    let r = m.step(&KEYS);
    assert!(!m.display.any_lit());
    assert!(r.is_some());
    assert!(!r.unwrap().any_lit());
}

#[test]
fn two_steps_accumulate_into_v0() {
    // [0x60, 0x0A] then [0x70, 0x05] at successive PCs leave V0 == 15
    let mut m = vm();
    m.load(&vec![0x60, 0x0A, 0x70, 0x05]);
    m.step(&KEYS);
    assert_eq!(m.reg_general[0], 0x0A);
    m.step(&KEYS);
    assert_eq!(m.reg_general[0], 15);
    assert_eq!(m.pc, 0x204);
}

#[test]
fn step_executes_jump() {
    // decoding word 0x1234 then executing it sets PC to 0x234 exactly
    let mut m = vm();
    m.load(&vec![0x12, 0x34]);
    let decoded = m.decode((0x12, 0x34));
    assert_eq!(decoded, Some(Instruction::Jump(Datum(0x234))));
    m.step(&KEYS);
    assert_eq!(m.pc, 0x234);
}

#[test]
fn try_step_matches_step_on_success() {
    let mut m = vm();
    m.load(&vec![0x6B, 0x11]);
    let r = m.try_step(&KEYS);
    assert!(matches!(r, Ok(None)));
    assert_eq!(m.reg_general[0xB], 0x11);
    assert_eq!(m.pc, 0x202);
}

#[test]
fn try_step_rejects_unknown_instruction() {
    let mut m = vm();
    m.load(&vec![0x81, 0x23]);
    let r = m.try_step(&KEYS);
    assert_eq!(r, Err(StepError::UnknownInstruction));
    // fatal to the step: no partial execution, the counter stays put
    assert_eq!(m.pc, 0x200);
}

#[test]
fn try_step_rejects_pc_out_of_bounds() {
    let mut m = vm();
    m.load(&vec![0x1F, 0xFF]); // jump to 0xFFF, the last memory cell
    m.step(&KEYS);
    assert_eq!(m.pc, 0xFFF);
    let r = m.try_step(&KEYS);
    assert_eq!(r, Err(StepError::PcOutOfBounds));
    assert_eq!(m.pc, 0xFFF);
}

#[test]
fn try_step_rejects_sprite_past_memory() {
    let mut m = vm();
    // set the index register to 0xFFF, then draw 15 rows from it
    m.load(&vec![0xAF, 0xFF, 0xD0, 0x1F]);
    let first = m.try_step(&KEYS);
    assert!(matches!(first, Ok(None)));
    assert_eq!(m.index, 0xFFF);
    let second = m.try_step(&KEYS);
    assert_eq!(second, Err(StepError::SpriteOutOfBounds));
    assert_eq!(m.pc, 0x202);
}

#[test]
fn speed_reports_the_configured_clock() {
    let m = MyInterpreter::new(Duration::new(1, 5));
    assert_eq!(m.speed(), Duration::new(1, 5));
}

#[test]
fn buzzer_stays_silent() {
    let mut m = vm();
    assert!(!m.buzzer_active());
    m.load(&vec![0x60, 0x0A]);
    m.step(&KEYS);
    assert!(!m.buzzer_active());
}
