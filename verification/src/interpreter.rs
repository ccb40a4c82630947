//! The machine state and the fetch-decode-execute pipeline that advances it
//! one instruction per step.

use vstd::prelude::*;

verus! {

use std::time::Duration;
use crate::display::{Display, Pixel, all_unlit, clear_fb, lemma_all_unlit_is_clear};
use crate::draw::{draw_changes, draw_collision, draw_fb, draw_sprite, lemma_draw_changes_iff};
use crate::instruction::{Address, Instruction, lemma_decode_wf, spec_decode};
use crate::nibble::nibbles;

/// The mathematical model of the machine: every register and cell as a plain
/// value. The configured clock speed is not part of it, since no instruction
/// reads or writes it.
#[verifier::ext_equal]
pub struct VmState {
    pub display: Seq<Pixel>,
    pub memory: Seq<u8>,
    pub regs: Seq<u8>,
    pub reg_sound: u8,
    pub reg_display: u8,
    pub index: u16,
    pub pc: u16,
    pub sp: u8,
}

impl VmState {
    /// Sizes of the machine's stores: 4096 memory cells, 16 registers, one
    /// pixel per screen position.
    pub open spec fn wf(self) -> bool {
        &&& self.display.len() == 2048
        &&& self.memory.len() == 4096
        &&& self.regs.len() == 16
    }
}

/// 8-bit modular addition: overflow silently wraps.
pub open spec fn wrap_add(v: u8, k: u8) -> u8 {
    ((v + k) % 256) as u8
}

/// What one instruction does to the machine: the executor's contract is
/// stated against this transition function.
pub open spec fn spec_execute(s: VmState, inst: Instruction) -> VmState {
    match inst {
        Instruction::Nop => s,
        Instruction::ClearScreen => VmState { display: clear_fb(), ..s },
        Instruction::Jump(d) => VmState { pc: d.0, ..s },
        Instruction::Load(reg, val) => VmState { regs: s.regs.update(reg as int, val), ..s },
        Instruction::Add(reg, val) => VmState {
            regs: s.regs.update(reg as int, wrap_add(s.regs[reg as int], val)),
            ..s
        },
        Instruction::SetIndex(d) => VmState { index: d.0, ..s },
        Instruction::Draw(x, y, n) => {
            let vx = s.regs[x.0 as int];
            let vy = s.regs[y.0 as int];
            let collision = draw_collision(s.display, s.memory, s.index as int, vx, vy, n.0 as int);
            VmState {
                display: draw_fb(s.display, s.memory, s.index as int, vx, vy, n.0 as int),
                regs: s.regs.update(
                    0xF,
                    if collision {
                        1u8
                    } else {
                        0u8
                    },
                ),
                ..s
            }
        },
    }
}

/// Fetching advances the program counter by exactly 2; jumps overwrite it
/// afterwards, in execution.
pub open spec fn spec_fetched(s: VmState) -> VmState {
    VmState { pc: (s.pc + 2) as u16, ..s }
}

/// When a step can run to completion: the two instruction bytes lie in
/// memory, the word decodes, and a sprite to be drawn lies in memory too.
pub open spec fn step_wf(s: VmState) -> bool {
    &&& s.pc + 1 < 4096
    &&& spec_decode(s.memory[s.pc as int], s.memory[s.pc as int + 1]) is Some
    &&& (spec_decode(s.memory[s.pc as int], s.memory[s.pc as int + 1]) matches Some(
        Instruction::Draw(_x, _y, n),
    ) ==> s.index + n.0 <= 4096)
}

/// What one whole tick does to the machine: fetch the word at the program
/// counter, advance the counter by 2, then execute the decoded instruction.
/// For a word that does not decode it is just the fetch; `step` excludes
/// that case and `try_step` reports it as an error without stepping.
pub open spec fn spec_step(s: VmState) -> VmState {
    match spec_decode(s.memory[s.pc as int], s.memory[s.pc as int + 1]) {
        Some(inst) => spec_execute(spec_fetched(s), inst),
        None => spec_fetched(s),
    }
}

/// Why a tick cannot run, by priority: the program counter is checked first,
/// then the encoding, then the sprite read.
pub open spec fn spec_step_error(s: VmState) -> StepError {
    if s.pc + 1 >= 4096 {
        StepError::PcOutOfBounds
    } else if spec_decode(s.memory[s.pc as int], s.memory[s.pc as int + 1]) is None {
        StepError::UnknownInstruction
    } else {
        StepError::SpriteOutOfBounds
    }
}

/// The machine as created at startup: zeroed stores, program counter at
/// 0x200, blank screen.
pub open spec fn initial_state() -> VmState {
    VmState {
        display: clear_fb(),
        memory: Seq::new(4096, |k: int| 0u8),
        regs: Seq::new(16, |k: int| 0u8),
        reg_sound: 0,
        reg_display: 0,
        index: 0,
        pc: 0x200,
        sp: 0,
    }
}

/// How many program bytes loading copies: all of them, truncated to the
/// space above 0x200.
pub open spec fn load_count(prog_len: int) -> int {
    if prog_len <= 3584 {
        prog_len
    } else {
        3584
    }
}

/// Memory after a program is copied in starting at address 0x200.
pub open spec fn loaded_memory(mem: Seq<u8>, prog: Seq<u8>) -> Seq<u8> {
    Seq::new(
        4096,
        |k: int|
            if 0x200 <= k < 0x200 + load_count(prog.len() as int) {
                prog[k - 0x200]
            } else {
                mem[k]
            },
    )
}

/// Why a `try_step` failed; the machine state is untouched on failure.
#[derive(Clone, Copy, Debug, PartialEq, Eq, Structural)]
pub enum StepError {
    /// The program counter leaves no room for a 2-byte word below 4096.
    PcOutOfBounds,
    /// The word at the program counter matches no opcode pattern of this
    /// core revision.
    UnknownInstruction,
    /// A sprite read through the index register would run past memory.
    SpriteOutOfBounds,
}

/// The CHIP-8 virtual machine: memory, register file, index register,
/// program counter, timers and framebuffer, stepped by the host at a fixed
/// cadence.
pub struct MyInterpreter {
    pub display: Display,
    pub memory: Vec<u8>,
    pub reg_general: Vec<u8>,
    pub reg_sound: u8,
    pub reg_display: u8,
    pub index: u16,
    pub pc: Address,
    pub sp: u8,
    pub clock: Duration,
}

impl View for MyInterpreter {
    type V = VmState;

    open spec fn view(&self) -> VmState {
        VmState {
            display: self.display@,
            memory: self.memory@,
            regs: self.reg_general@,
            reg_sound: self.reg_sound,
            reg_display: self.reg_display,
            index: self.index,
            pc: self.pc,
            sp: self.sp,
        }
    }
}

/// A vector of `n` zero bytes.
#[verifier::loop_isolation(false)]
fn zeroed(n: usize) -> (v: Vec<u8>)
    ensures
        v@ == Seq::new(n as nat, |k: int| 0u8),
{
    let mut v: Vec<u8> = Vec::new();
    let mut k: usize = 0;
    while k < n
        invariant
            k <= n,
            v@.len() == k,
            forall|t: int| 0 <= t < k ==> v@[t] == 0u8,
        decreases n - k,
    {
        v.push(0);
        k = k + 1;
    }
    proof {
        assert(v@ =~= Seq::new(n as nat, |k: int| 0u8));
    }
    v
}

impl MyInterpreter {
    /// The machine is well formed when its stores have their fixed sizes;
    /// construction establishes this and every step preserves it.
    pub open spec fn wf(&self) -> bool {
        self@.wf()
    }

    /// A fresh machine with zeroed memory and registers, the program counter
    /// at 0x200 and a blank screen, to be stepped every `clock` interval.
    pub fn new(clock: Duration) -> (r: Self)
        ensures
            r.wf(),
            r@ == initial_state(),
            r.clock == clock,
    {
        let r = MyInterpreter {
            display: Display::new(),
            memory: zeroed(4096),
            reg_general: zeroed(16),
            reg_sound: 0,
            reg_display: 0,
            index: 0,
            pc: 0x200,
            sp: 0,
            clock,
        };
        proof {
            assert(r@ =~= initial_state());
        }
        r
    }

    /// Copies a program into memory starting at address 0x200, truncated to
    /// fit within the remaining address space; loading is otherwise the
    /// loader's responsibility.
    #[verifier::loop_isolation(false)]
    pub fn load(&mut self, prog: &Vec<u8>)
        requires
            old(self).wf(),
        ensures
            final(self).wf(),
            final(self)@ == (VmState {
                memory: loaded_memory(old(self)@.memory, prog@),
                ..old(self)@
            }),
            final(self).clock == old(self).clock,
    {
        let count = if prog.len() > 3584 {
            3584
        } else {
            prog.len()
        };
        let mut k: usize = 0;
        while k < count
            invariant
                k <= count,
                self.memory@.len() == 4096,
                forall|t: int| 0 <= t < k ==> self.memory@[0x200 + t] == prog@[t],
                forall|t: int|
                    0 <= t < 4096 && !(0x200 <= t < 0x200 + k) ==> self.memory@[t] == old(
                        self,
                    )@.memory[t],
                self.display == old(self).display,
                self.reg_general == old(self).reg_general,
                self.reg_sound == old(self).reg_sound,
                self.reg_display == old(self).reg_display,
                self.index == old(self).index,
                self.pc == old(self).pc,
                self.sp == old(self).sp,
                self.clock == old(self).clock,
            decreases count - k,
        {
            self.memory[0x200 + k] = prog[k];
            k = k + 1;
        }
        proof {
            assert(self.memory@ =~= loaded_memory(old(self)@.memory, prog@));
            assert(self@ =~= (VmState {
                memory: loaded_memory(old(self)@.memory, prog@),
                ..old(self)@
            }));
        }
    }

    /// Reads the 2-byte word at the program counter and advances the counter
    /// by 2 unconditionally; jumps overwrite it afterwards, in execution.
    fn fetch(&mut self) -> (r: (u8, u8))
        requires
            old(self).wf(),
            old(self).pc + 1 < 4096,
        ensures
            final(self).wf(),
            r.0 == old(self)@.memory[old(self).pc as int],
            r.1 == old(self)@.memory[old(self).pc as int + 1],
            final(self)@ == spec_fetched(old(self)@),
            final(self).clock == old(self).clock,
    {
        let b0 = self.memory[self.pc as usize];
        let b1 = self.memory[self.pc as usize + 1];
        self.pc = self.pc + 2;
        proof {
            assert(self@ =~= spec_fetched(old(self)@));
        }
        (b0, b1)
    }

    /// Maps a raw 2-byte instruction word to its decoded instruction, or
    /// `None` for an encoding this core revision does not implement.
    pub fn decode(&self, bytes: (u8, u8)) -> (r: Option<Instruction>)
        ensures
            r == spec_decode(bytes.0, bytes.1),
            r matches Some(inst) ==> inst.wf(),
    {
        proof {
            lemma_decode_wf(bytes.0, bytes.1);
        }
        let (n0, n1) = nibbles(bytes.0);
        let (n2, n3) = nibbles(bytes.1);
        match n0.val() {
            0 => match (n1.val(), n2.val()) {
                (0, 0xE) => match n3.val() {
                    0 => Some(Instruction::ClearScreen),
                    _ => None,
                },
                (0, 0) => match n3.val() {
                    0 => Some(Instruction::Nop),
                    _ => None,
                },
                _ => None,
            },
            1 => match crate::nibble::Datum::from_nibbles(n1, n2, n3) {
                Some(d) => Some(Instruction::Jump(d)),
                None => None,
            },
            6 => Some(Instruction::Load(n1.val() as Address, bytes.1)),
            7 => Some(Instruction::Add(n1.val() as Address, bytes.1)),
            0xA => match crate::nibble::Datum::from_nibbles(n1, n2, n3) {
                Some(d) => Some(Instruction::SetIndex(d)),
                None => None,
            },
            0xD => Some(Instruction::Draw(n1, n2, n3)),
            _ => None,
        }
    }

    /// Applies one instruction to the machine. Returns the updated
    /// framebuffer exactly when the instruction changed it, so a host must
    /// not redraw on `None`.
    pub fn execute(&mut self, instruction: Instruction) -> (r: Option<Display>)
        requires
            old(self).wf(),
            instruction.wf(),
            instruction matches Instruction::Draw(_x, _y, n) ==> old(self).index + n.0 <= 4096,
        ensures
            final(self).wf(),
            final(self)@ == spec_execute(old(self)@, instruction),
            final(self).clock == old(self).clock,
            r is Some <==> final(self)@.display != old(self)@.display,
            r matches Some(d) ==> d@ == final(self)@.display,
    {
        match instruction {
            Instruction::Nop => None,
            Instruction::ClearScreen => {
                let was_lit = self.display.any_lit();
                self.display.clear();
                proof {
                    lemma_all_unlit_is_clear(old(self)@.display);
                    assert(self@ =~= spec_execute(old(self)@, instruction));
                }
                if was_lit {
                    Some(self.display.snapshot())
                } else {
                    None
                }
            },
            Instruction::Jump(d) => {
                self.pc = d.val();
                proof {
                    assert(self@ =~= spec_execute(old(self)@, instruction));
                }
                None
            },
            Instruction::Load(reg, val) => {
                self.reg_general[reg as usize] = val;
                proof {
                    assert(self@ =~= spec_execute(old(self)@, instruction));
                }
                None
            },
            Instruction::Add(reg, val) => {
                let cur = self.reg_general[reg as usize];
                let sum = cur.wrapping_add(val);
                proof {
                    if cur + val > 255 {
                        vstd::arithmetic::div_mod::lemma_mod_multiples_vanish(
                            1,
                            cur + val - 256,
                            256,
                        );
                        vstd::arithmetic::div_mod::lemma_small_mod((cur + val - 256) as nat, 256);
                    } else {
                        vstd::arithmetic::div_mod::lemma_small_mod((cur + val) as nat, 256);
                    }
                    assert(sum == wrap_add(cur, val));
                }
                self.reg_general[reg as usize] = sum;
                proof {
                    assert(self@ =~= spec_execute(old(self)@, instruction));
                }
                None
            },
            Instruction::SetIndex(d) => {
                self.index = d.val();
                proof {
                    assert(self@ =~= spec_execute(old(self)@, instruction));
                }
                None
            },
            Instruction::Draw(x, y, n) => {
                let vx = self.reg_general[x.val() as usize];
                let vy = self.reg_general[y.val() as usize];
                let (collision, changed) = draw_sprite(
                    &mut self.display,
                    &self.memory,
                    self.index,
                    vx,
                    vy,
                    n.val(),
                );
                self.reg_general[15] = if collision {
                    1
                } else {
                    0
                };
                proof {
                    lemma_draw_changes_iff(
                        old(self)@.display,
                        old(self)@.memory,
                        old(self).index as int,
                        vx,
                        vy,
                        n.0 as int,
                    );
                    assert(self@ =~= spec_execute(old(self)@, instruction));
                }
                if changed {
                    Some(self.display.snapshot())
                } else {
                    None
                }
            },
        }
    }

    /// One fetch-decode-execute tick: the per-tick operation the host event
    /// loop calls. The keypad state is accepted but unread, since no
    /// key-reading opcode is implemented in this revision. Returns the new
    /// framebuffer exactly when drawing state changed this step.
    pub fn step(&mut self, keys: &[bool; 16]) -> (r: Option<Display>)
        requires
            old(self).wf(),
            step_wf(old(self)@),
        ensures
            final(self).wf(),
            final(self)@ == spec_step(old(self)@),
            final(self).clock == old(self).clock,
            r is Some <==> final(self)@.display != old(self)@.display,
            r matches Some(d) ==> d@ == final(self)@.display,
    {
        let bytes = self.fetch();
        let decoded = self.decode(bytes);
        let instruction = match decoded {
            Some(inst) => inst,
            None => {
                proof {
                    assert(false);
                }
                Instruction::Nop
            },
        };
        self.execute(instruction)
    }

    /// One tick that reports failure instead of demanding a steppable state:
    /// on any error the machine is left untouched, so a fatal condition is
    /// surfaced to the host loudly rather than half-executed.
    pub fn try_step(&mut self, keys: &[bool; 16]) -> (r: Result<Option<Display>, StepError>)
        requires
            old(self).wf(),
        ensures
            final(self).wf(),
            final(self).clock == old(self).clock,
            r is Ok <==> step_wf(old(self)@),
            r matches Ok(o) ==> final(self)@ == spec_step(old(self)@)
                && (o is Some <==> final(self)@.display != old(self)@.display)
                && (o matches Some(d) ==> d@ == final(self)@.display),
            r is Err ==> *final(self) == *old(self),
            r matches Err(e) ==> e == spec_step_error(old(self)@),
    {
        if self.pc > 4094 {
            return Err(StepError::PcOutOfBounds);
        }
        let b0 = self.memory[self.pc as usize];
        let b1 = self.memory[self.pc as usize + 1];
        match self.decode((b0, b1)) {
            None => Err(StepError::UnknownInstruction),
            Some(inst) => {
                let sprite_ok = match inst {
                    Instruction::Draw(_x, _y, n) => (self.index as usize) + (n.val() as usize)
                        <= 4096,
                    _ => true,
                };
                if sprite_ok {
                    Ok(self.step(keys))
                } else {
                    Err(StepError::SpriteOutOfBounds)
                }
            },
        }
    }

    /// The configured tick interval, so the host can schedule steps at the
    /// correct rate.
    pub fn speed(&self) -> (r: Duration)
        ensures
            r == self.clock,
    {
        self.clock
    }

    /// Whether the buzzer should currently sound: always false until the
    /// timer-driven sound opcode is implemented.
    pub fn buzzer_active(&self) -> (r: bool)
        ensures
            r == false,
    {
        false
    }
}

} // verus!
