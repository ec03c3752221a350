//! The machine: all mutable state of the interpreter and the operations
//! the driver calls on it.
//!
//! Every public operation is specified against [`MachineState`], a
//! mathematical image of the machine: plain sequences and integers in
//! place of arrays and buffers.  The well-formedness predicate
//! [`MachineState::wf`] is established by the constructor and preserved by
//! every operation.
//!
//! Addressing policy: memory addresses, the program counter and the index
//! register are 12-bit values.  Every address computation (the program
//! counter step, index arithmetic, memory-indexed reads and writes)
//! reduces modulo 4096, so no memory access is ever out of range.

use vstd::prelude::*;
use crate::display::{
    lemma_collision_row_step, lemma_draw_row_clipped, lemma_draw_row_step, lemma_draw_zero,
    lemma_row_bit_step, row_addr, spec_draw, spec_draw_collision, spec_draw_row,
    spec_row_collision,
};
use crate::error::{CycleOutcome, ErrorKind};
use crate::instruction::{
    is_arith_instruction, is_control_instruction, is_memory_instruction, is_register_instruction,
    wf_instruction,
    Instruction,
};
use crate::instruction::spec_decode;
use crate::step::{
    spec_advance, spec_beep, spec_cycle, spec_fetch, spec_load_regs, spec_skip, spec_step_instr,
    spec_store_regs, spec_tick, wrap8,
};

verus! {

/// The 64x32 monochrome framebuffer, indexed `buffer[row][column]`.
pub type DisplayBuffer = [[bool; 64]; 32];

/// The CHIP-8 virtual machine.
///
/// Constructed once with the font pre-seeded and the program counter at
/// 0x200; a ROM is then loaded and the driver runs one cycle at a time.
pub struct Chip8 {
    memory: [u8; 4096],
    program_counter: u16,
    display_buffer: DisplayBuffer,
    stack: Vec<u16>,
    registers: [u8; 16],
    index_register: u16,
    keys: [bool; 16],
    delay_timer: u8,
    sound_timer: u8,
}

/// The mathematical image of a machine: what the contracts speak of.
///
/// The display is a sequence of 32 rows of 64 pixels each.
#[verifier::ext_equal]
pub struct MachineState {
    pub mem: Seq<u8>,
    pub pc: u16,
    pub disp: Seq<Seq<bool>>,
    pub stack: Seq<u16>,
    pub regs: Seq<u8>,
    pub index: u16,
    pub keys: Seq<bool>,
    pub delay: u8,
    pub sound: u8,
}

impl MachineState {
    /// Well-formedness: the buffers have their fixed sizes, the call stack
    /// respects its 16-entry bound, and every address the machine may jump
    /// to is a 12-bit value.
    pub open spec fn wf(self) -> bool {
        &&& self.mem.len() == 4096
        &&& self.disp.len() == 32
        &&& (forall|r: int| 0 <= r < 32 ==> (#[trigger] self.disp[r]).len() == 64)
        &&& self.regs.len() == 16
        &&& self.keys.len() == 16
        &&& self.stack.len() <= 16
        &&& (forall|k: int| 0 <= k < self.stack.len() ==> #[trigger] self.stack[k] < 4096)
        &&& self.pc < 4096
        &&& self.index < 4096
    }
}

impl View for Chip8 {
    type V = MachineState;

    closed spec fn view(&self) -> MachineState {
        MachineState {
            mem: self.memory@,
            pc: self.program_counter,
            disp: Seq::new(32, |r: int| self.display_buffer@[r]@),
            stack: self.stack@,
            regs: self.registers@,
            index: self.index_register,
            keys: self.keys@,
            delay: self.delay_timer,
            sound: self.sound_timer,
        }
    }
}

/// The built-in font: 16 glyphs for the hex digits, 5 bytes each, that
/// the constructor places at addresses 0 through 79.
pub open spec fn font_data() -> Seq<u8> {
    seq![
        0xF0u8, 0x90, 0x90, 0x90, 0xF0, // 0
        0x20, 0x60, 0x20, 0x20, 0x70, // 1
        0xF0, 0x10, 0xF0, 0x80, 0xF0, // 2
        0xF0, 0x10, 0xF0, 0x10, 0xF0, // 3
        0x90, 0x90, 0xF0, 0x10, 0x10, // 4
        0xF0, 0x80, 0xF0, 0x10, 0xF0, // 5
        0xF0, 0x80, 0xF0, 0x90, 0xF0, // 6
        0xF0, 0x10, 0x20, 0x40, 0x40, // 7
        0xF0, 0x90, 0xF0, 0x90, 0xF0, // 8
        0xF0, 0x90, 0xF0, 0x10, 0xF0, // 9
        0xF0, 0x90, 0xF0, 0x90, 0x90, // A
        0xE0, 0x90, 0xE0, 0x90, 0xE0, // B
        0xF0, 0x80, 0x80, 0x80, 0xF0, // C
        0xE0, 0x90, 0x90, 0x90, 0xE0, // D
        0xF0, 0x80, 0xF0, 0x80, 0xF0, // E
        0xF0, 0x80, 0xF0, 0x80, 0x80, // F
    ]
}

/// An all-dark display: 32 rows of 64 unlit pixels.
pub open spec fn blank_display() -> Seq<Seq<bool>> {
    Seq::new(32, |r: int| Seq::new(64, |c: int| false))
}

/// The state a machine is born in: font in low memory, everything else
/// zeroed, program counter at 0x200.
pub open spec fn init_state() -> MachineState {
    MachineState {
        mem: Seq::new(4096, |a: int| if 0 <= a < 80 { font_data()[a] } else { 0u8 }),
        pc: 0x200,
        disp: blank_display(),
        stack: Seq::empty(),
        regs: Seq::new(16, |x: int| 0u8),
        index: 0,
        keys: Seq::new(16, |x: int| false),
        delay: 0,
        sound: 0,
    }
}

/// The state after writing one byte of memory.
pub open spec fn spec_set_byte(s: MachineState, address: u16, value: u8) -> MachineState {
    MachineState { mem: s.mem.update(address as int, value), ..s }
}

/// The state after writing one general-purpose register.
pub open spec fn spec_set_reg(s: MachineState, index: u8, value: u8) -> MachineState {
    MachineState { regs: s.regs.update(index as int, value), ..s }
}

/// The state after a key press or release notification.
pub open spec fn spec_set_key(s: MachineState, index: u8, pressed: bool) -> MachineState {
    MachineState { keys: s.keys.update(index as int, pressed), ..s }
}

/// The same machine with only the display replaced.
pub open spec fn spec_with_disp(s: MachineState, disp: Seq<Seq<bool>>) -> MachineState {
    MachineState { disp: disp, ..s }
}

/// The state after a ROM of the given bytes is copied in at 0x200.
pub open spec fn spec_load_rom(s: MachineState, rom: Seq<u8>) -> MachineState {
    MachineState {
        mem: Seq::new(
            4096,
            |a: int| if 512 <= a < 512 + rom.len() { rom[a - 512] } else { s.mem[a] },
        ),
        ..s
    }
}

impl Chip8 {
    /// Construct a machine with the font pre-loaded, the program counter
    /// at 0x200, and all other state zeroed.
    pub fn new() -> (m: Chip8)
        ensures
            m@ == init_state(),
            m@.wf(),
    {
        let font = font_bytes();
        let mut memory: [u8; 4096] = [0; 4096];
        let mut k: usize = 0;
        while k < 80
            invariant
                font@ == font_data(),
                k <= 80,
                forall|a: int| 0 <= a < k ==> memory@[a] == font_data()[a],
                forall|a: int| k <= a < 4096 ==> memory@[a] == 0u8,
            decreases 80 - k,
        {
            memory[k] = font[k];
            k += 1;
        }
        let m = Chip8 {
            memory,
            program_counter: 0x200,
            display_buffer: [[false; 64]; 32],
            stack: Vec::new(),
            registers: [0; 16],
            index_register: 0,
            keys: [false; 16],
            delay_timer: 0,
            sound_timer: 0,
        };
        proof {
            assert(m@.mem =~= init_state().mem);
            assert(m@.disp =~~= init_state().disp);
            assert(m@.stack =~= init_state().stack);
            assert(m@.regs =~= init_state().regs);
            assert(m@.keys =~= init_state().keys);
            assert(m@ =~~= init_state());
        }
        m
    }

    /// Copy a ROM into memory starting at 0x200.  A ROM longer than the
    /// 3584 bytes of program memory is rejected whole; nothing below
    /// 0x200 (interpreter and font data) is ever touched.
    pub fn load_rom(&mut self, rom: Vec<u8>) -> (r: Result<(), ErrorKind>)
        requires
            old(self)@.wf(),
        ensures
            final(self)@.wf(),
            rom@.len() <= 3584 ==> r == Ok::<(), ErrorKind>(())
                && final(self)@ == spec_load_rom(old(self)@, rom@),
            rom@.len() > 3584 ==> r == Err::<(), ErrorKind>(ErrorKind::ProgramTooLarge)
                && final(self)@ == old(self)@,
    {
        if rom.len() > 3584 {
            return Err(ErrorKind::ProgramTooLarge);
        }
        let mut k: usize = 0;
        while k < rom.len()
            invariant
                old(self)@.wf(),
                rom@.len() <= 3584,
                k <= rom@.len(),
                self.program_counter == old(self).program_counter,
                self.display_buffer == old(self).display_buffer,
                self.stack == old(self).stack,
                self.registers == old(self).registers,
                self.index_register == old(self).index_register,
                self.keys == old(self).keys,
                self.delay_timer == old(self).delay_timer,
                self.sound_timer == old(self).sound_timer,
                forall|a: int| 512 <= a < 512 + k ==> self@.mem[a] == rom@[a - 512],
                forall|a: int| 0 <= a < 512 ==> self@.mem[a] == old(self)@.mem[a],
                forall|a: int| 512 + k <= a < 4096 ==> self@.mem[a] == old(self)@.mem[a],
            decreases rom@.len() - k,
        {
            let ghost prev = self@;
            self.memory[512 + k] = rom[k];
            proof {
                assert(self@.mem =~= prev.mem.update(512 + k as int, rom@[k as int]));
                assert forall|a: int| 512 <= a < 512 + (k + 1) implies self@.mem[a] == rom@[a
                    - 512] by {
                    if a < 512 + k {
                        assert(prev.mem[a] == rom@[a - 512]);
                    }
                }
            }
            k += 1;
        }
        proof {
            assert(self@ =~~= spec_load_rom(old(self)@, rom@));
        }
        Ok(())
    }

    /// Record that the driver saw key `index` pressed or released.
    /// An index outside the 16-key pad is rejected.
    pub fn set_key(&mut self, index: u8, pressed: bool) -> (r: Result<(), ErrorKind>)
        requires
            old(self)@.wf(),
        ensures
            final(self)@.wf(),
            index < 16 ==> r == Ok::<(), ErrorKind>(())
                && final(self)@ == spec_set_key(old(self)@, index, pressed),
            index >= 16 ==> r == Err::<(), ErrorKind>(ErrorKind::InvalidKeyIndex)
                && final(self)@ == old(self)@,
    {
        if index >= 16 {
            return Err(ErrorKind::InvalidKeyIndex);
        }
        self.keys[index as usize] = pressed;
        proof {
            assert(self@ =~~= spec_set_key(old(self)@, index, pressed));
        }
        Ok(())
    }

    /// A read-only copy of the current 64x32 pixel grid.
    pub fn get_display_buffer(&self) -> (d: DisplayBuffer)
        ensures
            forall|r: int, c: int|
                0 <= r < 32 && 0 <= c < 64 ==> #[trigger] d@[r]@[c] == self@.disp[r][c],
    {
        self.display_buffer
    }

    /// The byte at a memory address below 4096.
    pub fn get_byte_from_memory(&self, address: u16) -> (b: u8)
        requires
            address < 4096,
        ensures
            b == self@.mem[address as int],
    {
        self.memory[address as usize]
    }

    /// Overwrite the byte at a memory address below 4096.
    pub fn set_byte_in_memory(&mut self, address: u16, value: u8)
        requires
            address < 4096,
        ensures
            final(self)@ == spec_set_byte(old(self)@, address, value),
            old(self)@.wf() ==> final(self)@.wf(),
    {
        self.memory[address as usize] = value;
        proof {
            assert(self@ =~~= spec_set_byte(old(self)@, address, value));
        }
    }

    /// The value of register `Vindex`, for an index below 16.
    pub fn get_register_value(&self, index: u8) -> (v: u8)
        requires
            index < 16,
        ensures
            v == self@.regs[index as int],
    {
        self.registers[index as usize]
    }

    /// Overwrite register `Vindex`, for an index below 16.
    pub fn set_register_value(&mut self, index: u8, value: u8)
        requires
            index < 16,
        ensures
            final(self)@ == spec_set_reg(old(self)@, index, value),
            old(self)@.wf() ==> final(self)@.wf(),
    {
        self.registers[index as usize] = value;
        proof {
            assert(self@ =~~= spec_set_reg(old(self)@, index, value));
        }
    }

    /// Whether key `index` is currently held, for an index below 16.
    pub fn get_key_pressed(&self, index: u8) -> (p: bool)
        requires
            index < 16,
        ensures
            p == self@.keys[index as int],
    {
        self.keys[index as usize]
    }

    /// XOR-blit an `n`-row sprite read from memory at the index register
    /// onto the display at `(vx, vy)`, clipping at the right and bottom
    /// edges, and report whether any pixel was turned off.
    fn draw_sprite(&mut self, vx: u8, vy: u8, n: u8) -> (collision: bool)
        requires
            old(self)@.wf(),
            n < 16,
        ensures
            final(self)@.wf(),
            final(self)@ == spec_with_disp(
                old(self)@,
                spec_draw(
                    old(self)@.disp,
                    old(self)@.mem,
                    old(self)@.index,
                    vx,
                    vy,
                    n as int,
                ),
            ),
            collision == spec_draw_collision(
                old(self)@.disp,
                old(self)@.mem,
                old(self)@.index,
                vx,
                vy,
                n as int,
            ),
    {
        let ghost s0 = self@;
        let mut collision = false;
        let mut row: u8 = 0;
        proof {
            lemma_draw_zero(s0.disp, s0.mem, s0.index, vx, vy);
            assert(self@ =~~= spec_with_disp(s0, spec_draw(s0.disp, s0.mem, s0.index, vx, vy, 0)));
        }
        while row < n
            invariant
                s0.wf(),
                n < 16,
                row <= n,
                self@ == spec_with_disp(
                    s0,
                    spec_draw(s0.disp, s0.mem, s0.index, vx, vy, row as int),
                ),
                collision == spec_draw_collision(s0.disp, s0.mem, s0.index, vx, vy, row as int),
            decreases n - row,
        {
            let addr: u16 = (self.index_register + row as u16) % 4096;
            let byte = self.get_byte_from_memory(addr);
            proof {
                assert(byte == s0.mem[row_addr(s0.index, row as int)]);
            }
            let r_i: usize = vy as usize + row as usize;
            let ghost dstart = self@.disp;
            let ghost coll_start = collision;
            if r_i < 32 {
                let mut col: u8 = 0;
                proof {
                    assert(spec_draw_row(dstart, byte, vx, r_i as int, 0) =~~= dstart);
                }
                while col < 8
                    invariant
                        s0.wf(),
                        r_i < 32,
                        r_i == vy + row,
                        col <= 8,
                        byte == s0.mem[row_addr(s0.index, row as int)],
                        dstart == spec_draw(s0.disp, s0.mem, s0.index, vx, vy, row as int),
                        self@ == spec_with_disp(
                            s0,
                            spec_draw_row(dstart, byte, vx, r_i as int, col as int),
                        ),
                        collision == (coll_start || spec_row_collision(
                            dstart,
                            byte,
                            vx,
                            r_i as int,
                            col as int,
                        )),
                    decreases 8 - col,
                {
                    proof {
                        lemma_row_bit_step(dstart, byte, vx, r_i as int, col as int);
                    }
                    let c_i: usize = vx as usize + col as usize;
                    if c_i < 64 && (byte & (0x80u8 >> col)) != 0 {
                        let mut rowarr = self.display_buffer[r_i];
                        if rowarr[c_i] {
                            collision = true;
                        }
                        rowarr[c_i] = !rowarr[c_i];
                        self.display_buffer[r_i] = rowarr;
                        proof {
                            let dj = spec_draw_row(dstart, byte, vx, r_i as int, col as int);
                            assert(self@.disp =~~= dj.update(
                                r_i as int,
                                dj[r_i as int].update(c_i as int, !dj[r_i as int][c_i as int]),
                            ));
                            assert(self@ =~~= spec_with_disp(
                                s0,
                                spec_draw_row(dstart, byte, vx, r_i as int, col as int + 1),
                            ));
                        }
                    } else {
                        proof {
                            assert(self@ =~~= spec_with_disp(
                                s0,
                                spec_draw_row(dstart, byte, vx, r_i as int, col as int + 1),
                            ));
                        }
                    }
                    col += 1;
                }
                proof {
                    lemma_draw_row_step(s0.disp, s0.mem, s0.index, vx, vy, row as int);
                    lemma_collision_row_step(s0.disp, s0.mem, s0.index, vx, vy, row as int);
                }
            } else {
                proof {
                    lemma_draw_row_clipped(dstart, byte, vx, r_i as int);
                    lemma_draw_row_step(s0.disp, s0.mem, s0.index, vx, vy, row as int);
                    lemma_collision_row_step(s0.disp, s0.mem, s0.index, vx, vy, row as int);
                }
            }
            row += 1;
        }
        collision
    }

    /// Step the program counter past the instruction just executed.
    fn advance_pc(&mut self)
        requires
            old(self)@.wf(),
        ensures
            final(self)@ == (MachineState { pc: spec_advance(old(self)@.pc), ..old(self)@ }),
            final(self)@.wf(),
    {
        self.program_counter = (self.program_counter + 2) % 4096;
    }

    /// Step the program counter past this instruction, and past the next
    /// one too when the skip condition holds.
    fn skip_pc(&mut self, cond: bool)
        requires
            old(self)@.wf(),
        ensures
            final(self)@ == (MachineState { pc: spec_skip(old(self)@.pc, cond), ..old(self)@ }),
            final(self)@.wf(),
    {
        let delta: u16 = if cond {
            4
        } else {
            2
        };
        self.program_counter = (self.program_counter + delta) % 4096;
    }

    /// Execute one already-decoded instruction against the current state.
    ///
    /// `key` is the value a key-wait provider returned (read only by the
    /// key-wait instruction); `rnd` is the byte the random source drew
    /// (read only by the random instruction).  The state changes exactly
    /// as [`spec_step_instr`] says; on an error nothing changes at all.
    /// Execute one already-decoded instruction against the current state.
    ///
    /// `key` is the value a key-wait provider returned (read only by the
    /// key-wait instruction); `rnd` is the byte the random source drew
    /// (read only by the random instruction).  The state changes exactly
    /// as [`spec_step_instr`] says; on an error nothing changes at all.
    pub fn execute_instruction(&mut self, instr: Instruction, key: u8, rnd: u8) -> (r: Result<
        (),
        ErrorKind,
    >)
        requires
            old(self)@.wf(),
            wf_instruction(instr),
        ensures
            final(self)@.wf(),
            match r {
                Ok(()) => spec_step_instr(old(self)@, instr, key, rnd) == Ok::<
                    MachineState,
                    ErrorKind,
                >(final(self)@),
                Err(e) => spec_step_instr(old(self)@, instr, key, rnd) == Err::<
                    MachineState,
                    ErrorKind,
                >(e) && final(self)@ == old(self)@,
            },
    {
        match instr {
            Instruction::ClearDisplay
            | Instruction::Return
            | Instruction::Jump(_)
            | Instruction::Call(_)
            | Instruction::SkipEqualK(..)
            | Instruction::SkipNotEqualK(..)
            | Instruction::SkipEqual(..)
            | Instruction::SkipNotEqual(..)
            | Instruction::SkipPressed(_)
            | Instruction::SkipNotPressed(_)
            | Instruction::LongJump(_) => self.step_control(instr, key, rnd),
            Instruction::AddK(..)
            | Instruction::Add(..)
            | Instruction::Sub(..)
            | Instruction::ShiftRight(_)
            | Instruction::SubInv(..)
            | Instruction::ShiftLeft(_) => self.step_arith(instr, key, rnd),
            Instruction::SetK(..)
            | Instruction::SetReg(..)
            | Instruction::Or(..)
            | Instruction::And(..)
            | Instruction::XOr(..)
            | Instruction::Rand(..)
            | Instruction::GetTimer(_)
            | Instruction::WaitKey(_)
            | Instruction::SetTimer(_)
            | Instruction::SetSoundTimer(_) => self.step_register(instr, key, rnd),
            Instruction::LoadI(_)
            | Instruction::AddToI(_)
            | Instruction::LoadHexGlyph(_)
            | Instruction::StoreBCD(_)
            | Instruction::StoreRegisters(_)
            | Instruction::LoadRegisters(_)
            | Instruction::Draw(..) => self.step_memory(instr, key, rnd),
        }
    }

    /// The control-flow instructions of [`execute_instruction`].
    fn step_control(&mut self, instr: Instruction, key: u8, rnd: u8) -> (r: Result<
        (),
        ErrorKind,
    >)
        requires
            old(self)@.wf(),
            wf_instruction(instr),
            is_control_instruction(instr),
        ensures
            final(self)@.wf(),
            match r {
                Ok(()) => spec_step_instr(old(self)@, instr, key, rnd) == Ok::<
                    MachineState,
                    ErrorKind,
                >(final(self)@),
                Err(e) => spec_step_instr(old(self)@, instr, key, rnd) == Err::<
                    MachineState,
                    ErrorKind,
                >(e) && final(self)@ == old(self)@,
            },
    {
        match instr {
            Instruction::ClearDisplay => {
                self.display_buffer = [[false; 64]; 32];
                proof {
                    assert(self@.disp =~~= blank_display());
                }
                self.advance_pc();
                Ok(())
            },
            Instruction::Return => {
                if self.stack.len() == 0 {
                    return Err(ErrorKind::StackUnderflow);
                }
                let addr = self.stack[self.stack.len() - 1];
                let _popped = self.stack.pop();
                self.program_counter = (addr + 2) % 4096;
                proof {
                    assert(self@.stack =~= old(self)@.stack.drop_last());
                }
                Ok(())
            },
            Instruction::Jump(a) => {
                self.program_counter = a;
                Ok(())
            },
            Instruction::Call(a) => {
                if self.stack.len() >= 16 {
                    return Err(ErrorKind::StackOverflow);
                }
                self.stack.push(self.program_counter);
                self.program_counter = a;
                Ok(())
            },
            Instruction::SkipEqualK(x, k) => {
                let cond = self.get_register_value(x) == k;
                self.skip_pc(cond);
                Ok(())
            },
            Instruction::SkipNotEqualK(x, k) => {
                let cond = self.get_register_value(x) != k;
                self.skip_pc(cond);
                Ok(())
            },
            Instruction::SkipEqual(x, y) => {
                let cond = self.get_register_value(x) == self.get_register_value(y);
                self.skip_pc(cond);
                Ok(())
            },
            Instruction::SkipNotEqual(x, y) => {
                let cond = self.get_register_value(x) != self.get_register_value(y);
                self.skip_pc(cond);
                Ok(())
            },
            Instruction::SkipPressed(x) => {
                let vx = self.get_register_value(x);
                let idx = vx & 0x0F;
                proof {
                    assert(vx & 0x0F < 16) by (bit_vector);
                }
                let cond = self.get_key_pressed(idx);
                self.skip_pc(cond);
                Ok(())
            },
            Instruction::SkipNotPressed(x) => {
                let vx = self.get_register_value(x);
                let idx = vx & 0x0F;
                proof {
                    assert(vx & 0x0F < 16) by (bit_vector);
                }
                let cond = !self.get_key_pressed(idx);
                self.skip_pc(cond);
                Ok(())
            },
            Instruction::LongJump(a) => Err(ErrorKind::InvalidOpcode(0xB000 + a)),
            _ => {
                // Unreachable: the dispatcher only sends control-flow
                // instructions here.
                proof {
                    assert(false);
                }
                Err(ErrorKind::StackUnderflow)
            },
        }
    }

    /// The wrap-around arithmetic and shift instructions of
    /// [`execute_instruction`].
    #[verifier::rlimit(50)]
    fn step_arith(&mut self, instr: Instruction, key: u8, rnd: u8) -> (r: Result<
        (),
        ErrorKind,
    >)
        requires
            old(self)@.wf(),
            wf_instruction(instr),
            is_arith_instruction(instr),
        ensures
            final(self)@.wf(),
            r == Ok::<(), ErrorKind>(()),
            spec_step_instr(old(self)@, instr, key, rnd) == Ok::<MachineState, ErrorKind>(
                final(self)@,
            ),
    {
        match instr {
            Instruction::AddK(x, k) => {
                let v = self.get_register_value(x);
                let sum: u16 = v as u16 + k as u16;
                self.set_register_value(x, (sum % 256) as u8);
                self.advance_pc();
                Ok(())
            },
            Instruction::Add(x, y) => {
                let a = self.get_register_value(x);
                let b = self.get_register_value(y);
                let sum: u16 = a as u16 + b as u16;
                self.set_register_value(x, (sum % 256) as u8);
                self.set_register_value(15, if sum > 255 { 1 } else { 0 });
                self.advance_pc();
                Ok(())
            },
            Instruction::Sub(x, y) => {
                let a = self.get_register_value(x);
                let b = self.get_register_value(y);
                self.set_register_value(15, if a < b { 0 } else { 1 });
                let a2 = self.get_register_value(x);
                let b2 = self.get_register_value(y);
                let diff: u16 = (a2 as u16 + 256 - b2 as u16) % 256;
                proof {
                    vstd::arithmetic::div_mod::lemma_mod_multiples_vanish(
                        1,
                        a2 as int - b2 as int,
                        256,
                    );
                    assert(diff == wrap8(a2 as int - b2 as int));
                }
                self.set_register_value(x, diff as u8);
                self.advance_pc();
                Ok(())
            },
            Instruction::ShiftRight(x) => {
                let v = self.get_register_value(x);
                self.set_register_value(15, v % 2);
                let v2 = self.get_register_value(x);
                self.set_register_value(x, v2 / 2);
                self.advance_pc();
                Ok(())
            },
            Instruction::SubInv(x, y) => {
                let a = self.get_register_value(x);
                let b = self.get_register_value(y);
                self.set_register_value(15, if b < a { 0 } else { 1 });
                let a2 = self.get_register_value(x);
                let b2 = self.get_register_value(y);
                let diff: u16 = (b2 as u16 + 256 - a2 as u16) % 256;
                proof {
                    vstd::arithmetic::div_mod::lemma_mod_multiples_vanish(
                        1,
                        b2 as int - a2 as int,
                        256,
                    );
                    assert(diff == wrap8(b2 as int - a2 as int));
                }
                self.set_register_value(x, diff as u8);
                self.advance_pc();
                Ok(())
            },
            Instruction::ShiftLeft(x) => {
                let v = self.get_register_value(x);
                self.set_register_value(15, if v > 127 { 1 } else { 0 });
                let v2 = self.get_register_value(x);
                self.set_register_value(x, ((v2 as u16 * 2) % 256) as u8);
                self.advance_pc();
                Ok(())
            },
            _ => {
                // Unreachable: the dispatcher only sends arithmetic
                // instructions here.
                proof {
                    assert(false);
                }
                Err(ErrorKind::StackUnderflow)
            },
        }
    }

    /// The plain register- and timer-writing instructions of
    /// [`execute_instruction`].
    fn step_register(&mut self, instr: Instruction, key: u8, rnd: u8) -> (r: Result<
        (),
        ErrorKind,
    >)
        requires
            old(self)@.wf(),
            wf_instruction(instr),
            is_register_instruction(instr),
        ensures
            final(self)@.wf(),
            r == Ok::<(), ErrorKind>(()),
            spec_step_instr(old(self)@, instr, key, rnd) == Ok::<MachineState, ErrorKind>(
                final(self)@,
            ),
    {
        match instr {
            Instruction::SetK(x, k) => {
                self.set_register_value(x, k);
                self.advance_pc();
                Ok(())
            },
            Instruction::SetReg(x, y) => {
                let v = self.get_register_value(y);
                self.set_register_value(x, v);
                self.advance_pc();
                Ok(())
            },
            Instruction::Or(x, y) => {
                let v = self.get_register_value(x) | self.get_register_value(y);
                self.set_register_value(x, v);
                self.advance_pc();
                Ok(())
            },
            Instruction::And(x, y) => {
                let v = self.get_register_value(x) & self.get_register_value(y);
                self.set_register_value(x, v);
                self.advance_pc();
                Ok(())
            },
            Instruction::XOr(x, y) => {
                let v = self.get_register_value(x) ^ self.get_register_value(y);
                self.set_register_value(x, v);
                self.advance_pc();
                Ok(())
            },
            Instruction::Rand(x, k) => {
                self.set_register_value(x, k & rnd);
                self.advance_pc();
                Ok(())
            },
            Instruction::GetTimer(x) => {
                let v = self.delay_timer;
                self.set_register_value(x, v);
                self.advance_pc();
                Ok(())
            },
            Instruction::WaitKey(x) => {
                self.set_register_value(x, key);
                self.advance_pc();
                Ok(())
            },
            Instruction::SetTimer(x) => {
                self.delay_timer = self.get_register_value(x);
                self.advance_pc();
                Ok(())
            },
            Instruction::SetSoundTimer(x) => {
                self.sound_timer = self.get_register_value(x);
                self.advance_pc();
                Ok(())
            },
            _ => {
                // Unreachable: the dispatcher only sends register
                // instructions here.
                proof {
                    assert(false);
                }
                Err(ErrorKind::StackUnderflow)
            },
        }
    }

    /// The index-register and memory instructions of
    /// [`execute_instruction`].
    fn step_memory(&mut self, instr: Instruction, key: u8, rnd: u8) -> (r: Result<
        (),
        ErrorKind,
    >)
        requires
            old(self)@.wf(),
            wf_instruction(instr),
            is_memory_instruction(instr),
        ensures
            final(self)@.wf(),
            r == Ok::<(), ErrorKind>(()),
            spec_step_instr(old(self)@, instr, key, rnd) == Ok::<MachineState, ErrorKind>(
                final(self)@,
            ),
    {
        match instr {
            Instruction::LoadI(a) => {
                self.index_register = a;
                self.advance_pc();
                Ok(())
            },
            Instruction::AddToI(x) => {
                let v = self.get_register_value(x);
                self.index_register = (self.index_register + v as u16) % 4096;
                self.advance_pc();
                Ok(())
            },
            Instruction::LoadHexGlyph(x) => {
                let v = self.get_register_value(x);
                self.index_register = v as u16 * 5;
                self.advance_pc();
                Ok(())
            },
            Instruction::StoreBCD(x) => {
                let v = self.get_register_value(x);
                let i = self.index_register;
                self.set_byte_in_memory(i, v / 100);
                self.set_byte_in_memory((i + 1) % 4096, (v / 10) % 10);
                self.set_byte_in_memory((i + 2) % 4096, v % 10);
                self.advance_pc();
                Ok(())
            },
            Instruction::StoreRegisters(x) => {
                self.store_registers(x);
                self.advance_pc();
                Ok(())
            },
            Instruction::LoadRegisters(x) => {
                self.load_registers(x);
                self.advance_pc();
                Ok(())
            },
            Instruction::Draw(x, y, n) => {
                let vx = self.get_register_value(x);
                let vy = self.get_register_value(y);
                let coll = self.draw_sprite(vx, vy, n);
                self.set_register_value(15, if coll { 1 } else { 0 });
                self.advance_pc();
                Ok(())
            },
            _ => {
                // Unreachable: the dispatcher only sends memory
                // instructions here.
                proof {
                    assert(false);
                }
                Err(ErrorKind::StackUnderflow)
            },
        }
    }

    /// Copy registers `V0..=Vx` to memory at the index register.
    fn store_registers(&mut self, x: u8)
        requires
            old(self)@.wf(),
            x < 16,
        ensures
            final(self)@ == (MachineState {
                mem: spec_store_regs(old(self)@.mem, old(self)@.regs, old(self)@.index, x + 1),
                ..old(self)@
            }),
            final(self)@.wf(),
    {
        let ghost s0 = self@;
        let i = self.index_register;
        let mut k: u8 = 0;
        proof {
            assert(self@.mem =~= spec_store_regs(s0.mem, s0.regs, s0.index, 0));
        }
        while k <= x
            invariant
                s0.wf(),
                x < 16,
                k <= x + 1,
                i == s0.index,
                self@ == (MachineState { mem: spec_store_regs(s0.mem, s0.regs, s0.index, k as int), ..s0 }),
            decreases x + 1 - k,
        {
            let ghost prev = self@.mem;
            let v = self.get_register_value(k);
            self.set_byte_in_memory((i + k as u16) % 4096, v);
            proof {
                let w = ((i + k) % 4096) as int;
                assert((w - i) % 4096 == k as int);
                assert forall|a: int| 0 <= a < 4096 implies #[trigger] self@.mem[a]
                    == spec_store_regs(s0.mem, s0.regs, s0.index, k + 1)[a] by {
                    if a != w {
                        assert((a - i) % 4096 != k as int);
                        assert(self@.mem[a] == prev[a]);
                    }
                }
                assert(self@.mem =~= spec_store_regs(s0.mem, s0.regs, s0.index, k + 1));
            }
            k += 1;
        }
    }

    /// Fill registers `V0..=Vx` from memory at the index register.
    fn load_registers(&mut self, x: u8)
        requires
            old(self)@.wf(),
            x < 16,
        ensures
            final(self)@ == (MachineState {
                regs: spec_load_regs(old(self)@.mem, old(self)@.regs, old(self)@.index, x + 1),
                ..old(self)@
            }),
            final(self)@.wf(),
    {
        let ghost s0 = self@;
        let i = self.index_register;
        let mut k: u8 = 0;
        proof {
            assert(self@.regs =~= spec_load_regs(s0.mem, s0.regs, s0.index, 0));
        }
        while k <= x
            invariant
                s0.wf(),
                x < 16,
                k <= x + 1,
                i == s0.index,
                self@ == (MachineState { regs: spec_load_regs(s0.mem, s0.regs, s0.index, k as int), ..s0 }),
            decreases x + 1 - k,
        {
            let b = self.get_byte_from_memory((i + k as u16) % 4096);
            self.set_register_value(k, b);
            proof {
                assert(self@.regs =~= spec_load_regs(s0.mem, s0.regs, s0.index, k + 1));
            }
            k += 1;
        }
    }
}

/// Relies on rand::random: it draws a value of the standard
/// distribution.  Nothing is assumed of which value comes back.
pub assume_specification<T>[ rand::random::<T> ]() -> (r: T)
    where
        rand::distributions::Standard: rand::distributions::Distribution<T>,
;

impl Chip8 {
    /// End-of-cycle bookkeeping: each nonzero timer counts down by one,
    /// and the tone sounds for this cycle exactly when the sound timer
    /// stood at 1.
    fn tick_timers(&mut self) -> (beep: bool)
        requires
            old(self)@.wf(),
        ensures
            final(self)@ == spec_tick(old(self)@),
            beep == spec_beep(old(self)@),
            final(self)@.wf(),
    {
        if self.delay_timer > 0 {
            self.delay_timer = self.delay_timer - 1;
        }
        let beep = self.sound_timer == 1;
        if self.sound_timer > 0 {
            self.sound_timer = self.sound_timer - 1;
        }
        beep
    }

    /// Run exactly one fetch-decode-execute-tick cycle.
    ///
    /// `wait_for_input` is the key-wait provider: it is called exactly
    /// once when the fetched instruction is the key wait, and never
    /// otherwise.  It may block its caller indefinitely; that is the
    /// accepted contract of the key-wait instruction, not a hang.  The
    /// random instruction draws one byte from the process-wide random
    /// source.
    ///
    /// A successful cycle is exactly [`spec_cycle`] for the key the
    /// provider returned and the byte the random source drew, and the
    /// outcome carries the sound signal.  A failed cycle reports the same
    /// error for every key and byte, and leaves the state untouched.
    pub fn execute_cycle<F: FnOnce() -> u8>(&mut self, wait_for_input: F) -> (r: Result<
        CycleOutcome,
        ErrorKind,
    >)
        requires
            old(self)@.wf(),
            call_requires(wait_for_input, ()),
        ensures
            final(self)@.wf(),
            match r {
                Ok(out) => exists|key: u8, rnd: u8|
                    {
                        &&& #[trigger] spec_cycle(old(self)@, key, rnd) == Ok::<
                            (MachineState, bool),
                            ErrorKind,
                        >((final(self)@, out.beep))
                        &&& (spec_decode(spec_fetch(old(self)@)) matches Ok(
                            Instruction::WaitKey(_),
                        ) ==> call_ensures(wait_for_input, (), key))
                    },
                Err(e) => final(self)@ == old(self)@ && forall|key: u8, rnd: u8|
                    #[trigger] spec_cycle(old(self)@, key, rnd) == Err::<
                        (MachineState, bool),
                        ErrorKind,
                    >(e),
            },
    {
        let ghost s0 = self@;
        let pc = self.program_counter;
        let hi = self.get_byte_from_memory(pc);
        let lo = self.get_byte_from_memory((pc + 1) % 4096);
        let opcode: u16 = hi as u16 * 256 + lo as u16;
        proof {
            assert(opcode == spec_fetch(s0));
        }
        let instr = match Chip8::parse_instruction(opcode) {
            Ok(i) => i,
            Err(e) => {
                return Err(e);
            },
        };
        let key: u8 = match instr {
            Instruction::WaitKey(_) => wait_for_input(),
            _ => 0,
        };
        let rnd: u8 = match instr {
            Instruction::Rand(_, _) => rand::random::<u8>(),
            _ => 0,
        };
        match self.execute_instruction(instr, key, rnd) {
            Ok(()) => {
                let beep = self.tick_timers();
                proof {
                    assert(spec_cycle(s0, key, rnd) == Ok::<(MachineState, bool), ErrorKind>(
                        (self@, beep),
                    ));
                }
                Ok(CycleOutcome { beep })
            },
            Err(e) => {
                proof {
                    assert forall|k2: u8, r2: u8| #[trigger] spec_cycle(s0, k2, r2) == Err::<
                        (MachineState, bool),
                        ErrorKind,
                    >(e) by {
                        // The error paths (return, call, long jump) read
                        // neither the key nor the random byte.
                        assert(spec_step_instr(s0, instr, k2, r2) == spec_step_instr(
                            s0,
                            instr,
                            key,
                            rnd,
                        ));
                    }
                }
                Err(e)
            },
        }
    }
}

/// The font glyphs as a vector, in glyph order: the executable mirror of
/// [`font_data`].
fn font_bytes() -> (v: Vec<u8>)
    ensures
        v@ == font_data(),
{
    let v: Vec<u8> = vec![
        0xF0, 0x90, 0x90, 0x90, 0xF0, // 0
        0x20, 0x60, 0x20, 0x20, 0x70, // 1
        0xF0, 0x10, 0xF0, 0x80, 0xF0, // 2
        0xF0, 0x10, 0xF0, 0x10, 0xF0, // 3
        0x90, 0x90, 0xF0, 0x10, 0x10, // 4
        0xF0, 0x80, 0xF0, 0x10, 0xF0, // 5
        0xF0, 0x80, 0xF0, 0x90, 0xF0, // 6
        0xF0, 0x10, 0x20, 0x40, 0x40, // 7
        0xF0, 0x90, 0xF0, 0x90, 0xF0, // 8
        0xF0, 0x90, 0xF0, 0x10, 0xF0, // 9
        0xF0, 0x90, 0xF0, 0x90, 0x90, // A
        0xE0, 0x90, 0xE0, 0x90, 0xE0, // B
        0xF0, 0x80, 0x80, 0x80, 0xF0, // C
        0xE0, 0x90, 0x90, 0x90, 0xE0, // D
        0xF0, 0x80, 0xF0, 0x80, 0xF0, // E
        0xF0, 0x80, 0xF0, 0x80, 0x80, // F
    ];
    proof {
        assert(v@ =~= font_data());
    }
    v
}

} // verus!
