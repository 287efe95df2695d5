use vstd::prelude::*;

use crate::display::{blank_frame, draw_sprite, frame_view, Frame};
use crate::instruction::{decode, instruction_of, Instruction};
use crate::keypad::Keypad;
use crate::machine::{
    cycle_step, font, initial_state, lemma_step_wf, loaded, next, opcode_at, skip_if, step,
    CycleError, Fault, MachineState, RunState, FLAG, GLYPH_LEN, LAST_ADDRESS, MAX_ROM_LEN,
    MEMORY_SIZE, PROGRAM_START, STACK_SIZE,
};

verus! {

/// The interpreter's whole state.
pub struct Chip8 {
    /// Registers `V0` to `VF`.
    pub v: [u8; 16],
    /// The index register.
    pub i: u16,
    /// Return addresses; entries below `sp` are live.
    pub stack: [u16; 16],
    /// How many return addresses are on the stack.
    pub sp: u8,
    /// Delay timer.
    pub dt: u8,
    /// Sound timer.
    pub st: u8,
    /// The display.
    pub frame: Frame,
    /// Program counter.
    pub pc: u16,
    /// Memory.
    pub memory: [u8; 4096],
    /// The keypad.
    pub keypad: Keypad,
    /// What the cycle driver is doing.
    pub run_state: RunState,
}

impl View for Chip8 {
    type V = MachineState;

    open spec fn view(&self) -> MachineState {
        MachineState {
            v: self.v@,
            i: self.i,
            stack: self.stack@,
            sp: self.sp,
            dt: self.dt,
            st: self.st,
            frame: frame_view(self.frame),
            pc: self.pc,
            memory: self.memory@,
            key: self.keypad@,
            run_state: self.run_state,
        }
    }
}

/// A program longer than `MAX_ROM_LEN` bytes; `len` is its length.
#[derive(Clone, Copy, Debug, PartialEq, Eq, Structural)]
pub struct RomTooLarge {
    pub len: usize,
}

/// Relies on `rand::random::<u8>`: a byte from the thread-local generator.
/// Nothing is known of its value.
#[verifier::external_body]
fn random_byte() -> u8 {
    rand::random::<u8>()
}

/// The built-in font glyphs.
fn font_set() -> (r: [u8; 80])
    ensures
        r@ == font(),
{
    let r = [
        0xF0u8, 0x90, 0x90, 0x90, 0xF0, 0x20, 0x60, 0x20, 0x20, 0x70,
        0xF0, 0x10, 0xF0, 0x80, 0xF0, 0xF0, 0x10, 0xF0, 0x10, 0xF0,
        0x90, 0x90, 0xF0, 0x10, 0x10, 0xF0, 0x80, 0xF0, 0x10, 0xF0,
        0xF0, 0x80, 0xF0, 0x90, 0xF0, 0xF0, 0x10, 0x20, 0x40, 0x40,
        0xF0, 0x90, 0xF0, 0x90, 0xF0, 0xF0, 0x90, 0xF0, 0x10, 0xF0,
        0xF0, 0x90, 0xF0, 0x90, 0x90, 0xE0, 0x90, 0xE0, 0x90, 0xE0,
        0xF0, 0x80, 0x80, 0x80, 0xF0, 0xE0, 0x90, 0x90, 0x90, 0xE0,
        0xF0, 0x80, 0xF0, 0x80, 0xF0, 0xF0, 0x80, 0xF0, 0x80, 0x80,
    ];
    assert(r@ =~= font());
    r
}

impl Chip8 {
    pub open spec fn wf(&self) -> bool {
        self@.wf()
    }

    /// A fresh machine: the font loaded at address 0, the rest of memory,
    /// the registers, stack, timers and display zero, the program counter at
    /// `PROGRAM_START`, no key down.
    pub fn new() -> (r: Self)
        ensures
            r@ == initial_state(),
            r.wf(),
    {
        let glyphs = font_set();
        let mut memory = [0u8; 4096];
        let mut k: usize = 0;
        while k < 80
            invariant
                k <= 80,
                glyphs@ == font(),
                memory@ =~= Seq::new(MEMORY_SIZE as nat, |j: int| if j < k { font()[j] } else { 0u8 }),
            decreases 80 - k,
        {
            memory[k] = glyphs[k];
            k = k + 1;
        }
        let r = Chip8 {
            v: [0u8; 16],
            i: 0,
            stack: [0u16; 16],
            sp: 0,
            dt: 0,
            st: 0,
            frame: [[0u8; 64]; 32],
            pc: PROGRAM_START,
            memory,
            keypad: Keypad::new(),
            run_state: RunState::Running,
        };
        assert(r@.v =~= initial_state().v);
        assert(r@.stack =~= initial_state().stack);
        assert(r@.frame =~~= initial_state().frame);
        assert(r@.memory =~= initial_state().memory);
        r
    }

    /// Copies a program into memory from `PROGRAM_START` on. A program longer
    /// than `MAX_ROM_LEN` bytes is refused and the machine left as it was.
    pub fn load_rom(&mut self, rom: &[u8]) -> (r: Result<(), RomTooLarge>)
        requires
            old(self).wf(),
        ensures
            rom@.len() <= MAX_ROM_LEN ==> r == Ok::<(), RomTooLarge>(()) && final(self)@ == loaded(old(self)@, rom@),
            rom@.len() > MAX_ROM_LEN ==> r == Err::<(), RomTooLarge>(RomTooLarge { len: rom.len() }) && final(self)@ == old(self)@,
            final(self).wf(),
    {
        if rom.len() > MAX_ROM_LEN {
            return Err(RomTooLarge { len: rom.len() });
        }
        let start = PROGRAM_START as usize;
        let mut memory = self.memory;
        let mut k: usize = 0;
        while k < rom.len()
            invariant
                k <= rom@.len() <= MAX_ROM_LEN,
                start == PROGRAM_START,
                memory@ =~= Seq::new(MEMORY_SIZE as nat, |j: int|
                    if start <= j < start + k { rom@[j - start] } else { old(self).memory@[j] }),
            decreases rom@.len() - k,
        {
            memory[start + k] = rom[k];
            k = k + 1;
        }
        self.memory = memory;
        Ok(())
    }

    /// The instruction word at the program counter.
    fn fetch(&self) -> (r: Option<u16>)
        requires
            self.wf(),
        ensures
            r == opcode_at(self@),
    {
        let pc = self.pc as usize;
        if pc + 1 >= MEMORY_SIZE {
            return None;
        }
        let (hi, lo) = (self.memory[pc], self.memory[pc + 1]);
        assert(((hi as u16) << 8) | (lo as u16) == hi * 256 + lo) by (bit_vector);
        Some(((hi as u16) << 8) | lo as u16)
    }

    /// Executes one decoded instruction; `rnd` is the random byte that `Cxkk`
    /// uses, and nothing else reads it.
    pub fn execute(&mut self, ins: Instruction, rnd: u8) -> (r: Result<(), Fault>)
        requires
            old(self).wf(),
            ins.wf(),
        ensures
            (final(self)@, r) == step(old(self)@, ins, rnd),
            final(self).wf(),
    {
        let r = match ins {
            Instruction::Cls => {
                self.cls();
                Ok(())
            },
            Instruction::Ret => self.ret(),
            Instruction::Jp(nnn) => {
                self.jp_addr(nnn);
                Ok(())
            },
            Instruction::Call(nnn) => self.call_addr(nnn),
            Instruction::SeVxByte(x, kk) => {
                self.se_vx_byte(x, kk);
                Ok(())
            },
            Instruction::SneVxByte(x, kk) => {
                self.sne_vx_byte(x, kk);
                Ok(())
            },
            Instruction::SeVxVy(x, y) => {
                self.se_vx_vy(x, y);
                Ok(())
            },
            Instruction::LdVxByte(x, kk) => {
                self.ld_vx_byte(x, kk);
                Ok(())
            },
            Instruction::AddVxByte(x, kk) => {
                self.add_vx_byte(x, kk);
                Ok(())
            },
            Instruction::LdVxVy(x, y) => {
                self.ld_vx_vy(x, y);
                Ok(())
            },
            Instruction::OrVxVy(x, y) => {
                self.or_vx_vy(x, y);
                Ok(())
            },
            Instruction::AndVxVy(x, y) => {
                self.and_vx_vy(x, y);
                Ok(())
            },
            Instruction::XorVxVy(x, y) => {
                self.xor_vx_vy(x, y);
                Ok(())
            },
            Instruction::AddVxVy(x, y) => {
                self.add_vx_vy(x, y);
                Ok(())
            },
            Instruction::SubVxVy(x, y) => {
                self.sub_vx_vy(x, y);
                Ok(())
            },
            Instruction::ShrVx(x) => {
                self.shr_vx_vy(x);
                Ok(())
            },
            Instruction::SubnVxVy(x, y) => {
                self.subn_vx_vy(x, y);
                Ok(())
            },
            Instruction::ShlVx(x) => {
                self.shl_vx_vy(x);
                Ok(())
            },
            Instruction::SneVxVy(x, y) => {
                self.sne_vx_vy(x, y);
                Ok(())
            },
            Instruction::LdIAddr(nnn) => {
                self.ld_i_addr(nnn);
                Ok(())
            },
            Instruction::JpV0Addr(nnn) => {
                self.jp_v0_addr(nnn);
                Ok(())
            },
            Instruction::RndVxByte(x, kk) => {
                self.rnd_vx_byte(x, kk, rnd);
                Ok(())
            },
            Instruction::Drw(x, y, n) => self.drw_vx_vy_nibble(x, y, n),
            Instruction::SkpVx(x) => {
                self.skp_vx(x);
                Ok(())
            },
            Instruction::SknpVx(x) => {
                self.sknp_vx(x);
                Ok(())
            },
            Instruction::LdVxDt(x) => {
                self.ld_vx_dt(x);
                Ok(())
            },
            Instruction::LdVxK(x) => {
                self.ld_vx_k(x);
                Ok(())
            },
            Instruction::LdDtVx(x) => {
                self.ld_dt_vx(x);
                Ok(())
            },
            Instruction::LdStVx(x) => {
                self.ld_st_vx(x);
                Ok(())
            },
            Instruction::AddIVx(x) => {
                self.add_i_vx(x);
                Ok(())
            },
            Instruction::LdFVx(x) => {
                self.ld_f_vx(x);
                Ok(())
            },
            Instruction::LdBVx(x) => self.ld_b_vx(x),
            Instruction::LdIVx(x) => self.ld_i_vx(x),
            Instruction::LdVxI(x) => self.ld_vx_i(x),
            Instruction::Unknown(_) => {
                self.next_program();
                Err(Fault::UnknownOpcode)
            },
        };
        proof {
            lemma_step_wf(old(self)@, ins, rnd);
        }
        r
    }

    /// Decodes and executes one instruction word. `Cxkk` draws its random
    /// byte here; every other instruction's effect is fixed by the word and
    /// the machine.
    pub fn run_op_code(&mut self, code: u16) -> (r: Result<(), Fault>)
        requires
            old(self).wf(),
        ensures
            exists|rnd: u8| #[trigger] step(old(self)@, instruction_of(code), rnd) == (final(self)@, r),
            final(self).wf(),
    {
        let ins = decode(code);
        let rnd = match ins {
            Instruction::RndVxByte(_, _) => random_byte(),
            _ => 0,
        };
        self.execute(ins, rnd)
    }

    /// One pass of the cycle driver: see `cycle_step`. The keypad is set by
    /// the caller beforehand.
    pub fn cycle(&mut self, quit: bool, execute: bool, timer_tick: bool) -> (r: Result<(), CycleError>)
        requires
            old(self).wf(),
        ensures
            exists|rnd: u8| #[trigger] cycle_step(old(self)@, quit, execute, timer_tick, rnd) == (final(self)@, r),
            final(self).wf(),
    {
        let ghost mut rnd: u8 = 0;
        let r = match self.run_state {
            RunState::Halted => Ok(()),
            _ if quit => {
                self.run_state = RunState::Halted;
                Ok(())
            },
            RunState::AwaitingKey(x) => {
                if let Some(key) = self.keypad.get_key() {
                    self.v[x as usize] = key;
                    self.next_program();
                    self.run_state = RunState::Running;
                }
                Ok(())
            },
            RunState::Running => {
                if !execute {
                    Ok(())
                } else {
                    match self.fetch() {
                        None => {
                            self.run_state = RunState::Halted;
                            Err(CycleError { fault: Fault::OutOfBoundsAccess, pc: self.pc, opcode: None })
                        },
                        Some(code) => {
                            let pc = self.pc;
                            let res = self.run_op_code(code);
                            proof {
                                rnd = choose|rnd: u8| step(old(self)@, instruction_of(code), rnd) == (self@, res);
                            }
                            match res {
                                Ok(()) => Ok(()),
                                Err(Fault::UnknownOpcode) => {
                                    Err(CycleError { fault: Fault::UnknownOpcode, pc, opcode: Some(code) })
                                },
                                Err(fault) => {
                                    self.run_state = RunState::Halted;
                                    Err(CycleError { fault, pc, opcode: Some(code) })
                                },
                            }
                        },
                    }
                }
            },
        };
        if timer_tick && self.run_state != RunState::Halted {
            if self.dt > 0 {
                self.dt = self.dt - 1;
            }
            if self.st > 0 {
                self.st = self.st - 1;
            }
        }
        assert(cycle_step(old(self)@, quit, execute, timer_tick, rnd) == (self@, r));
        r
    }
    /// Moves the program counter to the next instruction.
    fn next_program(&mut self)
        requires
            old(self).pc <= LAST_ADDRESS,
        ensures
            final(self)@ == next(old(self)@),
    {
        self.pc = if self.pc + 2 > LAST_ADDRESS { LAST_ADDRESS } else { self.pc + 2 };
    }

    /// Skips the next instruction when `cond` holds.
    fn skip_when(&mut self, cond: bool)
        requires
            old(self).pc <= LAST_ADDRESS,
        ensures
            final(self)@ == skip_if(old(self)@, cond),
    {
        self.next_program();
        if cond {
            self.next_program();
        }
    }

    // 00E0 - CLS
    fn cls(&mut self)
        requires
            old(self).wf(),
        ensures
            final(self)@ == step(old(self)@, Instruction::Cls, 0).0,
    {
        self.frame = [[0u8; 64]; 32];
        assert(frame_view(self.frame) =~~= blank_frame());
        self.next_program();
    }

    // 00EE - RET
    fn ret(&mut self) -> (r: Result<(), Fault>)
        requires
            old(self).wf(),
        ensures
            (final(self)@, r) == step(old(self)@, Instruction::Ret, 0),
    {
        if self.sp == 0 {
            return Err(Fault::StackUnderflow);
        }
        self.sp = self.sp - 1;
        self.pc = self.stack[self.sp as usize];
        Ok(())
    }

    // 1nnn - JP addr
    fn jp_addr(&mut self, nnn: u16)
        ensures
            final(self)@ == step(old(self)@, Instruction::Jp(nnn), 0).0,
    {
        self.pc = nnn;
    }

    // 2nnn - CALL addr
    fn call_addr(&mut self, nnn: u16) -> (r: Result<(), Fault>)
        requires
            old(self).wf(),
        ensures
            (final(self)@, r) == step(old(self)@, Instruction::Call(nnn), 0),
    {
        if self.sp as usize >= STACK_SIZE {
            return Err(Fault::StackOverflow);
        }
        self.stack[self.sp as usize] = self.pc;
        self.sp = self.sp + 1;
        self.pc = nnn;
        Ok(())
    }

    // 3xkk - SE Vx, byte
    fn se_vx_byte(&mut self, x: u8, kk: u8)
        requires
            old(self).wf(),
            x < 16,
        ensures
            final(self)@ == step(old(self)@, Instruction::SeVxByte(x, kk), 0).0,
    {
        let cond = self.v[x as usize] == kk;
        self.skip_when(cond);
    }

    // 6xkk - LD Vx, byte
    fn ld_vx_byte(&mut self, x: u8, kk: u8)
        requires
            old(self).wf(),
            x < 16,
        ensures
            final(self)@ == step(old(self)@, Instruction::LdVxByte(x, kk), 0).0,
    {
        self.v[x as usize] = kk;
        self.next_program();
    }

    // 8xy4 - ADD Vx, Vy
    fn add_vx_vy(&mut self, x: u8, y: u8)
        requires
            old(self).wf(),
            x < 16,
            y < 16,
        ensures
            final(self)@ == step(old(self)@, Instruction::AddVxVy(x, y), 0).0,
    {
        let (a, b) = (self.v[x as usize], self.v[y as usize]);
        let sum = a.wrapping_add(b);
        self.v[x as usize] = sum;
        self.v[FLAG] = if a as u16 + b as u16 > 255 { 1 } else { 0 };
        self.next_program();
    }
    // 4xkk - SNE Vx, byte
    fn sne_vx_byte(&mut self, x: u8, kk: u8)
        requires
            old(self).wf(),
            x < 16,
        ensures
            final(self)@ == step(old(self)@, Instruction::SneVxByte(x, kk), 0).0,
    {
        let cond = self.v[x as usize] != kk;
        self.skip_when(cond);
    }

    // 5xy0 - SE Vx, Vy
    fn se_vx_vy(&mut self, x: u8, y: u8)
        requires
            old(self).wf(),
            x < 16,
            y < 16,
        ensures
            final(self)@ == step(old(self)@, Instruction::SeVxVy(x, y), 0).0,
    {
        let cond = self.v[x as usize] == self.v[y as usize];
        self.skip_when(cond);
    }

    // 7xkk - ADD Vx, byte
    fn add_vx_byte(&mut self, x: u8, kk: u8)
        requires
            old(self).wf(),
            x < 16,
        ensures
            final(self)@ == step(old(self)@, Instruction::AddVxByte(x, kk), 0).0,
    {
        self.v[x as usize] = self.v[x as usize].wrapping_add(kk);
        self.next_program();
    }

    // 8xy0 - LD Vx, Vy
    fn ld_vx_vy(&mut self, x: u8, y: u8)
        requires
            old(self).wf(),
            x < 16,
            y < 16,
        ensures
            final(self)@ == step(old(self)@, Instruction::LdVxVy(x, y), 0).0,
    {
        self.v[x as usize] = self.v[y as usize];
        self.next_program();
    }

    // 8xy1 - OR Vx, Vy
    fn or_vx_vy(&mut self, x: u8, y: u8)
        requires
            old(self).wf(),
            x < 16,
            y < 16,
        ensures
            final(self)@ == step(old(self)@, Instruction::OrVxVy(x, y), 0).0,
    {
        self.v[x as usize] = self.v[x as usize] | self.v[y as usize];
        self.next_program();
    }

    // 8xy2 - AND Vx, Vy
    fn and_vx_vy(&mut self, x: u8, y: u8)
        requires
            old(self).wf(),
            x < 16,
            y < 16,
        ensures
            final(self)@ == step(old(self)@, Instruction::AndVxVy(x, y), 0).0,
    {
        self.v[x as usize] = self.v[x as usize] & self.v[y as usize];
        self.next_program();
    }

    // 8xy3 - XOR Vx, Vy
    fn xor_vx_vy(&mut self, x: u8, y: u8)
        requires
            old(self).wf(),
            x < 16,
            y < 16,
        ensures
            final(self)@ == step(old(self)@, Instruction::XorVxVy(x, y), 0).0,
    {
        self.v[x as usize] = self.v[x as usize] ^ self.v[y as usize];
        self.next_program();
    }

    // 8xy5 - SUB Vx, Vy
    fn sub_vx_vy(&mut self, x: u8, y: u8)
        requires
            old(self).wf(),
            x < 16,
            y < 16,
        ensures
            final(self)@ == step(old(self)@, Instruction::SubVxVy(x, y), 0).0,
    {
        let (a, b) = (self.v[x as usize], self.v[y as usize]);
        self.v[x as usize] = a.wrapping_sub(b);
        self.v[FLAG] = if a >= b { 1 } else { 0 };
        self.next_program();
    }

    // 8xy6 - SHR Vx
    fn shr_vx_vy(&mut self, x: u8)
        requires
            old(self).wf(),
            x < 16,
        ensures
            final(self)@ == step(old(self)@, Instruction::ShrVx(x), 0).0,
    {
        let a = self.v[x as usize];
        assert(a >> 1 == a / 2 && a & 1 == a % 2) by (bit_vector);
        self.v[x as usize] = a >> 1;
        self.v[FLAG] = a & 1;
        self.next_program();
    }

    // 8xy7 - SUBN Vx, Vy
    fn subn_vx_vy(&mut self, x: u8, y: u8)
        requires
            old(self).wf(),
            x < 16,
            y < 16,
        ensures
            final(self)@ == step(old(self)@, Instruction::SubnVxVy(x, y), 0).0,
    {
        let (a, b) = (self.v[x as usize], self.v[y as usize]);
        self.v[x as usize] = b.wrapping_sub(a);
        self.v[FLAG] = if b >= a { 1 } else { 0 };
        self.next_program();
    }

    // 8xyE - SHL Vx
    fn shl_vx_vy(&mut self, x: u8)
        requires
            old(self).wf(),
            x < 16,
        ensures
            final(self)@ == step(old(self)@, Instruction::ShlVx(x), 0).0,
    {
        let a = self.v[x as usize];
        assert(a << 1 == (a * 2) % 256 && a >> 7 == a / 128) by (bit_vector);
        self.v[x as usize] = a << 1;
        self.v[FLAG] = a >> 7;
        self.next_program();
    }

    // 9xy0 - SNE Vx, Vy
    fn sne_vx_vy(&mut self, x: u8, y: u8)
        requires
            old(self).wf(),
            x < 16,
            y < 16,
        ensures
            final(self)@ == step(old(self)@, Instruction::SneVxVy(x, y), 0).0,
    {
        let cond = self.v[x as usize] != self.v[y as usize];
        self.skip_when(cond);
    }

    // Annn - LD I, addr
    fn ld_i_addr(&mut self, nnn: u16)
        requires
            old(self).wf(),
        ensures
            final(self)@ == step(old(self)@, Instruction::LdIAddr(nnn), 0).0,
    {
        self.i = nnn;
        self.next_program();
    }

    // Bnnn - JP V0, addr
    fn jp_v0_addr(&mut self, nnn: u16)
        requires
            old(self).wf(),
            nnn <= LAST_ADDRESS,
        ensures
            final(self)@ == step(old(self)@, Instruction::JpV0Addr(nnn), 0).0,
    {
        let target = nnn + self.v[0] as u16;
        self.pc = if target > LAST_ADDRESS { LAST_ADDRESS } else { target };
    }

    // Cxkk - RND Vx, byte
    fn rnd_vx_byte(&mut self, x: u8, kk: u8, rnd: u8)
        requires
            old(self).wf(),
            x < 16,
        ensures
            final(self)@ == step(old(self)@, Instruction::RndVxByte(x, kk), rnd).0,
    {
        self.v[x as usize] = rnd & kk;
        self.next_program();
    }

    // Dxyn - DRW Vx, Vy, nibble
    fn drw_vx_vy_nibble(&mut self, x: u8, y: u8, n: u8) -> (r: Result<(), Fault>)
        requires
            old(self).wf(),
            x < 16,
            y < 16,
            n < 16,
        ensures
            (final(self)@, r) == step(old(self)@, Instruction::Drw(x, y, n), 0),
    {
        if self.i as usize + n as usize > MEMORY_SIZE {
            return Err(Fault::OutOfBoundsAccess);
        }
        let (vx, vy) = (self.v[x as usize], self.v[y as usize]);
        let mut frame = self.frame;
        let collision = draw_sprite(&mut frame, &self.memory, self.i as usize, n as usize, vx, vy);
        self.frame = frame;
        self.v[FLAG] = if collision { 1 } else { 0 };
        self.next_program();
        Ok(())
    }

    // Ex9E - SKP Vx
    fn skp_vx(&mut self, x: u8)
        requires
            old(self).wf(),
            x < 16,
        ensures
            final(self)@ == step(old(self)@, Instruction::SkpVx(x), 0).0,
    {
        let cond = self.keypad.is_pressed(self.v[x as usize]);
        self.skip_when(cond);
    }

    // ExA1 - SKNP Vx
    fn sknp_vx(&mut self, x: u8)
        requires
            old(self).wf(),
            x < 16,
        ensures
            final(self)@ == step(old(self)@, Instruction::SknpVx(x), 0).0,
    {
        let cond = !self.keypad.is_pressed(self.v[x as usize]);
        self.skip_when(cond);
    }

    // Fx07 - LD Vx, DT
    fn ld_vx_dt(&mut self, x: u8)
        requires
            old(self).wf(),
            x < 16,
        ensures
            final(self)@ == step(old(self)@, Instruction::LdVxDt(x), 0).0,
    {
        self.v[x as usize] = self.dt;
        self.next_program();
    }

    // Fx0A - LD Vx, K
    fn ld_vx_k(&mut self, x: u8)
        requires
            old(self).wf(),
            x < 16,
        ensures
            final(self)@ == step(old(self)@, Instruction::LdVxK(x), 0).0,
    {
        match self.keypad.get_key() {
            Some(key) => {
                self.v[x as usize] = key;
                self.next_program();
            },
            None => {
                self.run_state = RunState::AwaitingKey(x);
            },
        }
    }

    // Fx15 - LD DT, Vx
    fn ld_dt_vx(&mut self, x: u8)
        requires
            old(self).wf(),
            x < 16,
        ensures
            final(self)@ == step(old(self)@, Instruction::LdDtVx(x), 0).0,
    {
        self.dt = self.v[x as usize];
        self.next_program();
    }

    // Fx18 - LD ST, Vx
    fn ld_st_vx(&mut self, x: u8)
        requires
            old(self).wf(),
            x < 16,
        ensures
            final(self)@ == step(old(self)@, Instruction::LdStVx(x), 0).0,
    {
        self.st = self.v[x as usize];
        self.next_program();
    }

    // Fx1E - ADD I, Vx
    fn add_i_vx(&mut self, x: u8)
        requires
            old(self).wf(),
            x < 16,
        ensures
            final(self)@ == step(old(self)@, Instruction::AddIVx(x), 0).0,
    {
        let sum = self.i + self.v[x as usize] as u16;
        self.i = if sum > LAST_ADDRESS { LAST_ADDRESS } else { sum };
        self.next_program();
    }

    // Fx29 - LD F, Vx
    fn ld_f_vx(&mut self, x: u8)
        requires
            old(self).wf(),
            x < 16,
        ensures
            final(self)@ == step(old(self)@, Instruction::LdFVx(x), 0).0,
    {
        let digit = self.v[x as usize] as u16;
        assert(digit * GLYPH_LEN <= 255 * 5) by (nonlinear_arith)
            requires digit <= 255;
        self.i = digit * GLYPH_LEN;
        self.next_program();
    }

    // Fx33 - LD B, Vx
    fn ld_b_vx(&mut self, x: u8) -> (r: Result<(), Fault>)
        requires
            old(self).wf(),
            x < 16,
        ensures
            (final(self)@, r) == step(old(self)@, Instruction::LdBVx(x), 0),
    {
        if self.i + 2 > LAST_ADDRESS {
            return Err(Fault::OutOfBoundsAccess);
        }
        let data = self.v[x as usize];
        let i = self.i as usize;
        self.memory[i] = data / 100;
        self.memory[i + 1] = data / 10 % 10;
        self.memory[i + 2] = data % 10;
        self.next_program();
        Ok(())
    }

    // Fx55 - LD [I], Vx
    fn ld_i_vx(&mut self, x: u8) -> (r: Result<(), Fault>)
        requires
            old(self).wf(),
            x < 16,
        ensures
            (final(self)@, r) == step(old(self)@, Instruction::LdIVx(x), 0),
    {
        if self.i + x as u16 > LAST_ADDRESS {
            return Err(Fault::OutOfBoundsAccess);
        }
        let base = self.i as usize;
        let mut memory = self.memory;
        let mut j: usize = 0;
        while j <= x as usize
            invariant
                x < 16,
                base + x <= LAST_ADDRESS,
                j <= x + 1,
                memory@ =~= Seq::new(MEMORY_SIZE as nat, |k: int|
                    if base <= k < base + j { self.v@[k - base] } else { old(self).memory@[k] }),
            decreases x + 1 - j,
        {
            memory[base + j] = self.v[j];
            j = j + 1;
        }
        assert(memory@ =~= Seq::new(MEMORY_SIZE as nat, |k: int|
            if self.i <= k <= self.i + x { self.v@[k - self.i] } else { old(self).memory@[k] }));
        self.memory = memory;
        self.next_program();
        Ok(())
    }

    // Fx65 - LD Vx, [I]
    fn ld_vx_i(&mut self, x: u8) -> (r: Result<(), Fault>)
        requires
            old(self).wf(),
            x < 16,
        ensures
            (final(self)@, r) == step(old(self)@, Instruction::LdVxI(x), 0),
    {
        if self.i + x as u16 > LAST_ADDRESS {
            return Err(Fault::OutOfBoundsAccess);
        }
        let base = self.i as usize;
        let mut v = self.v;
        let mut j: usize = 0;
        while j <= x as usize
            invariant
                x < 16,
                base + x <= LAST_ADDRESS,
                j <= x + 1,
                v@ =~= Seq::new(16, |k: int| if k < j { self.memory@[base + k] } else { old(self).v@[k] }),
            decreases x + 1 - j,
        {
            v[j] = self.memory[base + j];
            j = j + 1;
        }
        assert(v@ =~= Seq::new(16, |k: int| if k <= x { self.memory@[self.i + k] } else { old(self).v@[k] }));
        self.v = v;
        self.next_program();
        Ok(())
    }
}

} // verus!
