use vstd::prelude::*;

use crate::display::{blank_frame, collides, drawn, frame_wf, lemma_drawn_wf};
use crate::instruction::{instruction_of, Instruction};

verus! {

/// Bytes of memory.
pub const MEMORY_SIZE: usize = 4096;

/// The highest address; the program counter and `I` never exceed it.
pub const LAST_ADDRESS: u16 = 0xFFF;

/// Where programs are loaded and execution starts.
pub const PROGRAM_START: u16 = 0x200;

/// The longest program that fits between `PROGRAM_START` and the end of memory.
pub const MAX_ROM_LEN: usize = 3584;

/// Return addresses the call stack holds.
pub const STACK_SIZE: usize = 16;

/// The register that receives carry, borrow, shift and collision flags.
pub const FLAG: usize = 15;

/// Bytes in one font glyph.
pub const GLYPH_LEN: u16 = 5;

/// What the cycle driver is doing.
#[derive(Clone, Copy, Debug, PartialEq, Eq, Structural)]
pub enum RunState {
    /// Fetching and executing instructions.
    Running,
    /// Blocked in `Fx0A` until a key goes down; the key goes to the register.
    AwaitingKey(u8),
    /// Stopped for good.
    Halted,
}

/// Why an instruction could not run to completion.
#[derive(Clone, Copy, Debug, PartialEq, Eq, Structural)]
pub enum Fault {
    /// The word matches no instruction. The program counter still moves past
    /// it, and the machine may go on.
    UnknownOpcode,
    /// A call with a full stack.
    StackOverflow,
    /// A return with an empty stack.
    StackUnderflow,
    /// A memory access through `I` past the end of memory.
    OutOfBoundsAccess,
}

/// The machine as a mathematical value.
pub struct MachineState {
    /// Registers `V0` to `VF`.
    pub v: Seq<u8>,
    /// The index register.
    pub i: u16,
    /// The stack's slots; those below `sp` hold return addresses.
    pub stack: Seq<u16>,
    /// How many return addresses are on the stack.
    pub sp: u8,
    /// Delay timer.
    pub dt: u8,
    /// Sound timer.
    pub st: u8,
    /// The display, row by row.
    pub frame: Seq<Seq<u8>>,
    /// Program counter.
    pub pc: u16,
    /// Memory.
    pub memory: Seq<u8>,
    /// The logical key that is down, if any.
    pub key: Option<u8>,
    /// What the cycle driver is doing.
    pub run_state: RunState,
}

impl MachineState {
    pub open spec fn wf(self) -> bool {
        &&& self.v.len() == 16
        &&& self.stack.len() == STACK_SIZE
        &&& self.memory.len() == MEMORY_SIZE
        &&& frame_wf(self.frame)
        &&& self.sp <= STACK_SIZE
        &&& self.pc <= LAST_ADDRESS
        &&& self.i <= LAST_ADDRESS
        &&& forall|k: int| 0 <= k < STACK_SIZE ==> #[trigger] self.stack[k] <= LAST_ADDRESS
        &&& match self.key {
            Some(k) => k < 16,
            None => true,
        }
        &&& match self.run_state {
            RunState::AwaitingKey(x) => x < 16,
            _ => true,
        }
    }
}

/// `pc` moved forward by `k` bytes, stopping at the last address.
pub open spec fn advance(pc: u16, k: int) -> u16 {
    if pc + k > LAST_ADDRESS { LAST_ADDRESS } else { (pc + k) as u16 }
}

/// Only the program counter moves, to the next instruction.
pub open spec fn next(m: MachineState) -> MachineState {
    MachineState { pc: advance(m.pc, 2), ..m }
}

/// The next instruction is skipped when `cond` holds.
pub open spec fn skip_if(m: MachineState, cond: bool) -> MachineState {
    MachineState { pc: if cond { advance(m.pc, 4) } else { advance(m.pc, 2) }, ..m }
}

/// `Vx := val`, then the next instruction.
pub open spec fn set_reg(m: MachineState, x: u8, val: u8) -> MachineState {
    MachineState { v: m.v.update(x as int, val), pc: advance(m.pc, 2), ..m }
}

/// `Vx := val`, then `VF := flag`, then the next instruction.
pub open spec fn set_reg_flag(m: MachineState, x: u8, val: u8, flag: u8) -> MachineState {
    MachineState { v: m.v.update(x as int, val).update(FLAG as int, flag), pc: advance(m.pc, 2), ..m }
}

/// The decimal digits of `a`: hundreds, tens, ones.
pub open spec fn bcd(a: u8) -> Seq<u8> {
    seq![(a / 100) as u8, (a / 10 % 10) as u8, (a % 10) as u8]
}

/// One instruction's effect on a running machine, and whether it failed.
/// `rnd` is the random byte that `Cxkk` uses. A failure other than
/// `UnknownOpcode` leaves the machine as it was.
///
/// Policies where the instruction set leaves a choice: the program counter
/// and `Bnnn`'s target stop at the last address instead of wrapping, as does
/// `I` under `Fx1E`; a return pops the very address that the call pushed; the
/// flag register is written after the result register.
pub open spec fn step(m: MachineState, ins: Instruction, rnd: u8) -> (MachineState, Result<(), Fault>) {
    match ins {
        Instruction::Cls => (MachineState { frame: blank_frame(), ..next(m) }, Ok(())),
        Instruction::Ret => if m.sp == 0 {
            (m, Err(Fault::StackUnderflow))
        } else {
            (MachineState { sp: (m.sp - 1) as u8, pc: m.stack[m.sp - 1], ..m }, Ok(()))
        },
        Instruction::Jp(a) => (MachineState { pc: a, ..m }, Ok(())),
        Instruction::Call(a) => if m.sp >= STACK_SIZE {
            (m, Err(Fault::StackOverflow))
        } else {
            (MachineState { stack: m.stack.update(m.sp as int, m.pc), sp: (m.sp + 1) as u8, pc: a, ..m }, Ok(()))
        },
        Instruction::SeVxByte(x, kk) => (skip_if(m, m.v[x as int] == kk), Ok(())),
        Instruction::SneVxByte(x, kk) => (skip_if(m, m.v[x as int] != kk), Ok(())),
        Instruction::SeVxVy(x, y) => (skip_if(m, m.v[x as int] == m.v[y as int]), Ok(())),
        Instruction::LdVxByte(x, kk) => (set_reg(m, x, kk), Ok(())),
        Instruction::AddVxByte(x, kk) => (set_reg(m, x, ((m.v[x as int] + kk) % 256) as u8), Ok(())),
        Instruction::LdVxVy(x, y) => (set_reg(m, x, m.v[y as int]), Ok(())),
        Instruction::OrVxVy(x, y) => (set_reg(m, x, m.v[x as int] | m.v[y as int]), Ok(())),
        Instruction::AndVxVy(x, y) => (set_reg(m, x, m.v[x as int] & m.v[y as int]), Ok(())),
        Instruction::XorVxVy(x, y) => (set_reg(m, x, m.v[x as int] ^ m.v[y as int]), Ok(())),
        Instruction::AddVxVy(x, y) => {
            let (a, b) = (m.v[x as int], m.v[y as int]);
            (set_reg_flag(m, x, ((a + b) % 256) as u8, if a + b > 255 { 1 } else { 0 }), Ok(()))
        },
        Instruction::SubVxVy(x, y) => {
            let (a, b) = (m.v[x as int], m.v[y as int]);
            (set_reg_flag(m, x, ((a - b) % 256) as u8, if a >= b { 1 } else { 0 }), Ok(()))
        },
        Instruction::ShrVx(x) => {
            let a = m.v[x as int];
            (set_reg_flag(m, x, a / 2, a % 2), Ok(()))
        },
        Instruction::SubnVxVy(x, y) => {
            let (a, b) = (m.v[x as int], m.v[y as int]);
            (set_reg_flag(m, x, ((b - a) % 256) as u8, if b >= a { 1 } else { 0 }), Ok(()))
        },
        Instruction::ShlVx(x) => {
            let a = m.v[x as int];
            (set_reg_flag(m, x, ((a * 2) % 256) as u8, a / 128), Ok(()))
        },
        Instruction::SneVxVy(x, y) => (skip_if(m, m.v[x as int] != m.v[y as int]), Ok(())),
        Instruction::LdIAddr(a) => (MachineState { i: a, ..next(m) }, Ok(())),
        Instruction::JpV0Addr(a) => (MachineState { pc: advance(a, m.v[0] as int), ..m }, Ok(())),
        Instruction::RndVxByte(x, kk) => (set_reg(m, x, rnd & kk), Ok(())),
        Instruction::Drw(x, y, n) => if m.i + n > MEMORY_SIZE {
            (m, Err(Fault::OutOfBoundsAccess))
        } else {
            let sprite = m.memory.subrange(m.i as int, m.i + n);
            let (vx, vy) = (m.v[x as int], m.v[y as int]);
            (MachineState {
                frame: drawn(m.frame, sprite, vx, vy),
                v: m.v.update(FLAG as int, if collides(m.frame, sprite, vx, vy) { 1 } else { 0 }),
                ..next(m)
            }, Ok(()))
        },
        Instruction::SkpVx(x) => (skip_if(m, m.key == Some(m.v[x as int])), Ok(())),
        Instruction::SknpVx(x) => (skip_if(m, m.key != Some(m.v[x as int])), Ok(())),
        Instruction::LdVxDt(x) => (set_reg(m, x, m.dt), Ok(())),
        Instruction::LdVxK(x) => match m.key {
            Some(k) => (set_reg(m, x, k), Ok(())),
            None => (MachineState { run_state: RunState::AwaitingKey(x), ..m }, Ok(())),
        },
        Instruction::LdDtVx(x) => (MachineState { dt: m.v[x as int], ..next(m) }, Ok(())),
        Instruction::LdStVx(x) => (MachineState { st: m.v[x as int], ..next(m) }, Ok(())),
        Instruction::AddIVx(x) => (MachineState { i: advance(m.i, m.v[x as int] as int), ..next(m) }, Ok(())),
        Instruction::LdFVx(x) => (MachineState { i: (m.v[x as int] * GLYPH_LEN) as u16, ..next(m) }, Ok(())),
        Instruction::LdBVx(x) => if m.i + 2 > LAST_ADDRESS {
            (m, Err(Fault::OutOfBoundsAccess))
        } else {
            let d = bcd(m.v[x as int]);
            (MachineState {
                memory: m.memory.update(m.i as int, d[0]).update(m.i + 1, d[1]).update(m.i + 2, d[2]),
                ..next(m)
            }, Ok(()))
        },
        Instruction::LdIVx(x) => if m.i + x > LAST_ADDRESS {
            (m, Err(Fault::OutOfBoundsAccess))
        } else {
            (MachineState {
                memory: Seq::new(MEMORY_SIZE as nat, |k: int| if m.i <= k <= m.i + x { m.v[k - m.i] } else { m.memory[k] }),
                ..next(m)
            }, Ok(()))
        },
        Instruction::LdVxI(x) => if m.i + x > LAST_ADDRESS {
            (m, Err(Fault::OutOfBoundsAccess))
        } else {
            (MachineState {
                v: Seq::new(16, |k: int| if k <= x { m.memory[m.i + k] } else { m.v[k] }),
                ..next(m)
            }, Ok(()))
        },
        Instruction::Unknown(_) => (next(m), Err(Fault::UnknownOpcode)),
    }
}

/// The built-in font: sixteen glyphs, 0 to F, five rows each.
pub open spec fn font() -> Seq<u8> {
    seq![
        0xF0u8, 0x90, 0x90, 0x90, 0xF0, 0x20, 0x60, 0x20, 0x20, 0x70,
        0xF0, 0x10, 0xF0, 0x80, 0xF0, 0xF0, 0x10, 0xF0, 0x10, 0xF0,
        0x90, 0x90, 0xF0, 0x10, 0x10, 0xF0, 0x80, 0xF0, 0x10, 0xF0,
        0xF0, 0x80, 0xF0, 0x90, 0xF0, 0xF0, 0x10, 0x20, 0x40, 0x40,
        0xF0, 0x90, 0xF0, 0x90, 0xF0, 0xF0, 0x90, 0xF0, 0x10, 0xF0,
        0xF0, 0x90, 0xF0, 0x90, 0x90, 0xE0, 0x90, 0xE0, 0x90, 0xE0,
        0xF0, 0x80, 0x80, 0x80, 0xF0, 0xE0, 0x90, 0x90, 0x90, 0xE0,
        0xF0, 0x80, 0xF0, 0x80, 0xF0, 0xF0, 0x80, 0xF0, 0x80, 0x80
    ]
}

/// A fresh machine: the font at address 0, everything else zero, the
/// program counter at `PROGRAM_START`, running.
pub open spec fn initial_state() -> MachineState {
    MachineState {
        v: Seq::new(16, |k: int| 0u8),
        i: 0,
        stack: Seq::new(STACK_SIZE as nat, |k: int| 0u16),
        sp: 0,
        dt: 0,
        st: 0,
        frame: blank_frame(),
        pc: PROGRAM_START,
        memory: Seq::new(MEMORY_SIZE as nat, |k: int| if k < font().len() { font()[k] } else { 0u8 }),
        key: None,
        run_state: RunState::Running,
    }
}

/// The machine with `rom` copied into memory from `PROGRAM_START` on.
pub open spec fn loaded(m: MachineState, rom: Seq<u8>) -> MachineState {
    MachineState {
        memory: Seq::new(MEMORY_SIZE as nat, |k: int|
            if PROGRAM_START <= k < PROGRAM_START + rom.len() { rom[k - PROGRAM_START] } else { m.memory[k] }),
        ..m
    }
}

/// The big-endian instruction word at the program counter, if both of its
/// bytes lie in memory.
pub open spec fn opcode_at(m: MachineState) -> Option<u16> {
    if m.pc + 1 < MEMORY_SIZE {
        Some((m.memory[m.pc as int] * 256 + m.memory[m.pc + 1]) as u16)
    } else {
        None
    }
}

/// Both timers count down by one unless already at zero.
pub open spec fn tick_timers(m: MachineState) -> MachineState {
    MachineState {
        dt: if m.dt > 0 { (m.dt - 1) as u8 } else { 0 },
        st: if m.st > 0 { (m.st - 1) as u8 } else { 0 },
        ..m
    }
}

/// The timers count down when a tick of their clock is due.
pub open spec fn timers_after(m: MachineState, timer_tick: bool) -> MachineState {
    if timer_tick { tick_timers(m) } else { m }
}

/// A failed cycle: what went wrong, at which address, on which word (none
/// when the word could not be fetched).
#[derive(Clone, Copy, Debug, PartialEq, Eq, Structural)]
pub struct CycleError {
    pub fault: Fault,
    pub pc: u16,
    pub opcode: Option<u16>,
}

/// The machine stops for good.
pub open spec fn halted(m: MachineState) -> MachineState {
    MachineState { run_state: RunState::Halted, ..m }
}

/// One pass of the cycle driver.
///
/// `quit` is the operator's request to stop, `execute` says that the
/// instruction throttle lets an instruction run, and `timer_tick` that a tick
/// of the timers' clock is due. `rnd` is the random byte that `Cxkk` uses.
/// A halted machine stays as it is. A quit halts it. A running machine fetches
/// and executes one instruction when `execute` holds; a fatal fault halts it
/// with nothing else changed, an unknown word is reported and skipped. A
/// machine awaiting a key takes the key that is down, if any, and runs on.
/// The timers count down when `timer_tick` holds, in waiting too.
pub open spec fn cycle_step(m: MachineState, quit: bool, execute: bool, timer_tick: bool, rnd: u8)
    -> (MachineState, Result<(), CycleError>) {
    if m.run_state == RunState::Halted {
        (m, Ok(()))
    } else if quit {
        (halted(m), Ok(()))
    } else {
        match m.run_state {
            RunState::AwaitingKey(x) => match m.key {
                Some(k) => (timers_after(MachineState { run_state: RunState::Running, ..set_reg(m, x, k) }, timer_tick), Ok(())),
                None => (timers_after(m, timer_tick), Ok(())),
            },
            _ => if !execute {
                (timers_after(m, timer_tick), Ok(()))
            } else {
                match opcode_at(m) {
                    None => (halted(m), Err(CycleError { fault: Fault::OutOfBoundsAccess, pc: m.pc, opcode: None })),
                    Some(code) => {
                        let (n, r) = step(m, instruction_of(code), rnd);
                        match r {
                            Ok(()) => (timers_after(n, timer_tick), Ok(())),
                            Err(Fault::UnknownOpcode) => (timers_after(n, timer_tick),
                                Err(CycleError { fault: Fault::UnknownOpcode, pc: m.pc, opcode: Some(code) })),
                            Err(f) => (halted(n), Err(CycleError { fault: f, pc: m.pc, opcode: Some(code) })),
                        }
                    },
                }
            },
        }
    }
}

/// Every instruction keeps a well-formed machine well-formed.
pub proof fn lemma_step_wf(m: MachineState, ins: Instruction, rnd: u8)
    requires
        m.wf(),
        ins.wf(),
    ensures
        step(m, ins, rnd).0.wf(),
{
    match ins {
        Instruction::Drw(x, y, n) => {
            if m.i + n <= MEMORY_SIZE {
                lemma_drawn_wf(m.frame, m.memory.subrange(m.i as int, m.i + n), m.v[x as int], m.v[y as int]);
            }
        },
        Instruction::Call(a) => {
            if m.sp < STACK_SIZE {
                let s = step(m, ins, rnd).0;
                assert forall|k: int| 0 <= k < STACK_SIZE implies #[trigger] s.stack[k] <= LAST_ADDRESS by {
                    if k != m.sp {
                        assert(s.stack[k] == m.stack[k]);
                    }
                }
            }
        },
        Instruction::LdFVx(x) => {
            assert(m.v[x as int] * GLYPH_LEN <= 255 * 5) by (nonlinear_arith)
                requires m.v[x as int] <= 255;
        },
        _ => {},
    }
}

} // verus!
