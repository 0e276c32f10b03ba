use vstd::prelude::*;

use crate::error::EmuError;
use crate::instruction::Instruction;
use crate::sprite::{draw_collides, draw_screen};

verus! {

/// Bytes of emulated memory.
pub const RAM_SIZE: usize = 4096;

/// Cells of the framebuffer (64 wide, 32 high).
pub const SCREEN_CELLS: usize = 2048;

/// General-purpose registers; the last one doubles as the flag register.
pub const NUM_REGS: usize = 16;

/// Keys of the keypad.
pub const NUM_KEYS: usize = 16;

/// Return addresses the call stack can hold.
pub const STACK_SIZE: usize = 16;

/// Address at which programs are loaded and execution starts.
pub const START_ADDR: u16 = 0x200;

/// Bytes of the built-in hexadecimal font (five per glyph).
pub const FONTSET_SIZE: usize = 80;

/// The abstract machine: every value the interpreter keeps.
pub struct EmuState {
    pub pc: u16,
    pub ram: Seq<u8>,
    pub screen: Seq<bool>,
    pub v: Seq<u8>,
    pub i: u16,
    /// Return addresses, the most recent last.
    pub stack: Seq<u16>,
    pub keys: Seq<bool>,
    pub dt: u8,
    pub st: u8,
}

/// The 16 glyphs 0-F, five rows each.
pub open spec fn font() -> Seq<u8> {
    seq![
        0xF0u8, 0x90, 0x90, 0x90, 0xF0,
        0x20, 0x60, 0x20, 0x20, 0x70,
        0xF0, 0x10, 0xF0, 0x80, 0xF0,
        0xF0, 0x10, 0xF0, 0x10, 0xF0,
        0x90, 0x90, 0xF0, 0x10, 0x10,
        0xF0, 0x80, 0xF0, 0x10, 0xF0,
        0xF0, 0x80, 0xF0, 0x90, 0xF0,
        0xF0, 0x10, 0x20, 0x40, 0x40,
        0xF0, 0x90, 0xF0, 0x90, 0xF0,
        0xF0, 0x90, 0xF0, 0x10, 0xF0,
        0xF0, 0x90, 0xF0, 0x90, 0x90,
        0xE0, 0x90, 0xE0, 0x90, 0xE0,
        0xF0, 0x80, 0x80, 0x80, 0xF0,
        0xE0, 0x90, 0x90, 0x90, 0xE0,
        0xF0, 0x80, 0xF0, 0x80, 0xF0,
        0xF0, 0x80, 0xF0, 0x80, 0x80,
    ]
}

/// The machine as `new` and `reset` leave it: font at address 0, the rest
/// of memory zero, everything else cleared, execution at `START_ADDR`.
pub open spec fn initial_state() -> EmuState {
    EmuState {
        pc: START_ADDR,
        ram: Seq::new(RAM_SIZE as nat, |a: int| if a < FONTSET_SIZE { font()[a] } else { 0u8 }),
        screen: Seq::new(SCREEN_CELLS as nat, |c: int| false),
        v: Seq::new(NUM_REGS as nat, |r: int| 0u8),
        i: 0,
        stack: Seq::empty(),
        keys: Seq::new(NUM_KEYS as nat, |k: int| false),
        dt: 0,
        st: 0,
    }
}

/// Index of the lowest pressed key at or above `k`, or the number of keys
/// when none is pressed there.
pub open spec fn lowest_pressed(keys: Seq<bool>, k: int) -> int
    decreases keys.len() - k,
{
    if k >= keys.len() {
        keys.len() as int
    } else if keys[k] {
        k
    } else {
        lowest_pressed(keys, k + 1)
    }
}

/// Writes `bytes` into `ram` from address `at` on.
pub open spec fn write_bytes(ram: Seq<u8>, at: int, bytes: Seq<u8>) -> Seq<u8> {
    Seq::new(ram.len(), |a: int| if at <= a < at + bytes.len() { bytes[a - at] } else { ram[a] })
}

impl EmuState {
    /// Sizes of the fixed parts, and a stack within its capacity.
    pub open spec fn wf(self) -> bool {
        &&& self.ram.len() == RAM_SIZE
        &&& self.screen.len() == SCREEN_CELLS
        &&& self.v.len() == NUM_REGS
        &&& self.keys.len() == NUM_KEYS
        &&& self.stack.len() <= STACK_SIZE
    }

    pub open spec fn with_pc(self, pc: u16) -> EmuState {
        EmuState { pc, ..self }
    }

    pub open spec fn with_reg(self, x: int, val: u8) -> EmuState {
        EmuState { v: self.v.update(x, val), ..self }
    }

    /// Register `x` set to `val`, then the flag register to `flag`.
    pub open spec fn with_flagged(self, x: int, val: u8, flag: u8) -> EmuState {
        EmuState { v: self.v.update(x, val).update(0xF, flag), ..self }
    }

    /// Skips the next instruction when `cond` holds.
    pub open spec fn skip_if(self, cond: bool) -> EmuState {
        if cond {
            self.with_pc(((self.pc + 2) % 0x10000) as u16)
        } else {
            self
        }
    }

    /// The opcode stored at the program counter, high byte first.
    pub open spec fn opcode_at_pc(self) -> u16 {
        (self.ram[self.pc as int] as int * 256 + self.ram[self.pc + 1] as int) as u16
    }

    /// What loading `bytes` makes of this machine.
    pub open spec fn loaded(self, bytes: Seq<u8>) -> EmuState {
        EmuState { ram: write_bytes(self.ram, START_ADDR as int, bytes), ..self }
    }

    /// One tick of the 60 Hz timers: each counts down to zero and stays there.
    pub open spec fn timers_ticked(self) -> EmuState {
        EmuState {
            dt: if self.dt > 0 { (self.dt - 1) as u8 } else { 0 },
            st: if self.st > 0 { (self.st - 1) as u8 } else { 0 },
            ..self
        }
    }
}

/// The effect of one instruction on a machine whose program counter has
/// already moved past it; `rnd` is the random byte that `Rand` uses.
pub open spec fn exec_spec(s: EmuState, ins: Instruction, rnd: u8) -> Result<EmuState, EmuError> {
    match ins {
        Instruction::Nop => Ok(s),
        Instruction::Cls => Ok(EmuState { screen: Seq::new(SCREEN_CELLS as nat, |c: int| false), ..s }),
        Instruction::Ret => if s.stack.len() == 0 {
            Err(EmuError::StackUnderflow)
        } else {
            Ok(EmuState { pc: s.stack.last(), stack: s.stack.drop_last(), ..s })
        },
        Instruction::Jmp { addr } => Ok(s.with_pc(addr)),
        Instruction::Call { addr } => if s.stack.len() >= STACK_SIZE {
            Err(EmuError::StackOverflow)
        } else {
            Ok(EmuState { pc: addr, stack: s.stack.push(s.pc), ..s })
        },
        Instruction::SkipEqImm { x, nn } => Ok(s.skip_if(s.v[x as int] == nn)),
        Instruction::SkipNeqImm { x, nn } => Ok(s.skip_if(s.v[x as int] != nn)),
        Instruction::SkipEqReg { x, y } => Ok(s.skip_if(s.v[x as int] == s.v[y as int])),
        Instruction::SkipNeqReg { x, y } => Ok(s.skip_if(s.v[x as int] != s.v[y as int])),
        Instruction::LoadImm { x, nn } => Ok(s.with_reg(x as int, nn)),
        Instruction::AddImm { x, nn } => Ok(s.with_reg(x as int, ((s.v[x as int] + nn) % 256) as u8)),
        Instruction::Mov { x, y } => Ok(s.with_reg(x as int, s.v[y as int])),
        Instruction::Or { x, y } => Ok(s.with_reg(x as int, s.v[x as int] | s.v[y as int])),
        Instruction::And { x, y } => Ok(s.with_reg(x as int, s.v[x as int] & s.v[y as int])),
        Instruction::Xor { x, y } => Ok(s.with_reg(x as int, s.v[x as int] ^ s.v[y as int])),
        Instruction::Add { x, y } => {
            let sum = s.v[x as int] + s.v[y as int];
            Ok(s.with_flagged(x as int, (sum % 256) as u8, if sum > 255 { 1 } else { 0 }))
        },
        Instruction::Sub { x, y } => {
            let a = s.v[x as int];
            let b = s.v[y as int];
            Ok(s.with_flagged(x as int, ((a - b) % 256) as u8, if a >= b { 1 } else { 0 }))
        },
        Instruction::Subn { x, y } => {
            let a = s.v[x as int];
            let b = s.v[y as int];
            Ok(s.with_flagged(x as int, ((b - a) % 256) as u8, if b >= a { 1 } else { 0 }))
        },
        Instruction::Shr { x } => {
            let a = s.v[x as int];
            Ok(s.with_flagged(x as int, (a / 2) as u8, (a % 2) as u8))
        },
        Instruction::Shl { x } => {
            let a = s.v[x as int];
            Ok(s.with_flagged(x as int, ((a * 2) % 256) as u8, (a / 128) as u8))
        },
        Instruction::LoadI { addr } => Ok(EmuState { i: addr, ..s }),
        Instruction::JmpOffset { addr } => Ok(s.with_pc((s.v[0] + addr) as u16)),
        Instruction::Rand { x, nn } => Ok(s.with_reg(x as int, rnd & nn)),
        Instruction::Draw { x, y, n } => if s.i + n > RAM_SIZE {
            Err(EmuError::MemoryOutOfRange)
        } else {
            let vx = s.v[x as int];
            let vy = s.v[y as int];
            let flag: u8 = if draw_collides(s.screen, s.ram, s.i as int, vx as int, vy as int, n as int) {
                1
            } else {
                0
            };
            Ok(EmuState {
                screen: draw_screen(s.screen, s.ram, s.i as int, vx as int, vy as int, n as int),
                v: s.v.update(0xF, flag),
                ..s
            })
        },
        Instruction::SkipKey { x } => if s.v[x as int] >= NUM_KEYS {
            Err(EmuError::KeyOutOfRange)
        } else {
            Ok(s.skip_if(s.keys[s.v[x as int] as int]))
        },
        Instruction::SkipNoKey { x } => if s.v[x as int] >= NUM_KEYS {
            Err(EmuError::KeyOutOfRange)
        } else {
            Ok(s.skip_if(!s.keys[s.v[x as int] as int]))
        },
        Instruction::LoadDt { x } => Ok(s.with_reg(x as int, s.dt)),
        Instruction::WaitKey { x } => {
            let k = lowest_pressed(s.keys, 0);
            if k < NUM_KEYS {
                Ok(s.with_reg(x as int, k as u8))
            } else {
                Ok(s.with_pc(((s.pc + 0xFFFE) % 0x10000) as u16))
            }
        },
        Instruction::SetDt { x } => Ok(EmuState { dt: s.v[x as int], ..s }),
        Instruction::SetSt { x } => Ok(EmuState { st: s.v[x as int], ..s }),
        Instruction::AddI { x } => Ok(EmuState { i: ((s.i + s.v[x as int]) % 0x10000) as u16, ..s }),
        Instruction::FontAddr { x } => Ok(EmuState { i: (s.v[x as int] * 5) as u16, ..s }),
        Instruction::Bcd { x } => if s.i + 3 > RAM_SIZE {
            Err(EmuError::MemoryOutOfRange)
        } else {
            let a = s.v[x as int];
            Ok(EmuState {
                ram: write_bytes(s.ram, s.i as int, seq![(a / 100) as u8, ((a / 10) % 10) as u8, (a % 10) as u8]),
                ..s
            })
        },
        Instruction::StoreRegs { x } => if s.i + x + 1 > RAM_SIZE {
            Err(EmuError::MemoryOutOfRange)
        } else {
            Ok(EmuState { ram: write_bytes(s.ram, s.i as int, s.v.subrange(0, x + 1)), ..s })
        },
        Instruction::LoadRegs { x } => if s.i + x + 1 > RAM_SIZE {
            Err(EmuError::MemoryOutOfRange)
        } else {
            Ok(EmuState { v: write_bytes(s.v, 0, s.ram.subrange(s.i as int, s.i + x + 1)), ..s })
        },
    }
}

/// The effect of one `tick`: fetch the opcode at the program counter, move
/// past it, decode and execute it. On any error the machine is left as it was.
pub open spec fn step_spec(s: EmuState, rnd: u8) -> Result<EmuState, EmuError> {
    if s.pc + 2 > RAM_SIZE {
        Err(EmuError::MemoryOutOfRange)
    } else {
        let op = s.opcode_at_pc();
        match crate::instruction::decode_spec(op) {
            None => Err(EmuError::UnknownOpcode(op)),
            Some(ins) => exec_spec(s.with_pc((s.pc + 2) as u16), ins, rnd),
        }
    }
}

} // verus!
