use vstd::prelude::*;

verus! {

/// One decoded CHIP-8 instruction.
///
/// Register operands `x` and `y` are register indices (0..=15), `nn` is an
/// 8-bit immediate, `addr` a 12-bit address and `n` a 4-bit sprite height.
#[derive(Clone, Copy, Debug, PartialEq, Eq, Structural)]
pub enum Instruction {
    Nop,
    Cls,
    Ret,
    Jmp { addr: u16 },
    Call { addr: u16 },
    SkipEqImm { x: u8, nn: u8 },
    SkipNeqImm { x: u8, nn: u8 },
    SkipEqReg { x: u8, y: u8 },
    LoadImm { x: u8, nn: u8 },
    AddImm { x: u8, nn: u8 },
    Mov { x: u8, y: u8 },
    Or { x: u8, y: u8 },
    And { x: u8, y: u8 },
    Xor { x: u8, y: u8 },
    Add { x: u8, y: u8 },
    Sub { x: u8, y: u8 },
    Shr { x: u8 },
    Subn { x: u8, y: u8 },
    Shl { x: u8 },
    SkipNeqReg { x: u8, y: u8 },
    LoadI { addr: u16 },
    JmpOffset { addr: u16 },
    Rand { x: u8, nn: u8 },
    Draw { x: u8, y: u8, n: u8 },
    SkipKey { x: u8 },
    SkipNoKey { x: u8 },
    LoadDt { x: u8 },
    WaitKey { x: u8 },
    SetDt { x: u8 },
    SetSt { x: u8 },
    AddI { x: u8 },
    FontAddr { x: u8 },
    Bcd { x: u8 },
    StoreRegs { x: u8 },
    LoadRegs { x: u8 },
}

/// The first (most significant) nibble of an opcode.
pub open spec fn op_kind(op: u16) -> u16 {
    op >> 12u16
}

/// The second nibble: the `x` register operand.
pub open spec fn op_x(op: u16) -> u16 {
    (op >> 8u16) & 0xFu16
}

/// The third nibble: the `y` register operand.
pub open spec fn op_y(op: u16) -> u16 {
    (op >> 4u16) & 0xFu16
}

/// The last nibble.
pub open spec fn op_n(op: u16) -> u16 {
    op & 0xFu16
}

/// The low byte: an 8-bit immediate.
pub open spec fn op_nn(op: u16) -> u16 {
    op & 0xFFu16
}

/// The low twelve bits: an address.
pub open spec fn op_nnn(op: u16) -> u16 {
    op & 0xFFFu16
}

/// The opcode built from four nibbles, most significant first.
pub open spec fn opcode(a: u16, b: u16, c: u16, d: u16) -> u16 {
    ((a << 12u16) | (b << 8u16) | (c << 4u16) | d) as u16
}

proof fn lemma_fields_bounded(op: u16)
    ensures
        op_kind(op) < 16,
        op_x(op) < 16,
        op_y(op) < 16,
        op_n(op) < 16,
        op_nn(op) < 256,
        op_nnn(op) < 4096,
{
    assert(op >> 12u16 < 16) by (bit_vector);
    assert((op >> 8u16) & 0xFu16 < 16) by (bit_vector);
    assert((op >> 4u16) & 0xFu16 < 16) by (bit_vector);
    assert(op & 0xFu16 < 16) by (bit_vector);
    assert(op & 0xFFu16 < 256) by (bit_vector);
    assert(op & 0xFFFu16 < 4096) by (bit_vector);
}

/// Splitting the opcode built from four nibbles gives those nibbles back.
pub proof fn lemma_opcode_fields(a: u16, b: u16, c: u16, d: u16)
    requires
        a < 16,
        b < 16,
        c < 16,
        d < 16,
    ensures
        op_kind(opcode(a, b, c, d)) == a,
        op_x(opcode(a, b, c, d)) == b,
        op_y(opcode(a, b, c, d)) == c,
        op_n(opcode(a, b, c, d)) == d,
        op_nn(opcode(a, b, c, d)) == c * 16 + d,
        op_nnn(opcode(a, b, c, d)) == b * 256 + c * 16 + d,
        opcode(a, b, c, d) == a * 4096 + b * 256 + c * 16 + d,
{
    let op = opcode(a, b, c, d);
    assert(((((a << 12u16) | (b << 8u16) | (c << 4u16) | d) as u16) >> 12u16) == a) by (bit_vector)
        requires
            a < 16,
            b < 16,
            c < 16,
            d < 16,
    ;
    assert(((((((a << 12u16) | (b << 8u16) | (c << 4u16) | d) as u16) >> 8u16) & 0xFu16)) == b)
        by (bit_vector)
        requires
            a < 16,
            b < 16,
            c < 16,
            d < 16,
    ;
    assert(((((((a << 12u16) | (b << 8u16) | (c << 4u16) | d) as u16) >> 4u16) & 0xFu16)) == c)
        by (bit_vector)
        requires
            a < 16,
            b < 16,
            c < 16,
            d < 16,
    ;
    assert((((((a << 12u16) | (b << 8u16) | (c << 4u16) | d) as u16) & 0xFu16)) == d)
        by (bit_vector)
        requires
            a < 16,
            b < 16,
            c < 16,
            d < 16,
    ;
    assert((((((a << 12u16) | (b << 8u16) | (c << 4u16) | d) as u16) & 0xFFu16)) == c * 16 + d)
        by (bit_vector)
        requires
            a < 16,
            b < 16,
            c < 16,
            d < 16,
    ;
    assert((((((a << 12u16) | (b << 8u16) | (c << 4u16) | d) as u16) & 0xFFFu16)) == b * 256 + c
        * 16 + d) by (bit_vector)
        requires
            a < 16,
            b < 16,
            c < 16,
            d < 16,
    ;
    assert((((a << 12u16) | (b << 8u16) | (c << 4u16) | d) as u16) == a * 4096 + b * 256 + c * 16
        + d) by (bit_vector)
        requires
            a < 16,
            b < 16,
            c < 16,
            d < 16,
    ;
}

impl Instruction {
    /// Operands lie in their ranges: registers and heights below 16,
    /// addresses below 4096.
    pub open spec fn wf(self) -> bool {
        match self {
            Instruction::Jmp { addr } => addr < 4096,
            Instruction::Call { addr } => addr < 4096,
            Instruction::LoadI { addr } => addr < 4096,
            Instruction::JmpOffset { addr } => addr < 4096,
            Instruction::SkipEqImm { x, nn } => x < 16,
            Instruction::SkipNeqImm { x, nn } => x < 16,
            Instruction::LoadImm { x, nn } => x < 16,
            Instruction::AddImm { x, nn } => x < 16,
            Instruction::Rand { x, nn } => x < 16,
            Instruction::SkipEqReg { x, y } => x < 16 && y < 16,
            Instruction::Mov { x, y } => x < 16 && y < 16,
            Instruction::Or { x, y } => x < 16 && y < 16,
            Instruction::And { x, y } => x < 16 && y < 16,
            Instruction::Xor { x, y } => x < 16 && y < 16,
            Instruction::Add { x, y } => x < 16 && y < 16,
            Instruction::Sub { x, y } => x < 16 && y < 16,
            Instruction::Subn { x, y } => x < 16 && y < 16,
            Instruction::SkipNeqReg { x, y } => x < 16 && y < 16,
            Instruction::Draw { x, y, n } => x < 16 && y < 16 && n < 16,
            Instruction::Shr { x } => x < 16,
            Instruction::Shl { x } => x < 16,
            Instruction::SkipKey { x } => x < 16,
            Instruction::SkipNoKey { x } => x < 16,
            Instruction::LoadDt { x } => x < 16,
            Instruction::WaitKey { x } => x < 16,
            Instruction::SetDt { x } => x < 16,
            Instruction::SetSt { x } => x < 16,
            Instruction::AddI { x } => x < 16,
            Instruction::FontAddr { x } => x < 16,
            Instruction::Bcd { x } => x < 16,
            Instruction::StoreRegs { x } => x < 16,
            Instruction::LoadRegs { x } => x < 16,
            _ => true,
        }
    }
}

/// The instruction that an opcode encodes, or `None` for an opcode outside
/// the instruction set.
pub open spec fn decode_spec(op: u16) -> Option<Instruction> {
    let k = op_kind(op);
    let x = op_x(op) as u8;
    let y = op_y(op) as u8;
    let n = op_n(op);
    let nn = op_nn(op) as u8;
    let addr = op_nnn(op);
    if k == 0 {
        if op == 0x0000 {
            Some(Instruction::Nop)
        } else if op == 0x00E0 {
            Some(Instruction::Cls)
        } else if op == 0x00EE {
            Some(Instruction::Ret)
        } else {
            None
        }
    } else if k == 1 {
        Some(Instruction::Jmp { addr })
    } else if k == 2 {
        Some(Instruction::Call { addr })
    } else if k == 3 {
        Some(Instruction::SkipEqImm { x, nn })
    } else if k == 4 {
        Some(Instruction::SkipNeqImm { x, nn })
    } else if k == 5 {
        if n == 0 {
            Some(Instruction::SkipEqReg { x, y })
        } else {
            None
        }
    } else if k == 6 {
        Some(Instruction::LoadImm { x, nn })
    } else if k == 7 {
        Some(Instruction::AddImm { x, nn })
    } else if k == 8 {
        if n == 0 {
            Some(Instruction::Mov { x, y })
        } else if n == 1 {
            Some(Instruction::Or { x, y })
        } else if n == 2 {
            Some(Instruction::And { x, y })
        } else if n == 3 {
            Some(Instruction::Xor { x, y })
        } else if n == 4 {
            Some(Instruction::Add { x, y })
        } else if n == 5 {
            Some(Instruction::Sub { x, y })
        } else if n == 6 {
            Some(Instruction::Shr { x })
        } else if n == 7 {
            Some(Instruction::Subn { x, y })
        } else if n == 0xE {
            Some(Instruction::Shl { x })
        } else {
            None
        }
    } else if k == 9 {
        if n == 0 {
            Some(Instruction::SkipNeqReg { x, y })
        } else {
            None
        }
    } else if k == 0xA {
        Some(Instruction::LoadI { addr })
    } else if k == 0xB {
        Some(Instruction::JmpOffset { addr })
    } else if k == 0xC {
        Some(Instruction::Rand { x, nn })
    } else if k == 0xD {
        Some(Instruction::Draw { x, y, n: n as u8 })
    } else if k == 0xE {
        if op_nn(op) == 0x9E {
            Some(Instruction::SkipKey { x })
        } else if op_nn(op) == 0xA1 {
            Some(Instruction::SkipNoKey { x })
        } else {
            None
        }
    } else {
        let low = op_nn(op);
        if low == 0x07 {
            Some(Instruction::LoadDt { x })
        } else if low == 0x0A {
            Some(Instruction::WaitKey { x })
        } else if low == 0x15 {
            Some(Instruction::SetDt { x })
        } else if low == 0x18 {
            Some(Instruction::SetSt { x })
        } else if low == 0x1E {
            Some(Instruction::AddI { x })
        } else if low == 0x29 {
            Some(Instruction::FontAddr { x })
        } else if low == 0x33 {
            Some(Instruction::Bcd { x })
        } else if low == 0x55 {
            Some(Instruction::StoreRegs { x })
        } else if low == 0x65 {
            Some(Instruction::LoadRegs { x })
        } else {
            None
        }
    }
}

/// Decodes a 16-bit opcode; `None` when it is no instruction of the set.
pub fn decode(op: u16) -> (r: Option<Instruction>)
    ensures
        r == decode_spec(op),
        r matches Some(ins) ==> ins.wf(),
{
    proof {
        lemma_fields_bounded(op);
    }
    let k = op >> 12u16;
    let x = ((op >> 8u16) & 0xFu16) as u8;
    let y = ((op >> 4u16) & 0xFu16) as u8;
    let n = op & 0xFu16;
    let low = op & 0xFFu16;
    let nn = low as u8;
    let addr = op & 0xFFFu16;
    if k == 0 {
        if op == 0x0000 {
            Some(Instruction::Nop)
        } else if op == 0x00E0 {
            Some(Instruction::Cls)
        } else if op == 0x00EE {
            Some(Instruction::Ret)
        } else {
            None
        }
    } else if k == 1 {
        Some(Instruction::Jmp { addr })
    } else if k == 2 {
        Some(Instruction::Call { addr })
    } else if k == 3 {
        Some(Instruction::SkipEqImm { x, nn })
    } else if k == 4 {
        Some(Instruction::SkipNeqImm { x, nn })
    } else if k == 5 {
        if n == 0 {
            Some(Instruction::SkipEqReg { x, y })
        } else {
            None
        }
    } else if k == 6 {
        Some(Instruction::LoadImm { x, nn })
    } else if k == 7 {
        Some(Instruction::AddImm { x, nn })
    } else if k == 8 {
        if n == 0 {
            Some(Instruction::Mov { x, y })
        } else if n == 1 {
            Some(Instruction::Or { x, y })
        } else if n == 2 {
            Some(Instruction::And { x, y })
        } else if n == 3 {
            Some(Instruction::Xor { x, y })
        } else if n == 4 {
            Some(Instruction::Add { x, y })
        } else if n == 5 {
            Some(Instruction::Sub { x, y })
        } else if n == 6 {
            Some(Instruction::Shr { x })
        } else if n == 7 {
            Some(Instruction::Subn { x, y })
        } else if n == 0xE {
            Some(Instruction::Shl { x })
        } else {
            None
        }
    } else if k == 9 {
        if n == 0 {
            Some(Instruction::SkipNeqReg { x, y })
        } else {
            None
        }
    } else if k == 0xA {
        Some(Instruction::LoadI { addr })
    } else if k == 0xB {
        Some(Instruction::JmpOffset { addr })
    } else if k == 0xC {
        Some(Instruction::Rand { x, nn })
    } else if k == 0xD {
        Some(Instruction::Draw { x, y, n: n as u8 })
    } else if k == 0xE {
        if low == 0x9E {
            Some(Instruction::SkipKey { x })
        } else if low == 0xA1 {
            Some(Instruction::SkipNoKey { x })
        } else {
            None
        }
    } else {
        if low == 0x07 {
            Some(Instruction::LoadDt { x })
        } else if low == 0x0A {
            Some(Instruction::WaitKey { x })
        } else if low == 0x15 {
            Some(Instruction::SetDt { x })
        } else if low == 0x18 {
            Some(Instruction::SetSt { x })
        } else if low == 0x1E {
            Some(Instruction::AddI { x })
        } else if low == 0x29 {
            Some(Instruction::FontAddr { x })
        } else if low == 0x33 {
            Some(Instruction::Bcd { x })
        } else if low == 0x55 {
            Some(Instruction::StoreRegs { x })
        } else if low == 0x65 {
            Some(Instruction::LoadRegs { x })
        } else {
            None
        }
    }
}

} // verus!
