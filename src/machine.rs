use vstd::prelude::*;

use crate::error::EmuError;
use crate::instruction::{decode, decode_spec, Instruction};
use crate::sprite::{
    cell_col, cell_row, collides_before, covers, covers_before, lemma_collides_same, draw_collides, draw_screen, lemma_target_cell,
    sprite_bit, target_cell,
};
use crate::state::{
    exec_spec, font, initial_state, lowest_pressed, step_spec, write_bytes, EmuState, FONTSET_SIZE,
    NUM_KEYS, NUM_REGS, RAM_SIZE, SCREEN_CELLS, STACK_SIZE, START_ADDR,
};

verus! {

/// A CHIP-8 interpreter: memory, registers, stack, timers, framebuffer and
/// keypad, and the fetch-decode-execute engine over them.
pub struct Emu {
    pc: u16,
    ram: Vec<u8>,
    screen: Vec<bool>,
    v_reg: Vec<u8>,
    i_reg: u16,
    stack: Vec<u16>,
    keys: Vec<bool>,
    dt: u8,
    st: u8,
}

impl View for Emu {
    type V = EmuState;

    closed spec fn view(&self) -> EmuState {
        EmuState {
            pc: self.pc,
            ram: self.ram@,
            screen: self.screen@,
            v: self.v_reg@,
            i: self.i_reg,
            stack: self.stack@,
            keys: self.keys@,
            dt: self.dt,
            st: self.st,
        }
    }
}

/// The font table as a vector.
fn font_bytes() -> (r: Vec<u8>)
    ensures
        r@ == font(),
{
    let r = vec![
        0xF0u8, 0x90, 0x90, 0x90, 0xF0,
        0x20, 0x60, 0x20, 0x20, 0x70,
        0xF0, 0x10, 0xF0, 0x80, 0xF0,
        0xF0, 0x10, 0xF0, 0x10, 0xF0,
        0x90, 0x90, 0xF0, 0x10, 0x10,
        0xF0, 0x80, 0xF0, 0x10, 0xF0,
        0xF0, 0x80, 0xF0, 0x90, 0xF0,
        0xF0, 0x10, 0x20, 0x40, 0x40,
        0xF0, 0x90, 0xF0, 0x90, 0xF0,
        0xF0, 0x90, 0xF0, 0x10, 0xF0,
        0xF0, 0x90, 0xF0, 0x90, 0x90,
        0xE0, 0x90, 0xE0, 0x90, 0xE0,
        0xF0, 0x80, 0x80, 0x80, 0xF0,
        0xE0, 0x90, 0x90, 0x90, 0xE0,
        0xF0, 0x80, 0xF0, 0x80, 0xF0,
        0xF0, 0x80, 0xF0, 0x80, 0x80,
    ];
    assert(r@ =~= font());
    r
}

/// Memory as a fresh machine has it: the font, then zeros.
fn initial_ram() -> (r: Vec<u8>)
    ensures
        r@ == initial_state().ram,
{
    let mut r = font_bytes();
    let mut a: usize = FONTSET_SIZE;
    while a < RAM_SIZE
        invariant
            FONTSET_SIZE <= a <= RAM_SIZE,
            r@.len() == a,
            forall|k: int| 0 <= k < a ==> #[trigger] r@[k] == initial_state().ram[k],
        decreases RAM_SIZE - a,
    {
        r.push(0);
        a += 1;
    }
    assert(r@ =~= initial_state().ram);
    r
}

/// `n` copies of `false`.
fn cleared(n: usize) -> (r: Vec<bool>)
    ensures
        r@ == Seq::new(n as nat, |k: int| false),
{
    let mut r: Vec<bool> = Vec::new();
    let mut a: usize = 0;
    while a < n
        invariant
            a <= n,
            r@ == Seq::new(a as nat, |k: int| false),
        decreases n - a,
    {
        r.push(false);
        a += 1;
        assert(r@ =~= Seq::new(a as nat, |k: int| false));
    }
    r
}

/// `n` zero bytes.
fn zeros(n: usize) -> (r: Vec<u8>)
    ensures
        r@ == Seq::new(n as nat, |k: int| 0u8),
{
    let mut r: Vec<u8> = Vec::new();
    let mut a: usize = 0;
    while a < n
        invariant
            a <= n,
            r@ == Seq::new(a as nat, |k: int| 0u8),
        decreases n - a,
    {
        r.push(0);
        a += 1;
        assert(r@ =~= Seq::new(a as nat, |k: int| 0u8));
    }
    r
}

impl Emu {
    /// A machine with the font installed at address 0 and everything else
    /// cleared, ready to run from `START_ADDR`.
    pub fn new() -> (r: Emu)
        ensures
            r@ == initial_state(),
            r@.wf(),
    {
        let r = Emu {
            pc: START_ADDR,
            ram: initial_ram(),
            screen: cleared(SCREEN_CELLS),
            v_reg: zeros(NUM_REGS),
            i_reg: 0,
            stack: Vec::new(),
            keys: cleared(NUM_KEYS),
            dt: 0,
            st: 0,
        };
        assert(r@.stack =~= Seq::<u16>::empty());
        r
    }

    /// Draws the `n`-row sprite at `memory[I..]` at the position held in
    /// registers `x` and `y`, and sets the flag register to whether a lit
    /// cell went dark.
    fn draw(&mut self, x: u8, y: u8, n: u8)
        requires
            old(self)@.wf(),
            x < 16,
            y < 16,
            n < 16,
            old(self)@.i + n <= RAM_SIZE,
        ensures
            exec_spec(old(self)@, Instruction::Draw { x, y, n }, 0) == Ok::<EmuState, EmuError>(final(self)@),
    {
        let ghost s0 = self@;
        let vx = self.v_reg[x as usize];
        let vy = self.v_reg[y as usize];
        let ghost (gi, gx, gy, gn) = (s0.i as int, vx as int, vy as int, n as int);
        let mut flipped = false;
        let mut r: u8 = 0;
        while r < n
            invariant
                s0.wf(),
                0 <= r <= n < 16,
                gi + gn <= RAM_SIZE,
                gi == s0.i,
                gx == vx,
                gy == vy,
                gn == n,
                self@ == (EmuState { screen: self@.screen, ..s0 }),
                self@.screen.len() == SCREEN_CELLS,
                forall|idx: int|
                    0 <= idx < SCREEN_CELLS ==> #[trigger] self@.screen[idx] == (s0.screen[idx]
                        != covers_before(s0.ram, gi, gx, gy, gn, idx, r as int, 0)),
                flipped == collides_before(s0.screen, s0.ram, gi, gx, gy, gn, r as int, 0),
            decreases n - r,
        {
            let pixels = self.ram[(self.i_reg + r as u16) as usize];
            let mut c: u8 = 0;
            while c < 8
                invariant
                    s0.wf(),
                    0 <= r < n < 16,
                    0 <= c <= 8,
                    gi + gn <= RAM_SIZE,
                    gi == s0.i,
                    gx == vx,
                    gy == vy,
                    gn == n,
                    pixels == s0.ram[gi + r],
                    self@ == (EmuState { screen: self@.screen, ..s0 }),
                    self@.screen.len() == SCREEN_CELLS,
                    forall|idx: int|
                        0 <= idx < SCREEN_CELLS ==> #[trigger] self@.screen[idx] == (s0.screen[idx]
                            != covers_before(s0.ram, gi, gx, gy, gn, idx, r as int, c as int)),
                    flipped == collides_before(s0.screen, s0.ram, gi, gx, gy, gn, r as int, c as int),
                decreases 8 - c,
            {
                let ghost t = target_cell(gx, gy, r as int, c as int);
                proof {
                    assert forall|idx: int| 0 <= idx < SCREEN_CELLS implies (((cell_row(idx) - gy)
                        % 32 == r && (cell_col(idx) - gx) % 64 == c) <==> idx == t) by {
                        lemma_target_cell(gx, gy, r as int, c as int, idx);
                    }
                    lemma_target_cell(gx, gy, r as int, c as int, 0);
                    assert(covers(s0.ram, gi, gx, gy, gn, t) == sprite_bit(pixels, c));
                    assert forall|idx: int| 0 <= idx < SCREEN_CELLS && idx != t implies #[trigger] covers_before(
                        s0.ram,
                        gi,
                        gx,
                        gy,
                        gn,
                        idx,
                        r as int,
                        c + 1,
                    ) == covers_before(s0.ram, gi, gx, gy, gn, idx, r as int, c as int) by {}
                    assert(!covers_before(s0.ram, gi, gx, gy, gn, t, r as int, c as int));
                    assert(covers_before(s0.ram, gi, gx, gy, gn, t, r as int, c + 1) == sprite_bit(
                        pixels,
                        c,
                    ));
                }
                let ghost before = flipped;
                let ghost lit_t = self@.screen[t];
                proof {
                    assert(lit_t == s0.screen[t]);
                    if before {
                        let w = choose|idx: int|
                            0 <= idx < s0.screen.len() && s0.screen[idx] && #[trigger] covers_before(
                                s0.ram, gi, gx, gy, gn, idx, r as int, c as int);
                        assert(covers_before(s0.ram, gi, gx, gy, gn, w, r as int, c + 1));
                    }
                    if collides_before(s0.screen, s0.ram, gi, gx, gy, gn, r as int, c + 1) {
                        let w = choose|idx: int|
                            0 <= idx < s0.screen.len() && s0.screen[idx] && #[trigger] covers_before(
                                s0.ram, gi, gx, gy, gn, idx, r as int, c + 1);
                        if w != t {
                            assert(covers_before(s0.ram, gi, gx, gy, gn, w, r as int, c as int));
                        }
                    }
                    if lit_t && sprite_bit(pixels, c) {
                        assert(covers_before(s0.ram, gi, gx, gy, gn, t, r as int, c + 1));
                    }
                }
                if pixels & (0x80u8 >> c) != 0 {
                    let col = (vx as usize + c as usize) % 64;
                    let row = (vy as usize + r as usize) % 32;
                    let idx = col + 64 * row;
                    assert(idx == t);
                    let lit = self.screen[idx];
                    flipped = flipped || lit;
                    self.screen[idx] = !lit;
                }
                c += 1;
            }
            proof {
                assert forall|idx: int| 0 <= idx < SCREEN_CELLS implies #[trigger] covers_before(
                    s0.ram,
                    gi,
                    gx,
                    gy,
                    gn,
                    idx,
                    r as int,
                    8,
                ) == covers_before(s0.ram, gi, gx, gy, gn, idx, r + 1, 0) by {}
                lemma_collides_same(s0.screen, s0.ram, gi, gx, gy, gn, r as int, 8, r + 1, 0);
            }
            r += 1;
        }
        proof {
            assert forall|idx: int| 0 <= idx < SCREEN_CELLS implies #[trigger] covers_before(
                s0.ram,
                gi,
                gx,
                gy,
                gn,
                idx,
                gn,
                0,
            ) == covers(s0.ram, gi, gx, gy, gn, idx) by {}
        }
        if flipped {
            self.v_reg[15] = 1;
        } else {
            self.v_reg[15] = 0;
        }
        proof {
            let sp = draw_screen(s0.screen, s0.ram, gi, gx, gy, gn);
            assert(self@.screen =~= sp);
            if flipped {
                let w = choose|idx: int|
                    0 <= idx < SCREEN_CELLS && s0.screen[idx] && #[trigger] covers_before(
                        s0.ram,
                        gi,
                        gx,
                        gy,
                        gn,
                        idx,
                        gn,
                        0,
                    );
                assert(covers(s0.ram, gi, gx, gy, gn, w));
            }
            if draw_collides(s0.screen, s0.ram, gi, gx, gy, gn) {
                let w = choose|idx: int|
                    0 <= idx < s0.screen.len() && s0.screen[idx] && #[trigger] covers(
                        s0.ram,
                        gi,
                        gx,
                        gy,
                        gn,
                        idx,
                    );
                assert(covers_before(s0.ram, gi, gx, gy, gn, w, gn, 0));
            }
        }
    }
}

} // verus!

verus! {

impl Emu {
    /// Writes the hundreds, tens and ones digits of register `x` to
    /// `memory[I]`, `memory[I+1]` and `memory[I+2]`.
    fn store_bcd(&mut self, x: u8)
        requires
            old(self)@.wf(),
            x < 16,
            old(self)@.i + 3 <= RAM_SIZE,
        ensures
            exec_spec(old(self)@, Instruction::Bcd { x }, 0) == Ok::<EmuState, EmuError>(final(self)@),
    {
        let ghost s0 = self@;
        let a = self.v_reg[x as usize];
        let i = self.i_reg as usize;
        self.ram[i] = a / 100;
        self.ram[i + 1] = (a / 10) % 10;
        self.ram[i + 2] = a % 10;
        assert(self@.ram =~= write_bytes(
            s0.ram,
            s0.i as int,
            seq![(a / 100) as u8, ((a / 10) % 10) as u8, (a % 10) as u8],
        ));
    }

    /// Copies registers 0 to `x` into memory from `I` on.
    fn store_regs(&mut self, x: u8)
        requires
            old(self)@.wf(),
            x < 16,
            old(self)@.i + x + 1 <= RAM_SIZE,
        ensures
            exec_spec(old(self)@, Instruction::StoreRegs { x }, 0) == Ok::<EmuState, EmuError>(final(self)@),
    {
        let ghost s0 = self@;
        let i = self.i_reg as usize;
        let mut k: usize = 0;
        while k <= x as usize
            invariant
                s0.wf(),
                x < 16,
                k <= x + 1,
                i == s0.i,
                i + x + 1 <= RAM_SIZE,
                self@ == (EmuState { ram: self@.ram, ..s0 }),
                self@.ram == write_bytes(s0.ram, i as int, s0.v.subrange(0, k as int)),
            decreases x + 1 - k,
        {
            let val = self.v_reg[k];
            self.ram[i + k] = val;
            assert(self@.ram =~= write_bytes(s0.ram, i as int, s0.v.subrange(0, k + 1)));
            k += 1;
        }
    }

    /// Copies memory from `I` on into registers 0 to `x`.
    fn load_regs(&mut self, x: u8)
        requires
            old(self)@.wf(),
            x < 16,
            old(self)@.i + x + 1 <= RAM_SIZE,
        ensures
            exec_spec(old(self)@, Instruction::LoadRegs { x }, 0) == Ok::<EmuState, EmuError>(final(self)@),
    {
        let ghost s0 = self@;
        let i = self.i_reg as usize;
        let mut k: usize = 0;
        while k <= x as usize
            invariant
                s0.wf(),
                x < 16,
                k <= x + 1,
                i == s0.i,
                i + x + 1 <= RAM_SIZE,
                self@ == (EmuState { v: self@.v, ..s0 }),
                self@.v == write_bytes(s0.v, 0, s0.ram.subrange(i as int, i + k)),
            decreases x + 1 - k,
        {
            let val = self.ram[i + k];
            self.v_reg[k] = val;
            assert(self@.v =~= write_bytes(s0.v, 0, s0.ram.subrange(i as int, i + k + 1)));
            k += 1;
        }
    }

    /// Stores the lowest pressed key in register `x`; with no key pressed,
    /// moves the program counter back so that the instruction runs again.
    fn wait_key(&mut self, x: u8)
        requires
            old(self)@.wf(),
            x < 16,
        ensures
            exec_spec(old(self)@, Instruction::WaitKey { x }, 0) == Ok::<EmuState, EmuError>(final(self)@),
    {
        let mut k: usize = 0;
        while k < NUM_KEYS
            invariant
                self@ == old(self)@,
                self@.wf(),
                x < 16,
                k <= NUM_KEYS,
                lowest_pressed(self@.keys, 0) == lowest_pressed(self@.keys, k as int),
            decreases NUM_KEYS - k,
        {
            if self.keys[k] {
                self.v_reg[x as usize] = k as u8;
                return;
            }
            k += 1;
        }
        self.pc = ((self.pc as u32 + 0xFFFE) % 0x10000) as u16;
    }

    /// Moves the program counter past the next instruction when `cond` holds.
    fn skip_if(&mut self, cond: bool)
        ensures
            final(self)@ == old(self)@.skip_if(cond),
    {
        if cond {
            self.pc = ((self.pc as u32 + 2) % 0x10000) as u16;
        }
    }

    /// Runs an instruction that moves the program counter or the stack.
    fn exec_control(&mut self, ins: Instruction, rnd: u8) -> (r: Result<(), EmuError>)
        requires
            old(self)@.wf(),
            ins.wf(),
            ins is Nop || ins is Cls || ins is Ret || ins is Jmp || ins is Call || ins is JmpOffset || ins is SkipEqImm || ins is SkipNeqImm || ins is SkipEqReg || ins is SkipNeqReg || ins is SkipKey || ins is SkipNoKey,
        ensures
            match exec_spec(old(self)@, ins, rnd) {
                Ok(t) => r is Ok && final(self)@ == t,
                Err(e) => r == Err::<(), EmuError>(e) && final(self)@ == old(self)@,
            },
    {
        match ins {
            Instruction::Nop => {},
            Instruction::Cls => {
                self.screen = cleared(SCREEN_CELLS);
            },
            Instruction::Ret => {
                let addr = self.pop()?;
                self.pc = addr;
            },
            Instruction::Jmp { addr } => {
                self.pc = addr;
            },
            Instruction::Call { addr } => {
                let ret = self.pc;
                self.push(ret)?;
                self.pc = addr;
            },
            Instruction::JmpOffset { addr } => {
                self.pc = self.v_reg[0] as u16 + addr;
            },
            Instruction::SkipEqImm { x, nn } => {
                let c = self.v_reg[x as usize] == nn;
                self.skip_if(c);
            },
            Instruction::SkipNeqImm { x, nn } => {
                let c = self.v_reg[x as usize] != nn;
                self.skip_if(c);
            },
            Instruction::SkipEqReg { x, y } => {
                let c = self.v_reg[x as usize] == self.v_reg[y as usize];
                self.skip_if(c);
            },
            Instruction::SkipNeqReg { x, y } => {
                let c = self.v_reg[x as usize] != self.v_reg[y as usize];
                self.skip_if(c);
            },
            Instruction::SkipKey { x } => {
                let k = self.v_reg[x as usize] as usize;
                if k >= NUM_KEYS {
                    return Err(EmuError::KeyOutOfRange);
                }
                let c = self.keys[k];
                self.skip_if(c);
            },
            Instruction::SkipNoKey { x } => {
                let k = self.v_reg[x as usize] as usize;
                if k >= NUM_KEYS {
                    return Err(EmuError::KeyOutOfRange);
                }
                let c = !self.keys[k];
                self.skip_if(c);
            },
            _ => {},
        }
        Ok(())
    }

    /// Runs an instruction that computes into a register.
    fn exec_alu(&mut self, ins: Instruction, rnd: u8) -> (r: Result<(), EmuError>)
        requires
            old(self)@.wf(),
            ins.wf(),
            ins is LoadImm || ins is AddImm || ins is Mov || ins is Or || ins is And || ins is Xor || ins is Add || ins is Sub || ins is Subn || ins is Shr || ins is Shl || ins is Rand,
        ensures
            match exec_spec(old(self)@, ins, rnd) {
                Ok(t) => r is Ok && final(self)@ == t,
                Err(e) => r == Err::<(), EmuError>(e) && final(self)@ == old(self)@,
            },
    {
        match ins {
            Instruction::LoadImm { x, nn } => {
                self.v_reg[x as usize] = nn;
            },
            Instruction::AddImm { x, nn } => {
                let sum = self.v_reg[x as usize] as u16 + nn as u16;
                self.v_reg[x as usize] = (sum % 256) as u8;
            },
            Instruction::Mov { x, y } => {
                let b = self.v_reg[y as usize];
                self.v_reg[x as usize] = b;
            },
            Instruction::Or { x, y } => {
                let val = self.v_reg[x as usize] | self.v_reg[y as usize];
                self.v_reg[x as usize] = val;
            },
            Instruction::And { x, y } => {
                let val = self.v_reg[x as usize] & self.v_reg[y as usize];
                self.v_reg[x as usize] = val;
            },
            Instruction::Xor { x, y } => {
                let val = self.v_reg[x as usize] ^ self.v_reg[y as usize];
                self.v_reg[x as usize] = val;
            },
            Instruction::Add { x, y } => {
                let sum = self.v_reg[x as usize] as u16 + self.v_reg[y as usize] as u16;
                self.v_reg[x as usize] = (sum % 256) as u8;
                self.v_reg[15] = if sum > 255 { 1 } else { 0 };
            },
            Instruction::Sub { x, y } => {
                let a = self.v_reg[x as usize];
                let b = self.v_reg[y as usize];
                self.v_reg[x as usize] = ((a as u16 + 256 - b as u16) % 256) as u8;
                self.v_reg[15] = if a >= b { 1 } else { 0 };
            },
            Instruction::Subn { x, y } => {
                let a = self.v_reg[x as usize];
                let b = self.v_reg[y as usize];
                self.v_reg[x as usize] = ((b as u16 + 256 - a as u16) % 256) as u8;
                self.v_reg[15] = if b >= a { 1 } else { 0 };
            },
            Instruction::Shr { x } => {
                let a = self.v_reg[x as usize];
                self.v_reg[x as usize] = a / 2;
                self.v_reg[15] = a % 2;
            },
            Instruction::Shl { x } => {
                let a = self.v_reg[x as usize];
                self.v_reg[x as usize] = ((a as u16 * 2) % 256) as u8;
                self.v_reg[15] = a / 128;
            },
            Instruction::Rand { x, nn } => {
                self.v_reg[x as usize] = rnd & nn;
            },
            _ => {},
        }
        Ok(())
    }

    /// Runs an instruction on the index register, memory, timers, keypad or screen.
    fn exec_memory(&mut self, ins: Instruction, rnd: u8) -> (r: Result<(), EmuError>)
        requires
            old(self)@.wf(),
            ins.wf(),
            ins is LoadI || ins is Draw || ins is LoadDt || ins is WaitKey || ins is SetDt || ins is SetSt || ins is AddI || ins is FontAddr || ins is Bcd || ins is StoreRegs || ins is LoadRegs,
        ensures
            match exec_spec(old(self)@, ins, rnd) {
                Ok(t) => r is Ok && final(self)@ == t,
                Err(e) => r == Err::<(), EmuError>(e) && final(self)@ == old(self)@,
            },
    {
        match ins {
            Instruction::LoadI { addr } => {
                self.i_reg = addr;
            },
            Instruction::Draw { x, y, n } => {
                if self.i_reg as usize + n as usize > RAM_SIZE {
                    return Err(EmuError::MemoryOutOfRange);
                }
                self.draw(x, y, n);
            },
            Instruction::LoadDt { x } => {
                self.v_reg[x as usize] = self.dt;
            },
            Instruction::WaitKey { x } => {
                self.wait_key(x);
            },
            Instruction::SetDt { x } => {
                self.dt = self.v_reg[x as usize];
            },
            Instruction::SetSt { x } => {
                self.st = self.v_reg[x as usize];
            },
            Instruction::AddI { x } => {
                self.i_reg = ((self.i_reg as u32 + self.v_reg[x as usize] as u32) % 0x10000) as u16;
            },
            Instruction::FontAddr { x } => {
                self.i_reg = self.v_reg[x as usize] as u16 * 5;
            },
            Instruction::Bcd { x } => {
                if self.i_reg as usize + 3 > RAM_SIZE {
                    return Err(EmuError::MemoryOutOfRange);
                }
                self.store_bcd(x);
            },
            Instruction::StoreRegs { x } => {
                if self.i_reg as usize + x as usize + 1 > RAM_SIZE {
                    return Err(EmuError::MemoryOutOfRange);
                }
                self.store_regs(x);
            },
            Instruction::LoadRegs { x } => {
                if self.i_reg as usize + x as usize + 1 > RAM_SIZE {
                    return Err(EmuError::MemoryOutOfRange);
                }
                self.load_regs(x);
            },
            _ => {},
        }
        Ok(())
    }

    /// Runs one decoded instruction, the program counter already past it;
    /// `rnd` is the byte that `Rand` masks. On an error nothing changes.
    fn execute_instruction(&mut self, ins: Instruction, rnd: u8) -> (r: Result<(), EmuError>)
        requires
            old(self)@.wf(),
            ins.wf(),
        ensures
            final(self)@.wf(),
            match exec_spec(old(self)@, ins, rnd) {
                Ok(t) => r is Ok && final(self)@ == t,
                Err(e) => r == Err::<(), EmuError>(e) && final(self)@ == old(self)@,
            },
    {
        match ins {
            Instruction::Nop | Instruction::Cls | Instruction::Ret | Instruction::Jmp { .. }
            | Instruction::Call { .. } | Instruction::JmpOffset { .. } | Instruction::SkipEqImm { .. }
            | Instruction::SkipNeqImm { .. } | Instruction::SkipEqReg { .. }
            | Instruction::SkipNeqReg { .. } | Instruction::SkipKey { .. }
            | Instruction::SkipNoKey { .. } => self.exec_control(ins, rnd),
            Instruction::LoadImm { .. } | Instruction::AddImm { .. } | Instruction::Mov { .. }
            | Instruction::Or { .. } | Instruction::And { .. } | Instruction::Xor { .. }
            | Instruction::Add { .. } | Instruction::Sub { .. } | Instruction::Subn { .. }
            | Instruction::Shr { .. } | Instruction::Shl { .. } | Instruction::Rand { .. } => self.exec_alu(
                ins,
                rnd,
            ),
            _ => self.exec_memory(ins, rnd),
        }
    }
}

} // verus!

verus! {

/// Whether a step that the specification says ends in `res` left the
/// machine as `after` and returned `r`: the new state on success, the old
/// one with the same error otherwise.
pub open spec fn step_outcome(
    res: Result<EmuState, EmuError>,
    before: EmuState,
    after: EmuState,
    r: Result<(), EmuError>,
) -> bool {
    match res {
        Ok(t) => r is Ok && after == t,
        Err(e) => r == Err::<(), EmuError>(e) && after == before,
    }
}

/// Relies on `rand::random::<u8>`: a byte from the thread-local generator.
/// Any value may come back.
#[verifier::external_body]
fn random_byte() -> (r: u8) {
    rand::random::<u8>()
}

impl Emu {
    /// Puts the machine back in the state `new` gives.
    pub fn reset(&mut self)
        ensures
            final(self)@ == initial_state(),
            final(self)@.wf(),
    {
        *self = Emu::new();
    }

    /// Pushes a return address; fails when the stack is full.
    fn push(&mut self, val: u16) -> (r: Result<(), EmuError>)
        requires
            old(self)@.stack.len() <= STACK_SIZE,
        ensures
            old(self)@.stack.len() < STACK_SIZE ==> r is Ok && final(self)@ == (EmuState {
                stack: old(self)@.stack.push(val),
                ..old(self)@
            }),
            old(self)@.stack.len() >= STACK_SIZE ==> r == Err::<(), EmuError>(EmuError::StackOverflow)
                && final(self)@ == old(self)@,
    {
        if self.stack.len() >= STACK_SIZE {
            return Err(EmuError::StackOverflow);
        }
        self.stack.push(val);
        Ok(())
    }

    /// Pops the most recent return address; fails when the stack is empty.
    fn pop(&mut self) -> (r: Result<u16, EmuError>)
        ensures
            old(self)@.stack.len() > 0 ==> r == Ok::<u16, EmuError>(old(self)@.stack.last())
                && final(self)@ == (EmuState { stack: old(self)@.stack.drop_last(), ..old(self)@ }),
            old(self)@.stack.len() == 0 ==> r == Err::<u16, EmuError>(EmuError::StackUnderflow)
                && final(self)@ == old(self)@,
    {
        match self.stack.pop() {
            Some(v) => Ok(v),
            None => Err(EmuError::StackUnderflow),
        }
    }

    /// Reads the opcode at the program counter, high byte first, and moves
    /// the program counter past it. Fails, changing nothing, when the opcode
    /// would extend past the end of memory.
    fn fetch(&mut self) -> (r: Result<u16, EmuError>)
        requires
            old(self)@.wf(),
        ensures
            old(self)@.pc + 2 <= RAM_SIZE ==> r == Ok::<u16, EmuError>(old(self)@.opcode_at_pc())
                && final(self)@ == old(self)@.with_pc((old(self)@.pc + 2) as u16),
            old(self)@.pc + 2 > RAM_SIZE ==> r == Err::<u16, EmuError>(EmuError::MemoryOutOfRange)
                && final(self)@ == old(self)@,
    {
        if self.pc as usize + 2 > RAM_SIZE {
            return Err(EmuError::MemoryOutOfRange);
        }
        let hi = self.ram[self.pc as usize] as u16;
        let lo = self.ram[self.pc as usize + 1] as u16;
        self.pc = self.pc + 2;
        Ok(hi * 256 + lo)
    }

    /// Decodes and runs one opcode, taking `rnd` as the random byte that a
    /// `Rand` instruction masks. The program counter is taken to be past the
    /// opcode already. On an error nothing changes.
    pub fn execute(&mut self, op: u16, rnd: u8) -> (r: Result<(), EmuError>)
        requires
            old(self)@.wf(),
        ensures
            final(self)@.wf(),
            match decode_spec(op) {
                None => r == Err::<(), EmuError>(EmuError::UnknownOpcode(op)) && final(self)@ == old(self)@,
                Some(ins) => step_outcome(exec_spec(old(self)@, ins, rnd), old(self)@, final(self)@, r),
            },
    {
        match decode(op) {
            None => Err(EmuError::UnknownOpcode(op)),
            Some(ins) => self.execute_instruction(ins, rnd),
        }
    }

    /// Fetches, decodes and executes one instruction. A `Rand` instruction
    /// draws its byte from the thread-local generator; whatever byte came,
    /// the step is the one `step_spec` gives for it. On an error the machine
    /// is left as it was.
    pub fn tick(&mut self) -> (r: Result<(), EmuError>)
        requires
            old(self)@.wf(),
        ensures
            final(self)@.wf(),
            exists|rnd: u8| step_outcome(#[trigger] step_spec(old(self)@, rnd), old(self)@, final(self)@, r),
    {
        let ghost s0 = self@;
        let old_pc = self.pc;
        let op = match self.fetch() {
            Ok(op) => op,
            Err(e) => {
                assert(step_outcome(step_spec(s0, 0), s0, self@, Err(e)));
                return Err(e);
            },
        };
        let rnd = if op >> 12u16 == 0xC {
            random_byte()
        } else {
            0
        };
        let r = self.execute(op, rnd);
        if r.is_err() {
            self.pc = old_pc;
        }
        assert(step_outcome(step_spec(s0, rnd), s0, self@, r));
        r
    }

    /// Counts both timers down by one, stopping at zero.
    pub fn tick_timers(&mut self)
        ensures
            final(self)@ == old(self)@.timers_ticked(),
    {
        if self.dt > 0 {
            self.dt -= 1;
        }
        if self.st > 0 {
            self.st -= 1;
        }
    }

    /// The framebuffer, row by row: cell (x, y) is at `x + 64 * y`.
    pub fn get_display(&self) -> (r: &[bool])
        ensures
            r@ == self@.screen,
    {
        self.screen.as_slice()
    }

    /// Sets whether key `idx` is held down; fails, changing nothing, for a
    /// key index of 16 or more.
    pub fn keypress(&mut self, idx: usize, pressed: bool) -> (r: Result<(), EmuError>)
        requires
            old(self)@.wf(),
        ensures
            idx < NUM_KEYS ==> r is Ok && final(self)@ == (EmuState {
                keys: old(self)@.keys.update(idx as int, pressed),
                ..old(self)@
            }),
            idx >= NUM_KEYS ==> r == Err::<(), EmuError>(EmuError::KeyOutOfRange) && final(self)@ == old(self)@,
    {
        if idx >= NUM_KEYS {
            return Err(EmuError::KeyOutOfRange);
        }
        self.keys[idx] = pressed;
        Ok(())
    }

    /// Copies a program into memory from `START_ADDR` on. Fails, changing
    /// nothing, when it does not fit below the end of memory.
    pub fn load(&mut self, data: &[u8]) -> (r: Result<(), EmuError>)
        requires
            old(self)@.wf(),
        ensures
            data@.len() <= RAM_SIZE - START_ADDR ==> r is Ok && final(self)@ == old(self)@.loaded(data@),
            data@.len() > RAM_SIZE - START_ADDR ==> r == Err::<(), EmuError>(EmuError::ProgramTooLarge)
                && final(self)@ == old(self)@,
    {
        if data.len() > RAM_SIZE - START_ADDR as usize {
            return Err(EmuError::ProgramTooLarge);
        }
        let ghost s0 = self@;
        let start = START_ADDR as usize;
        let mut k: usize = 0;
        while k < data.len()
            invariant
                s0.wf(),
                start == START_ADDR,
                k <= data@.len() <= RAM_SIZE - START_ADDR,
                self@ == (EmuState { ram: self@.ram, ..s0 }),
                self@.ram == write_bytes(s0.ram, start as int, data@.subrange(0, k as int)),
            decreases data@.len() - k,
        {
            self.ram[start + k] = data[k];
            assert(self@.ram =~= write_bytes(s0.ram, start as int, data@.subrange(0, k + 1)));
            k += 1;
        }
        assert(data@.subrange(0, k as int) =~= data@);
        Ok(())
    }
}

} // verus!

verus! {

impl Emu {
    /// Address of the next instruction to fetch.
    pub fn program_counter(&self) -> (r: u16)
        ensures
            r == self@.pc,
    {
        self.pc
    }

    /// Value of register `x`.
    pub fn register(&self, x: usize) -> (r: u8)
        requires
            self@.wf(),
            x < NUM_REGS,
        ensures
            r == self@.v[x as int],
    {
        self.v_reg[x]
    }

    /// Value of the index register `I`.
    pub fn index_register(&self) -> (r: u16)
        ensures
            r == self@.i,
    {
        self.i_reg
    }

    /// Byte at address `addr`.
    pub fn memory(&self, addr: usize) -> (r: u8)
        requires
            self@.wf(),
            addr < RAM_SIZE,
        ensures
            r == self@.ram[addr as int],
    {
        self.ram[addr]
    }

    /// Value of the delay timer.
    pub fn delay_timer(&self) -> (r: u8)
        ensures
            r == self@.dt,
    {
        self.dt
    }

    /// Value of the sound timer.
    pub fn sound_timer(&self) -> (r: u8)
        ensures
            r == self@.st,
    {
        self.st
    }

    /// Number of return addresses on the stack.
    pub fn stack_depth(&self) -> (r: usize)
        ensures
            r == self@.stack.len(),
    {
        self.stack.len()
    }
}

} // verus!
