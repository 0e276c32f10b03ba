use vstd::prelude::*;

use crate::error::EmuError;
use crate::instruction::{decode_spec, lemma_opcode_fields, opcode, Instruction};
use crate::sprite::{covers, lemma_target_cell, sprite_bit, target_cell};
use crate::state::{
    exec_spec, initial_state, lowest_pressed, step_spec, EmuState, NUM_KEYS, RAM_SIZE,
    SCREEN_CELLS, START_ADDR,
};

verus! {

/// `lowest_pressed` finds a pressed key with none pressed below it, or
/// reports that none is pressed.
pub proof fn lemma_lowest_pressed(keys: Seq<bool>, k: int)
    requires
        0 <= k <= keys.len(),
    ensures
        k <= lowest_pressed(keys, k) <= keys.len(),
        lowest_pressed(keys, k) < keys.len() ==> keys[lowest_pressed(keys, k)],
        forall|j: int| k <= j < lowest_pressed(keys, k) ==> !#[trigger] keys[j],
    decreases keys.len() - k,
{
    if k < keys.len() && !keys[k] {
        lemma_lowest_pressed(keys, k + 1);
    }
}

/// Loading a program into a fresh machine leaves the program counter at
/// the load address, and the first step runs the program's first opcode.
pub proof fn lemma_load_starts_at_entry(data: Seq<u8>, rnd: u8)
    requires
        data.len() <= RAM_SIZE - START_ADDR,
    ensures
        initial_state().loaded(data).pc == START_ADDR,
        initial_state().loaded(data).wf(),
        data.len() >= 2 ==> initial_state().loaded(data).opcode_at_pc() == data[0] * 256 + data[1],
        data.len() >= 2 ==> step_spec(initial_state().loaded(data), rnd) == match decode_spec(
            (data[0] * 256 + data[1]) as u16,
        ) {
            None => Err(EmuError::UnknownOpcode((data[0] * 256 + data[1]) as u16)),
            Some(ins) => exec_spec(initial_state().loaded(data).with_pc((START_ADDR + 2) as u16), ins, rnd),
        },
{
}

/// Opcodes 8xy4, 8xy5, 8xy6, 8xy7 and 8xyE decode to ADD, SUB, SHR, SUBN and
/// SHL on registers `x` and `y`.
pub proof fn lemma_decode_flag_ops(x: u8, y: u8)
    requires
        x < 16,
        y < 16,
    ensures
        decode_spec(opcode(8, x as u16, y as u16, 4)) == Some(Instruction::Add { x, y }),
        decode_spec(opcode(8, x as u16, y as u16, 5)) == Some(Instruction::Sub { x, y }),
        decode_spec(opcode(8, x as u16, y as u16, 6)) == Some(Instruction::Shr { x }),
        decode_spec(opcode(8, x as u16, y as u16, 7)) == Some(Instruction::Subn { x, y }),
        decode_spec(opcode(8, x as u16, y as u16, 0xE)) == Some(Instruction::Shl { x }),
{
    lemma_opcode_fields(8, x as u16, y as u16, 4);
    assert(decode_spec(opcode(8, x as u16, y as u16, 4)) == Some(Instruction::Add { x, y }));
    lemma_opcode_fields(8, x as u16, y as u16, 5);
    assert(decode_spec(opcode(8, x as u16, y as u16, 5)) == Some(Instruction::Sub { x, y }));
    lemma_opcode_fields(8, x as u16, y as u16, 6);
    assert(decode_spec(opcode(8, x as u16, y as u16, 6)) == Some(Instruction::Shr { x }));
    lemma_opcode_fields(8, x as u16, y as u16, 7);
    assert(decode_spec(opcode(8, x as u16, y as u16, 7)) == Some(Instruction::Subn { x, y }));
    lemma_opcode_fields(8, x as u16, y as u16, 0xE);
}

/// ADD sets the flag register to the carry out of the 8-bit sum, for every
/// pair of register values, and the target register to the wrapped sum
/// unless it is the flag register itself.
pub proof fn lemma_add_flag(s: EmuState, x: u8, y: u8, rnd: u8)
    requires
        s.wf(),
        x < 16,
        y < 16,
    ensures
        exec_spec(s, Instruction::Add { x, y }, rnd) is Ok,
        ({
            let (a, b) = (s.v[x as int], s.v[y as int]);
            let t = exec_spec(s, Instruction::Add { x, y }, rnd)->Ok_0;
            &&& t.v[15] == (if a + b > 255 { 1u8 } else { 0u8 })
            &&& x != 15 ==> t.v[x as int] == (a + b) % 256
        }),
{
}

/// SUB and SUBN set the flag register to 0 on a borrow and to 1 otherwise,
/// for every pair of register values, and the target register to the
/// wrapped difference unless it is the flag register itself.
pub proof fn lemma_sub_flags(s: EmuState, x: u8, y: u8, rnd: u8)
    requires
        s.wf(),
        x < 16,
        y < 16,
    ensures
        exec_spec(s, Instruction::Sub { x, y }, rnd) is Ok,
        exec_spec(s, Instruction::Subn { x, y }, rnd) is Ok,
        ({
            let (a, b) = (s.v[x as int], s.v[y as int]);
            let t = exec_spec(s, Instruction::Sub { x, y }, rnd)->Ok_0;
            &&& t.v[15] == (if a < b { 0u8 } else { 1u8 })
            &&& x != 15 ==> t.v[x as int] == (a - b + 256) % 256
        }),
        ({
            let (a, b) = (s.v[x as int], s.v[y as int]);
            let t = exec_spec(s, Instruction::Subn { x, y }, rnd)->Ok_0;
            &&& t.v[15] == (if b < a { 0u8 } else { 1u8 })
            &&& x != 15 ==> t.v[x as int] == (b - a + 256) % 256
        }),
{
    let (a, b) = (s.v[x as int], s.v[y as int]);
    assert((a - b) % 256 == (a - b + 256) % 256);
    assert((b - a) % 256 == (b - a + 256) % 256);
}

/// SHR and SHL set the flag register to the bit shifted out (the lowest,
/// resp. the highest, before the shift), for every register value, and the
/// target register to the shifted value unless it is the flag register.
pub proof fn lemma_shift_flags(s: EmuState, x: u8, rnd: u8)
    requires
        s.wf(),
        x < 16,
    ensures
        exec_spec(s, Instruction::Shr { x }, rnd) is Ok,
        exec_spec(s, Instruction::Shl { x }, rnd) is Ok,
        ({
            let a = s.v[x as int];
            let t = exec_spec(s, Instruction::Shr { x }, rnd)->Ok_0;
            &&& t.v[15] == a % 2
            &&& x != 15 ==> t.v[x as int] == a / 2
        }),
        ({
            let a = s.v[x as int];
            let t = exec_spec(s, Instruction::Shl { x }, rnd)->Ok_0;
            &&& t.v[15] == a / 128
            &&& x != 15 ==> t.v[x as int] == (a * 2) % 256
        }),
{
}

/// Drawing never fails for any sprite position: every pixel of the sprite
/// lands on the grid, wrapped round both edges, and the cells it lands on
/// are flipped.
pub proof fn lemma_draw_wraps(s: EmuState, x: u8, y: u8, n: u8, rnd: u8)
    requires
        s.wf(),
        x < 16,
        y < 16,
        n < 16,
        s.i + n <= RAM_SIZE,
    ensures
        exec_spec(s, Instruction::Draw { x, y, n }, rnd) is Ok,
        ({
            let (vx, vy) = (s.v[x as int] as int, s.v[y as int] as int);
            let t = exec_spec(s, Instruction::Draw { x, y, n }, rnd)->Ok_0;
            &&& t.wf()
            &&& forall|r: int, c: int|
                0 <= r < n && 0 <= c < 8 ==> 0 <= #[trigger] target_cell(vx, vy, r, c)
                    < SCREEN_CELLS
            &&& forall|r: int, c: int|
                0 <= r < n && 0 <= c < 8 && sprite_bit(s.ram[s.i + r], c as u8) ==> t.screen[target_cell(
                    vx,
                    vy,
                    r,
                    c,
                )] == !s.screen[#[trigger] target_cell(vx, vy, r, c)]
        }),
{
    let (vx, vy) = (s.v[x as int] as int, s.v[y as int] as int);
    assert forall|r: int, c: int|
        0 <= r < n && 0 <= c < 8 implies 0 <= #[trigger] target_cell(vx, vy, r, c) < SCREEN_CELLS
        && covers(s.ram, s.i as int, vx, vy, n as int, target_cell(vx, vy, r, c)) == sprite_bit(
        s.ram[s.i + r],
        c as u8,
    ) by {
        lemma_target_cell(vx, vy, r, c, 0);
        lemma_target_cell(vx, vy, r, c, target_cell(vx, vy, r, c));
    }
}

/// Clearing the screen leaves every cell unlit, whatever was drawn before.
pub proof fn lemma_cls_clears(s: EmuState, rnd: u8)
    requires
        s.wf(),
    ensures
        decode_spec(0x00E0) == Some(Instruction::Cls),
        exec_spec(s, Instruction::Cls, rnd) matches Ok(t) && t.wf() && forall|idx: int|
            0 <= idx < SCREEN_CELLS ==> !#[trigger] t.screen[idx],
{
    assert(0x00E0u16 >> 12u16 == 0) by (bit_vector);
}

/// A CALL followed, at the called address, by a RET brings the program
/// counter back to the instruction after the CALL, with the stack as it was.
pub proof fn lemma_call_then_ret(s: EmuState, addr: u16, rnd1: u8, rnd2: u8)
    requires
        s.wf(),
        s.stack.len() < 16,
        s.pc + 2 <= RAM_SIZE,
        decode_spec(s.opcode_at_pc()) == Some(Instruction::Call { addr }),
        addr + 2 <= RAM_SIZE,
        s.ram[addr as int] == 0x00,
        s.ram[addr + 1] == 0xEE,
    ensures
        step_spec(s, rnd1) is Ok,
        step_spec(s, rnd1)->Ok_0.pc == addr,
        step_spec(step_spec(s, rnd1)->Ok_0, rnd2) is Ok,
        step_spec(step_spec(s, rnd1)->Ok_0, rnd2)->Ok_0.pc == s.pc + 2,
        step_spec(step_spec(s, rnd1)->Ok_0, rnd2)->Ok_0.stack == s.stack,
{
    assert(0x00EEu16 >> 12u16 == 0) by (bit_vector);
    let t = step_spec(s, rnd1)->Ok_0;
    assert(t.opcode_at_pc() == 0x00EE);
    assert(t.stack.drop_last() =~= s.stack);
}

/// Storing registers 0 to `x` and loading them back from the same address
/// gives every register its old value.
pub proof fn lemma_store_load_round_trip(s: EmuState, x: u8, rnd: u8)
    requires
        s.wf(),
        x < 16,
        s.i + x + 1 <= RAM_SIZE,
    ensures
        exec_spec(s, Instruction::StoreRegs { x }, rnd) is Ok,
        exec_spec(exec_spec(s, Instruction::StoreRegs { x }, rnd)->Ok_0, Instruction::LoadRegs { x }, rnd) is Ok,
        exec_spec(exec_spec(s, Instruction::StoreRegs { x }, rnd)->Ok_0, Instruction::LoadRegs { x }, rnd)->Ok_0.v == s.v,
{
    let t = exec_spec(s, Instruction::StoreRegs { x }, rnd)->Ok_0;
    let u = exec_spec(t, Instruction::LoadRegs { x }, rnd)->Ok_0;
    assert(u.v =~= s.v);
}

/// WAIT_KEY with no key held leaves the whole machine as it was, so the
/// next step runs it again; with a key held, one step stores the lowest held
/// key and moves on to the next instruction.
pub proof fn lemma_wait_key(s: EmuState, x: u8, rnd: u8)
    requires
        s.wf(),
        x < 16,
        s.pc + 2 <= RAM_SIZE,
        decode_spec(s.opcode_at_pc()) == Some(Instruction::WaitKey { x }),
    ensures
        (forall|k: int| 0 <= k < NUM_KEYS ==> !#[trigger] s.keys[k]) ==> step_spec(s, rnd) == Ok::<
            EmuState,
            EmuError,
        >(s),
        (exists|k: int| 0 <= k < NUM_KEYS && #[trigger] s.keys[k]) ==> (step_spec(s, rnd) matches Ok(
            t,
        ) && t.pc == s.pc + 2 && t.v[x as int] < NUM_KEYS && s.keys[t.v[x as int] as int] && (forall|
            j: int,
        | 0 <= j < t.v[x as int] ==> !#[trigger] s.keys[j])),
{
    lemma_lowest_pressed(s.keys, 0);
    let k = lowest_pressed(s.keys, 0);
    if forall|j: int| 0 <= j < NUM_KEYS ==> !#[trigger] s.keys[j] {
        if k < NUM_KEYS {
            assert(s.keys[k]);
        }
        assert(step_spec(s, rnd)->Ok_0 =~= s);
    }
}

} // verus!
