use crate::model::{
    add16, add_carry, add_imm, fetch, first_pressed, frame, load_regs, mem_addr, nn_of,
    run, shift_left, shift_right, step, store_regs, sub_regs, sub_rev, well_formed, word_at,
    x_of, y_of, Machine, MEMORY_SIZE,
};
use vstd::prelude::*;

verus! {

/// Jumps (1NNN, BNNN), calls (2NNN) and returns (00EE).
pub open spec fn is_transfer(op: u16) -> bool {
    let hi = op & 0xF000u16;
    hi == 0x1000 || hi == 0x2000 || hi == 0xB000 || op == 0x00EE
}

/// The conditional skips: 3XNN, 4XNN, 5XY0, 9XY0, EX9E and EXA1.
pub open spec fn is_skip(op: u16) -> bool {
    let hi = op & 0xF000u16;
    ||| hi == 0x3000
    ||| hi == 0x4000
    ||| (op & 0xF00Fu16) == 0x5000
    ||| (op & 0xF00Fu16) == 0x9000
    ||| (op & 0xF0FFu16) == 0xE09E
    ||| (op & 0xF0FFu16) == 0xE0A1
}

/// The wait for a keypress, FX0A.
pub open spec fn is_key_wait(op: u16) -> bool {
    (op & 0xF0FFu16) == 0xF00A
}

/// Whether the skip instruction `op` skips in state `m`.
pub open spec fn skip_taken(m: Machine, op: u16) -> bool {
    let hi = op & 0xF000u16;
    let x = x_of(op);
    let y = y_of(op);
    if hi == 0x3000 {
        m.v[x] == nn_of(op)
    } else if hi == 0x4000 {
        m.v[x] != nn_of(op)
    } else if hi == 0x5000 {
        m.v[x] == m.v[y]
    } else if hi == 0x9000 {
        m.v[x] != m.v[y]
    } else if (op & 0x00FFu16) == 0x9E {
        m.keys[(m.v[x] % 16) as int]
    } else {
        !m.keys[(m.v[x] % 16) as int]
    }
}

/// Every instruction but the jumps, calls, returns and skips advances the
/// program counter by exactly 2 (the key wait does so once a key is pressed;
/// with no key pressed it stays put by design).
pub proof fn lemma_advances_by_two(m: Machine, r: u8)
    requires
        well_formed(m),
        !is_transfer(word_at(m.memory, m.pc)),
        !is_skip(word_at(m.memory, m.pc)),
        is_key_wait(word_at(m.memory, m.pc)) ==> first_pressed(m.keys, 0) is Some,
    ensures
        step(m, r).pc == add16(m.pc, 2),
{
    let op = word_at(m.memory, m.pc);
    assert((op & 0xF000u16) == 0x5000 ==> (op & 0xF00Fu16) == 0x5000 || (op & 0xF00Fu16)
        != 0x5000) by (bit_vector);
    assert((op & 0x00FFu16) == 0x0A && (op & 0xF000u16) != 0x0000 && (op & 0xF000u16) != 0x1000
        && (op & 0xF000u16) != 0x2000 && (op & 0xF000u16) != 0x3000 && (op & 0xF000u16) != 0x4000
        && (op & 0xF000u16) != 0x5000 && (op & 0xF000u16) != 0x6000 && (op & 0xF000u16) != 0x7000
        && (op & 0xF000u16) != 0x8000 && (op & 0xF000u16) != 0x9000 && (op & 0xF000u16) != 0xA000
        && (op & 0xF000u16) != 0xB000 && (op & 0xF000u16) != 0xC000 && (op & 0xF000u16) != 0xD000
        && (op & 0xF000u16) != 0xE000 ==> (op & 0xF0FFu16) == 0xF00A) by (bit_vector);
    assert((op & 0xF000u16) == 0xE000 && (op & 0x00FFu16) == 0x9E ==> (op & 0xF0FFu16) == 0xE09E)
        by (bit_vector);
    assert((op & 0xF000u16) == 0xE000 && (op & 0x00FFu16) == 0xA1 ==> (op & 0xF0FFu16) == 0xE0A1)
        by (bit_vector);
}

/// A skip advances the program counter by 4 when its condition holds and by
/// 2 otherwise, and changes nothing else but the fetched opcode.
pub proof fn lemma_skip(m: Machine, r: u8)
    requires
        well_formed(m),
        is_skip(word_at(m.memory, m.pc)),
    ensures
        step(m, r) == (Machine {
            pc: add16(m.pc, if skip_taken(m, word_at(m.memory, m.pc)) { 4 } else { 2 }),
            ..fetch(m)
        }),
{
    let op = word_at(m.memory, m.pc);
    assert((op & 0xF00Fu16) == 0x5000 ==> (op & 0xF000u16) == 0x5000) by (bit_vector);
    assert((op & 0xF00Fu16) == 0x9000 ==> (op & 0xF000u16) == 0x9000) by (bit_vector);
    assert((op & 0xF0FFu16) == 0xE09E ==> (op & 0xF000u16) == 0xE000 && (op & 0x00FFu16) == 0x9E)
        by (bit_vector);
    assert((op & 0xF0FFu16) == 0xE0A1 ==> (op & 0xF000u16) == 0xE000 && (op & 0x00FFu16) == 0xA1)
        by (bit_vector);
    assert((op & 0xF000u16) == 0x3000 ==> (op & 0xF0FFu16) != 0xE09E) by (bit_vector);
}

/// Register arithmetic wraps modulo 256, and `VF` holds the carry, the
/// no-borrow bit or the bit shifted out (for `VX` other than `VF`).
pub proof fn lemma_flag_arithmetic(m: Machine, x: int, y: int, n: u8)
    requires
        well_formed(m),
        0 <= x < 15,
        0 <= y < 16,
    ensures
        add_imm(m, x, n).v[x] == (m.v[x] + n) % 256,
        add_imm(m, x, n).v[15] == m.v[15],
        add_carry(m, x, y).v[x] == (m.v[x] + m.v[y]) % 256,
        add_carry(m, x, y).v[15] == if m.v[x] + m.v[y] >= 256 { 1u8 } else { 0u8 },
        sub_regs(m, x, y).v[x] == (m.v[x] - m.v[y]) % 256,
        sub_regs(m, x, y).v[15] == if m.v[x] >= m.v[y] { 1u8 } else { 0u8 },
        sub_rev(m, x, y).v[x] == (m.v[y] - m.v[x]) % 256,
        sub_rev(m, x, y).v[15] == if m.v[y] >= m.v[x] { 1u8 } else { 0u8 },
        shift_right(m, x, y).v[x] == m.v[y] / 2,
        shift_right(m, x, y).v[15] == m.v[y] % 2,
        shift_left(m, x, y).v[x] == (m.v[y] * 2) % 256,
        shift_left(m, x, y).v[15] == m.v[y] / 128,
        y != x && y != 15 ==> shift_right(m, x, y).v[y] == m.v[y] && shift_left(m, x, y).v[y] == m.v[y],
{
}

/// While no key is pressed, a key wait at the program counter keeps the
/// machine where it is, however many cycles run, and a frame leaves the
/// program counter unchanged.
pub proof fn lemma_key_wait_blocks(m: Machine, rs: Seq<u8>)
    requires
        well_formed(m),
        is_key_wait(word_at(m.memory, m.pc)),
        first_pressed(m.keys, 0) is None,
    ensures
        rs.len() > 0 ==> run(m, rs) == fetch(m),
        frame(m, rs).pc == m.pc,
    decreases rs.len(),
{
    let op = word_at(m.memory, m.pc);
    assert((op & 0xF0FFu16) == 0xF00A ==> (op & 0xF000u16) == 0xF000 && (op & 0x00FFu16) == 0x0A)
        by (bit_vector);
    if rs.len() > 0 {
        lemma_key_wait_blocks(m, rs.drop_last());
        assert(fetch(fetch(m)) == fetch(m));
    }
}

/// The lowest pressed key at or above `k`, as `first_pressed` finds it.
pub proof fn lemma_first_pressed(keys: Seq<bool>, k: int)
    requires
        keys.len() == 16,
        0 <= k,
    ensures
        match first_pressed(keys, k) {
            Some(f) => k <= f < 16 && keys[f] && forall|j: int| k <= j < f ==> !keys[j],
            None => forall|j: int| k <= j < 16 ==> !keys[j],
        },
    decreases 16 - k,
{
    if k < 16 && !keys[k] {
        lemma_first_pressed(keys, k + 1);
    }
}

/// Once a key is pressed, a key wait stores the lowest pressed key in `VX`
/// and advances the program counter by 2, once.
pub proof fn lemma_key_wait_resumes(m: Machine, r: u8)
    requires
        well_formed(m),
        is_key_wait(word_at(m.memory, m.pc)),
        first_pressed(m.keys, 0) is Some,
    ensures
        ({
            let k = first_pressed(m.keys, 0)->0;
            let x = x_of(word_at(m.memory, m.pc));
            &&& step(m, r).pc == add16(m.pc, 2)
            &&& step(m, r).v == m.v.update(x, k as u8)
            &&& m.keys[k]
            &&& forall|j: int| 0 <= j < k ==> !m.keys[j]
        }),
{
    let op = word_at(m.memory, m.pc);
    assert((op & 0xF0FFu16) == 0xF00A ==> (op & 0xF000u16) == 0xF000 && (op & 0x00FFu16) == 0x0A)
        by (bit_vector);
    lemma_first_pressed(m.keys, 0);
}

/// Storing `V0..=VX` at `I` and loading them back from the same address
/// gives the registers back, and each of the two moves `I` on by `X + 1`.
pub proof fn lemma_store_load_round_trip(m: Machine, m2: Machine, x: int)
    requires
        well_formed(m),
        well_formed(m2),
        0 <= x < 16,
        m2.memory == store_regs(m, x).memory,
        m2.i == m.i,
    ensures
        forall|j: int| 0 <= j <= x ==> #[trigger] load_regs(m2, x).v[j] == m.v[j],
        store_regs(m, x).i == add16(m.i, x + 1),
        load_regs(m2, x).i == add16(m.i, x + 1),
{
    assert forall|j: int| 0 <= j <= x implies #[trigger] load_regs(m2, x).v[j] == m.v[j] by {
        let a = mem_addr(m.i + j);
        assert(0 <= a < MEMORY_SIZE);
        assert((a - m.i) % (MEMORY_SIZE as int) == j);
    }
}

} // verus!
