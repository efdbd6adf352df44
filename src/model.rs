use vstd::prelude::*;

verus! {

/// Abstract state of the virtual machine: what every contract of
/// `Chip8` is stated over.
pub struct Machine {
    pub v: Seq<u8>,
    pub pc: u16,
    pub i: u16,
    pub sound_timer: u8,
    pub delay_timer: u8,
    pub memory: Seq<u8>,
    pub opcode: u16,
    /// Pixels by column, then row: `gfx[c][r]`.
    pub gfx: Seq<Seq<u8>>,
    pub stack: Seq<u16>,
    pub keys: Seq<bool>,
    pub draw: bool,
    pub playing_sound: bool,
}

pub const MEMORY_SIZE: usize = 4096;

pub const PROGRAM_START: u16 = 0x200;

pub const SCREEN_WIDTH: usize = 64;

pub const SCREEN_HEIGHT: usize = 32;

/// Shape of a state: sixteen registers and keys, a full memory and a 64x32 screen.
pub open spec fn well_formed(m: Machine) -> bool {
    &&& m.v.len() == 16
    &&& m.keys.len() == 16
    &&& m.memory.len() == MEMORY_SIZE
    &&& m.gfx.len() == SCREEN_WIDTH
    &&& forall|c: int| 0 <= c < SCREEN_WIDTH ==> (#[trigger] m.gfx[c]).len() == SCREEN_HEIGHT
}

/// The built-in hexadecimal font: five rows of four pixels (in the high
/// nibble) for each digit 0 to F, stored from address 0.
pub open spec fn font() -> Seq<u8> {
    seq![
        0xF0, 0x90, 0x90, 0x90, 0xF0,
        0x20, 0x60, 0x20, 0x20, 0x70,
        0xF0, 0x10, 0xF0, 0x80, 0xF0,
        0xF0, 0x10, 0xF0, 0x10, 0xF0,
        0x90, 0x90, 0xF0, 0x10, 0x10,
        0xF0, 0x80, 0xF0, 0x10, 0xF0,
        0xF0, 0x80, 0xF0, 0x90, 0xF0,
        0xF0, 0x10, 0x20, 0x40, 0x40,
        0xF0, 0x90, 0xF0, 0x90, 0xF0,
        0xF0, 0x90, 0xF0, 0x10, 0xF0,
        0xF0, 0x90, 0xF0, 0x90, 0x90,
        0xE0, 0x90, 0xE0, 0x90, 0xE0,
        0xF0, 0x80, 0x80, 0x80, 0xF0,
        0xE0, 0x90, 0x90, 0x90, 0xE0,
        0xF0, 0x80, 0xF0, 0x80, 0xF0,
        0xF0, 0x80, 0xF0, 0x80, 0x80,
    ]
}

/// Memory addresses wrap around the 4096-byte space.
pub open spec fn mem_addr(a: int) -> int {
    a % (MEMORY_SIZE as int)
}

/// 16-bit wrapping addition, used for the program counter and `I`.
pub open spec fn add16(a: u16, k: int) -> u16 {
    ((a + k) % 0x10000) as u16
}

/// The big-endian instruction word at `pc`.
pub open spec fn word_at(mem: Seq<u8>, pc: u16) -> u16 {
    (mem[mem_addr(pc as int)] * 256 + mem[mem_addr(pc + 1)]) as u16
}

pub open spec fn x_of(op: u16) -> int {
    ((op >> 8u16) & 0xFu16) as int
}

pub open spec fn y_of(op: u16) -> int {
    ((op >> 4u16) & 0xFu16) as int
}

pub open spec fn nn_of(op: u16) -> u8 {
    (op & 0xFFu16) as u8
}

pub open spec fn nnn_of(op: u16) -> u16 {
    op & 0x0FFFu16
}

pub open spec fn rows_of(op: u16) -> int {
    (op & 0x000Fu16) as int
}

pub open spec fn fetch(m: Machine) -> Machine {
    Machine { opcode: word_at(m.memory, m.pc), ..m }
}

pub open spec fn advance(m: Machine) -> Machine {
    Machine { pc: add16(m.pc, 2), ..m }
}

pub open spec fn set_reg(m: Machine, x: int, val: u8) -> Machine {
    advance(Machine { v: m.v.update(x, val), ..m })
}

/// Sets `VX` then `VF`, in that order (so a flag wins when `x` is 15).
pub open spec fn set_reg_flag(m: Machine, x: int, val: u8, flag: bool) -> Machine {
    advance(Machine { v: m.v.update(x, val).update(15, if flag { 1u8 } else { 0u8 }), ..m })
}

/// Advances by 2, and by a further 2 when `cond` holds.
pub open spec fn skip_if(m: Machine, cond: bool) -> Machine {
    Machine { pc: if cond { add16(m.pc, 4) } else { add16(m.pc, 2) }, ..m }
}

pub open spec fn blank_screen() -> Seq<Seq<u8>> {
    Seq::new(SCREEN_WIDTH as nat, |c: int| Seq::new(SCREEN_HEIGHT as nat, |r: int| 0u8))
}

pub open spec fn clear(m: Machine) -> Machine {
    advance(Machine { gfx: blank_screen(), draw: true, ..m })
}

/// Return: pop the stack (staying put when it is empty), then advance by 2.
pub open spec fn ret(m: Machine) -> Machine {
    if m.stack.len() == 0 {
        advance(m)
    } else {
        advance(Machine { pc: m.stack.last(), stack: m.stack.drop_last(), ..m })
    }
}

pub open spec fn jump_to(m: Machine, a: u16) -> Machine {
    Machine { pc: a, ..m }
}

pub open spec fn call_to(m: Machine, a: u16) -> Machine {
    Machine { pc: a, stack: m.stack.push(m.pc), ..m }
}

pub open spec fn jump_offset(m: Machine, a: u16) -> Machine {
    Machine { pc: add16(a, m.v[0] as int), ..m }
}

pub open spec fn add_imm(m: Machine, x: int, n: u8) -> Machine {
    set_reg(m, x, ((m.v[x] + n) % 256) as u8)
}

pub open spec fn add_carry(m: Machine, x: int, y: int) -> Machine {
    set_reg_flag(m, x, ((m.v[x] + m.v[y]) % 256) as u8, m.v[x] + m.v[y] > 255)
}

pub open spec fn sub_regs(m: Machine, x: int, y: int) -> Machine {
    set_reg_flag(m, x, ((m.v[x] - m.v[y] + 256) % 256) as u8, m.v[x] >= m.v[y])
}

pub open spec fn sub_rev(m: Machine, x: int, y: int) -> Machine {
    set_reg_flag(m, x, ((m.v[y] - m.v[x] + 256) % 256) as u8, m.v[y] >= m.v[x])
}

/// `VF` takes the low bit of `VY` first, then `VX` takes `VY / 2`.
pub open spec fn shift_right(m: Machine, x: int, y: int) -> Machine {
    advance(Machine { v: m.v.update(15, m.v[y] % 2).update(x, m.v[y] / 2), ..m })
}

/// `VX` takes `VY * 2` (mod 256) first, then `VF` takes the high bit of `VY`.
pub open spec fn shift_left(m: Machine, x: int, y: int) -> Machine {
    advance(Machine { v: m.v.update(x, ((m.v[y] * 2) % 256) as u8).update(15, m.v[y] / 128), ..m })
}

pub open spec fn set_index(m: Machine, a: u16) -> Machine {
    advance(Machine { i: a, ..m })
}

pub open spec fn add_index(m: Machine, x: int) -> Machine {
    advance(Machine { i: add16(m.i, m.v[x] as int), ..m })
}

pub open spec fn glyph_index(m: Machine, x: int) -> Machine {
    advance(Machine { i: (m.v[x] * 5) as u16, ..m })
}

pub open spec fn set_delay(m: Machine, x: int) -> Machine {
    advance(Machine { delay_timer: m.v[x], ..m })
}

pub open spec fn set_sound(m: Machine, x: int) -> Machine {
    advance(Machine { sound_timer: m.v[x], ..m })
}

/// The key that register `x` names: its low four bits.
pub open spec fn key_of(m: Machine, x: int) -> int {
    (m.v[x] % 16) as int
}

/// Writes the hundreds, tens and units of `VX` at `I`, `I+1`, `I+2`.
pub open spec fn bcd_store(m: Machine, x: int) -> Machine {
    advance(
        Machine {
            memory: m.memory.update(mem_addr(m.i as int), m.v[x] / 100).update(
                mem_addr(m.i + 1),
                (m.v[x] / 10) % 10,
            ).update(mem_addr(m.i + 2), m.v[x] % 10),
            ..m
        },
    )
}

/// Registers `V0..=VX` copied to memory from `I` on, then `I` moved past them.
pub open spec fn store_regs(m: Machine, x: int) -> Machine {
    advance(
        Machine {
            memory: Seq::new(
                m.memory.len(),
                |a: int|
                    if (a - m.i) % (MEMORY_SIZE as int) <= x {
                        m.v[(a - m.i) % (MEMORY_SIZE as int)]
                    } else {
                        m.memory[a]
                    },
            ),
            i: add16(m.i, x + 1),
            ..m
        },
    )
}

/// Registers `V0..=VX` filled from memory at `I` on, then `I` moved past them.
pub open spec fn load_regs(m: Machine, x: int) -> Machine {
    advance(
        Machine {
            v: Seq::new(
                16,
                |j: int|
                    if j <= x {
                        m.memory[mem_addr(m.i + j)]
                    } else {
                        m.v[j]
                    },
            ),
            i: add16(m.i, x + 1),
            ..m
        },
    )
}

/// The lowest pressed key at or above `k`, if any.
pub open spec fn first_pressed(keys: Seq<bool>, k: int) -> Option<int>
    decreases 16 - k,
{
    if k >= 16 || k < 0 {
        None
    } else if keys[k] {
        Some(k)
    } else {
        first_pressed(keys, k + 1)
    }
}

/// Waits for a key: with none pressed the state is left as it is.
pub open spec fn wait_key(m: Machine, x: int) -> Machine {
    match first_pressed(m.keys, 0) {
        Some(k) => set_reg(m, x, k as u8),
        None => m,
    }
}

pub open spec fn masked_random(m: Machine, x: int, n: u8, r: u8) -> Machine {
    set_reg(m, x, r & n)
}

/// Whether screen pixel `(c, r)` lies under a sprite drawn at `(col, row)`
/// with `n` rows, after clipping at the screen's edges.
pub open spec fn in_sprite(col: int, row: int, n: int, c: int, r: int) -> bool {
    &&& col <= c < col + 8
    &&& row <= r < row + n
    &&& c < SCREEN_WIDTH
    &&& r < SCREEN_HEIGHT
}

/// The sprite's bit that lands on pixel `(c, r)`: rows come from memory at `I`,
/// most significant bit leftmost.
pub open spec fn sprite_bit(m: Machine, col: int, row: int, c: int, r: int) -> u8 {
    (m.memory[mem_addr(m.i + (r - row))] >> ((7 - (c - col)) as u8)) & 1u8
}

pub open spec fn draw_col(m: Machine, x: int) -> int {
    (m.v[x] % 64) as int
}

pub open spec fn draw_row(m: Machine, y: int) -> int {
    (m.v[y] % 32) as int
}

pub open spec fn drawn_screen(m: Machine, col: int, row: int, n: int) -> Seq<Seq<u8>> {
    Seq::new(
        SCREEN_WIDTH as nat,
        |c: int|
            Seq::new(
                SCREEN_HEIGHT as nat,
                |r: int|
                    if in_sprite(col, row, n, c, r) {
                        m.gfx[c][r] ^ sprite_bit(m, col, row, c, r)
                    } else {
                        m.gfx[c][r]
                    },
            ),
    )
}

/// Some lit pixel under the sprite meets a set sprite bit.
pub open spec fn collides(m: Machine, col: int, row: int, n: int) -> bool {
    exists|c: int, r: int|
        0 <= c < SCREEN_WIDTH && 0 <= r < SCREEN_HEIGHT && in_sprite(col, row, n, c, r) && (
        sprite_bit(m, col, row, c, r) & #[trigger] m.gfx[c][r]) == 1
}

/// XOR-draws an `n`-row sprite at `(VX mod 64, VY mod 32)`; `VF` records a collision.
pub open spec fn draw_sprite(m: Machine, x: int, y: int, n: int) -> Machine {
    let col = draw_col(m, x);
    let row = draw_row(m, y);
    advance(
        Machine {
            gfx: drawn_screen(m, col, row, n),
            v: m.v.update(15, if collides(m, col, row, n) { 1u8 } else { 0u8 }),
            draw: true,
            ..m
        },
    )
}

/// Decodes `m.opcode` and carries it out; `r` is the random byte that the
/// masked-random instruction uses (no other instruction reads it).
pub open spec fn execute(m: Machine, r: u8) -> Machine {
    let op = m.opcode;
    let x = x_of(op);
    let y = y_of(op);
    let nn = nn_of(op);
    let nnn = nnn_of(op);
    let hi = op & 0xF000u16;
    if hi == 0x0000 {
        if op == 0x00E0 {
            clear(m)
        } else if op == 0x00EE {
            ret(m)
        } else {
            advance(m)
        }
    } else if hi == 0x1000 {
        jump_to(m, nnn)
    } else if hi == 0x2000 {
        call_to(m, nnn)
    } else if hi == 0x3000 {
        skip_if(m, m.v[x] == nn)
    } else if hi == 0x4000 {
        skip_if(m, m.v[x] != nn)
    } else if hi == 0x5000 {
        if op & 0xF00F == 0x5000 {
            skip_if(m, m.v[x] == m.v[y])
        } else {
            advance(m)
        }
    } else if hi == 0x6000 {
        set_reg(m, x, nn)
    } else if hi == 0x7000 {
        add_imm(m, x, nn)
    } else if hi == 0x8000 {
        let lo = op & 0x000Fu16;
        if lo == 0 {
            set_reg(m, x, m.v[y])
        } else if lo == 1 {
            set_reg(m, x, m.v[x] | m.v[y])
        } else if lo == 2 {
            set_reg(m, x, m.v[x] & m.v[y])
        } else if lo == 3 {
            set_reg(m, x, m.v[x] ^ m.v[y])
        } else if lo == 4 {
            add_carry(m, x, y)
        } else if lo == 5 {
            sub_regs(m, x, y)
        } else if lo == 6 {
            shift_right(m, x, y)
        } else if lo == 7 {
            sub_rev(m, x, y)
        } else if lo == 0xE {
            shift_left(m, x, y)
        } else {
            advance(m)
        }
    } else if hi == 0x9000 {
        if op & 0xF00F == 0x9000 {
            skip_if(m, m.v[x] != m.v[y])
        } else {
            advance(m)
        }
    } else if hi == 0xA000 {
        set_index(m, nnn)
    } else if hi == 0xB000 {
        jump_offset(m, nnn)
    } else if hi == 0xC000 {
        masked_random(m, x, nn, r)
    } else if hi == 0xD000 {
        draw_sprite(m, x, y, rows_of(op))
    } else if hi == 0xE000 {
        let low = op & 0x00FFu16;
        if low == 0x9E {
            skip_if(m, m.keys[key_of(m, x)])
        } else if low == 0xA1 {
            skip_if(m, !m.keys[key_of(m, x)])
        } else {
            advance(m)
        }
    } else {
        let low = op & 0x00FFu16;
        if low == 0x07 {
            set_reg(m, x, m.delay_timer)
        } else if low == 0x0A {
            wait_key(m, x)
        } else if low == 0x15 {
            set_delay(m, x)
        } else if low == 0x18 {
            set_sound(m, x)
        } else if low == 0x1E {
            add_index(m, x)
        } else if low == 0x29 {
            glyph_index(m, x)
        } else if low == 0x33 {
            bcd_store(m, x)
        } else if low == 0x55 {
            store_regs(m, x)
        } else if low == 0x65 {
            load_regs(m, x)
        } else {
            advance(m)
        }
    }
}

/// One cycle: fetch the word at `pc`, then execute it.
pub open spec fn step(m: Machine, r: u8) -> Machine {
    execute(fetch(m), r)
}

/// Runs one cycle per byte of `rs`, in order.
pub open spec fn run(m: Machine, rs: Seq<u8>) -> Machine
    decreases rs.len(),
{
    if rs.len() == 0 {
        m
    } else {
        step(run(m, rs.drop_last()), rs.last())
    }
}

/// End-of-frame timer update: both count down to zero, and the sound plays
/// exactly when its timer was nonzero.
pub open spec fn tick(m: Machine) -> Machine {
    Machine {
        delay_timer: if m.delay_timer > 0 { (m.delay_timer - 1) as u8 } else { 0 },
        sound_timer: if m.sound_timer > 0 { (m.sound_timer - 1) as u8 } else { 0 },
        playing_sound: m.sound_timer > 0,
        ..m
    }
}

pub const CYCLES_PER_FRAME: usize = 9;

/// One frame: a burst of cycles, one per byte of `rs`, then the timers.
pub open spec fn frame(m: Machine, rs: Seq<u8>) -> Machine {
    tick(run(m, rs))
}

} // verus!
