use crate::model::{
    add_carry, add_imm, add_index, advance, bcd_store, blank_screen, call_to, clear,
    collides, draw_col, draw_row, drawn_screen, draw_sprite, execute, fetch, first_pressed,
    font, frame, glyph_index, in_sprite, jump_offset, jump_to, key_of, load_regs, masked_random,
    mem_addr, ret, run, set_delay, set_index, set_reg, set_sound, shift_left, shift_right,
    skip_if, sprite_bit, step, store_regs, sub_regs, sub_rev, wait_key, well_formed,
    Machine, CYCLES_PER_FRAME, MEMORY_SIZE, PROGRAM_START, SCREEN_HEIGHT, SCREEN_WIDTH,
};
use vstd::prelude::*;

verus! {

/// The machine: sixteen byte registers (`VF` doubles as a flag), the index
/// register `I`, the program counter, 4 KiB of memory, a call stack, two
/// timers, a 64x32 one-bit screen and sixteen keys.
///
/// Addresses into memory wrap around its 4096 bytes; the program counter and
/// `I` are 16-bit and wrap on overflow.
pub struct Chip8 {
    v: [u8; 16],
    pc: u16,
    i: u16,
    sound_timer: u8,
    delay_timer: u8,
    memory: [u8; 4096],
    opcode: u16,
    gfx: [[u8; 32]; 64],
    stack: Vec<u16>,
    keys: [bool; 16],
    draw: bool,
    playing_sound: bool,
}

impl View for Chip8 {
    type V = Machine;

    closed spec fn view(&self) -> Machine {
        Machine {
            v: self.v@,
            pc: self.pc,
            i: self.i,
            sound_timer: self.sound_timer,
            delay_timer: self.delay_timer,
            memory: self.memory@,
            opcode: self.opcode,
            gfx: self.gfx@.map_values(|col: [u8; 32]| col@),
            stack: self.stack@,
            keys: self.keys@,
            draw: self.draw,
            playing_sound: self.playing_sound,
        }
    }
}

/// Relies on rand::random::<u8>: one byte from the thread-local generator.
/// Nothing is known of its value.
#[verifier::external_body]
fn random_byte() -> (r: u8) {
    rand::random::<u8>()
}


/// Pixel `(c, r)` of a sprite at `(col, row)` has been drawn once rows
/// `0..j` of it, and the first `k` pixels of row `j`, are done.
spec fn done(col: int, row: int, n: int, j: int, k: int, c: int, r: int) -> bool {
    in_sprite(col, row, n, c, r) && (r - row < j || (r - row == j && c - col < k))
}

/// The screen of `m` with the done part of the sprite drawn.
spec fn partly_drawn(m: Machine, col: int, row: int, n: int, j: int, k: int) -> Seq<Seq<u8>> {
    Seq::new(
        SCREEN_WIDTH as nat,
        |c: int|
            Seq::new(
                SCREEN_HEIGHT as nat,
                |r: int|
                    if done(col, row, n, j, k, c, r) {
                        m.gfx[c][r] ^ sprite_bit(m, col, row, c, r)
                    } else {
                        m.gfx[c][r]
                    },
            ),
    )
}

/// A collision among the done pixels.
spec fn partly_collides(m: Machine, col: int, row: int, n: int, j: int, k: int) -> bool {
    exists|c: int, r: int|
        0 <= c < SCREEN_WIDTH && 0 <= r < SCREEN_HEIGHT && done(col, row, n, j, k, c, r) && (
        sprite_bit(m, col, row, c, r) & #[trigger] m.gfx[c][r]) == 1
}

proof fn lemma_collides_step(m: Machine, col: int, row: int, n: int, j: int, k: int)
    requires
        0 <= col < SCREEN_WIDTH,
        0 <= row < SCREEN_HEIGHT,
        0 <= j,
        0 <= k < 8,
        in_sprite(col, row, n, col + k, row + j),
    ensures
        partly_collides(m, col, row, n, j, k + 1) == (partly_collides(m, col, row, n, j, k) || (
        sprite_bit(m, col, row, col + k, row + j) & m.gfx[col + k][row + j]) == 1),
{
    if partly_collides(m, col, row, n, j, k + 1) {
        let (c, r) = choose|c: int, r: int|
            0 <= c < SCREEN_WIDTH && 0 <= r < SCREEN_HEIGHT && done(col, row, n, j, k + 1, c, r)
                && (sprite_bit(m, col, row, c, r) & #[trigger] m.gfx[c][r]) == 1;
        if !(c == col + k && r == row + j) {
            assert(done(col, row, n, j, k, c, r));
        }
    }
    if partly_collides(m, col, row, n, j, k) {
        let (c, r) = choose|c: int, r: int|
            0 <= c < SCREEN_WIDTH && 0 <= r < SCREEN_HEIGHT && done(col, row, n, j, k, c, r)
                && (sprite_bit(m, col, row, c, r) & #[trigger] m.gfx[c][r]) == 1;
        assert(done(col, row, n, j, k + 1, c, r));
    }
    if (sprite_bit(m, col, row, col + k, row + j) & m.gfx[col + k][row + j]) == 1 {
        assert(done(col, row, n, j, k + 1, col + k, row + j));
    }
}

impl Chip8 {
    /// Every state of the machine has the shape that `well_formed` describes.
    pub proof fn lemma_well_formed(&self)
        ensures
            well_formed(self@),
    {
        assert forall|c: int| 0 <= c < SCREEN_WIDTH implies (#[trigger] self@.gfx[c]).len()
            == SCREEN_HEIGHT by {
            assert(self@.gfx[c] == self.gfx@[c]@);
        }
    }

    /// A machine with everything zeroed and the program counter at 0x200.
    pub fn new() -> (r: Chip8)
        ensures
            r@.v == Seq::new(16, |j: int| 0u8),
            r@.pc == PROGRAM_START,
            r@.i == 0,
            r@.sound_timer == 0,
            r@.delay_timer == 0,
            r@.memory == Seq::new(MEMORY_SIZE as nat, |a: int| 0u8),
            r@.opcode == 0,
            r@.gfx == blank_screen(),
            r@.stack == Seq::<u16>::empty(),
            r@.keys == Seq::new(16, |j: int| false),
            !r@.draw,
            !r@.playing_sound,
    {
        let r = Chip8 {
            v: [0u8; 16],
            pc: PROGRAM_START,
            i: 0,
            sound_timer: 0,
            delay_timer: 0,
            memory: [0u8; 4096],
            opcode: 0,
            gfx: [[0u8; 32]; 64],
            stack: Vec::new(),
            keys: [false; 16],
            draw: false,
            playing_sound: false,
        };
        assert(r@.v =~= Seq::new(16, |j: int| 0u8));
        assert(r@.memory =~= Seq::new(MEMORY_SIZE as nat, |a: int| 0u8));
        assert(r@.keys =~= Seq::new(16, |j: int| false));
        assert forall|c: int| 0 <= c < SCREEN_WIDTH implies #[trigger] r@.gfx[c] =~= blank_screen()[c] by {
            assert(r.gfx@[c]@ =~= Seq::new(SCREEN_HEIGHT as nat, |q: int| 0u8));
        }
        assert(r@.gfx =~= blank_screen());
        r
    }

    /// Presses (`true`) or releases key `k`.
    pub fn set_key(&mut self, k: usize, pressed: bool)
        requires
            k < 16,
        ensures
            final(self)@ == (Machine { keys: old(self)@.keys.update(k as int, pressed), ..old(self)@ }),
    {
        self.keys[k] = pressed;
    }

    /// The screen, by column then row; each pixel is 0 or 1.
    pub fn get_gfx(&self) -> (r: &[[u8; 32]; 64])
        ensures
            r@.map_values(|col: [u8; 32]| col@) == self@.gfx,
    {
        &self.gfx
    }

    /// Whether the screen changed since the flag was last cleared.
    pub fn get_draw(&self) -> (r: bool)
        ensures
            r == self@.draw,
    {
        self.draw
    }

    /// Set or clear the redraw flag (the host clears it once it has shown a frame).
    pub fn set_draw(&mut self, draw: bool)
        ensures
            final(self)@ == (Machine { draw: draw, ..old(self)@ }),
    {
        self.draw = draw;
    }

    /// Whether the tone should sound, as the last frame left it.
    pub fn is_playing_sound(&self) -> (r: bool)
        ensures
            r == self@.playing_sound,
    {
        self.playing_sound
    }

    /// Register `VX`.
    pub fn register(&self, x: usize) -> (r: u8)
        requires
            x < 16,
        ensures
            r == self@.v[x as int],
    {
        self.v[x]
    }

    pub fn program_counter(&self) -> (r: u16)
        ensures
            r == self@.pc,
    {
        self.pc
    }

    /// The index register `I`.
    pub fn index_register(&self) -> (r: u16)
        ensures
            r == self@.i,
    {
        self.i
    }

    /// The byte at memory address `a`.
    pub fn memory_at(&self, a: usize) -> (r: u8)
        requires
            a < MEMORY_SIZE,
        ensures
            r == self@.memory[a as int],
    {
        self.memory[a]
    }

    pub fn delay_timer(&self) -> (r: u8)
        ensures
            r == self@.delay_timer,
    {
        self.delay_timer
    }

    pub fn sound_timer(&self) -> (r: u8)
        ensures
            r == self@.sound_timer,
    {
        self.sound_timer
    }

    /// How many return addresses the call stack holds.
    pub fn stack_depth(&self) -> (r: usize)
        ensures
            r == self@.stack.len(),
    {
        self.stack.len()
    }

    /// (7XNN) `VX += NN`, wrapping; `VF` untouched.
    pub fn add(&mut self, x: usize, n: u8)
        requires
            x < 16,
        ensures
            final(self)@ == add_imm(old(self)@, x as int, n),
    {
        self.v[x] = self.v[x].wrapping_add(n);
        self.pc = self.pc.wrapping_add(2);
    }

    /// (FX1E) `I += VX`, wrapping at 16 bits, no flag.
    pub fn addi(&mut self, x: usize)
        requires
            x < 16,
        ensures
            final(self)@ == add_index(old(self)@, x as int),
    {
        self.i = self.i.wrapping_add(self.v[x] as u16);
        self.pc = self.pc.wrapping_add(2);
    }

    /// (8XY4) `VX += VY`, wrapping; then `VF` is 1 on a carry, else 0.
    pub fn addr(&mut self, x: usize, y: usize)
        requires
            x < 16,
            y < 16,
        ensures
            final(self)@ == add_carry(old(self)@, x as int, y as int),
    {
        let carry = 0xFF - self.v[x] < self.v[y];
        self.v[x] = self.v[x].wrapping_add(self.v[y]);
        self.v[15] = if carry { 1 } else { 0 };
        self.pc = self.pc.wrapping_add(2);
    }

    /// (8XY2) `VX &= VY`.
    pub fn and(&mut self, x: usize, y: usize)
        requires
            x < 16,
            y < 16,
        ensures
            final(self)@ == set_reg(old(self)@, x as int, old(self)@.v[x as int] & old(self)@.v[y as int]),
    {
        self.v[x] = self.v[x] & self.v[y];
        self.pc = self.pc.wrapping_add(2);
    }

    /// (8XY1) `VX |= VY`.
    pub fn or(&mut self, x: usize, y: usize)
        requires
            x < 16,
            y < 16,
        ensures
            final(self)@ == set_reg(old(self)@, x as int, old(self)@.v[x as int] | old(self)@.v[y as int]),
    {
        self.v[x] = self.v[x] | self.v[y];
        self.pc = self.pc.wrapping_add(2);
    }

    /// (8XY3) `VX ^= VY`.
    pub fn xor(&mut self, x: usize, y: usize)
        requires
            x < 16,
            y < 16,
        ensures
            final(self)@ == set_reg(old(self)@, x as int, old(self)@.v[x as int] ^ old(self)@.v[y as int]),
    {
        self.v[x] = self.v[x] ^ self.v[y];
        self.pc = self.pc.wrapping_add(2);
    }

    /// (8XY0) `VX = VY`.
    pub fn move_reg(&mut self, x: usize, y: usize)
        requires
            x < 16,
            y < 16,
        ensures
            final(self)@ == set_reg(old(self)@, x as int, old(self)@.v[y as int]),
    {
        self.v[x] = self.v[y];
        self.pc = self.pc.wrapping_add(2);
    }

    /// (6XNN) `VX = NN`.
    pub fn load(&mut self, x: usize, n: u8)
        requires
            x < 16,
        ensures
            final(self)@ == set_reg(old(self)@, x as int, n),
    {
        self.v[x] = n;
        self.pc = self.pc.wrapping_add(2);
    }

    /// (FX07) `VX = delay timer`.
    pub fn moved(&mut self, x: usize)
        requires
            x < 16,
        ensures
            final(self)@ == set_reg(old(self)@, x as int, old(self)@.delay_timer),
    {
        self.v[x] = self.delay_timer;
        self.pc = self.pc.wrapping_add(2);
    }

    /// (FX15) `delay timer = VX`.
    pub fn loadd(&mut self, x: usize)
        requires
            x < 16,
        ensures
            final(self)@ == set_delay(old(self)@, x as int),
    {
        self.delay_timer = self.v[x];
        self.pc = self.pc.wrapping_add(2);
    }

    /// (FX18) `sound timer = VX`.
    pub fn loads(&mut self, x: usize)
        requires
            x < 16,
        ensures
            final(self)@ == set_sound(old(self)@, x as int),
    {
        self.sound_timer = self.v[x];
        self.pc = self.pc.wrapping_add(2);
    }

    /// (ANNN) `I = NNN`.
    pub fn loadi(&mut self, addr: u16)
        ensures
            final(self)@ == set_index(old(self)@, addr),
    {
        self.i = addr;
        self.pc = self.pc.wrapping_add(2);
    }

    /// (FX29) `I = VX * 5`, the address of the glyph for the digit in `VX`.
    pub fn ldspr(&mut self, x: usize)
        requires
            x < 16,
        ensures
            final(self)@ == glyph_index(old(self)@, x as int),
    {
        self.i = (self.v[x] as u16) * 5;
        self.pc = self.pc.wrapping_add(2);
    }

    /// (1NNN) Jump to `NNN`.
    pub fn jump(&mut self, addr: u16)
        ensures
            final(self)@ == jump_to(old(self)@, addr),
    {
        self.pc = addr;
    }

    /// (BNNN) Jump to `NNN + V0`.
    pub fn jump0(&mut self, addr: u16)
        ensures
            final(self)@ == jump_offset(old(self)@, addr),
    {
        self.pc = addr.wrapping_add(self.v[0] as u16);
    }

    /// (2NNN) Push the program counter, then jump to `NNN`.
    pub fn call(&mut self, addr: u16)
        ensures
            final(self)@ == call_to(old(self)@, addr),
    {
        self.stack.push(self.pc);
        self.pc = addr;
    }

    /// (00EE) Pop a return address (staying put on an empty stack), then advance by 2.
    pub fn rts(&mut self)
        ensures
            final(self)@ == ret(old(self)@),
    {
        match self.stack.pop() {
            Some(a) => {
                self.pc = a;
            },
            None => {},
        }
        self.pc = self.pc.wrapping_add(2);
    }

    /// (8XY5) `VX -= VY`, wrapping; then `VF` is 1 when there was no borrow (`VX >= VY`), else 0.
    pub fn sub(&mut self, x: usize, y: usize)
        requires
            x < 16,
            y < 16,
        ensures
            final(self)@ == sub_regs(old(self)@, x as int, y as int),
    {
        let no_borrow = self.v[x] >= self.v[y];
        self.v[x] = self.v[x].wrapping_sub(self.v[y]);
        self.v[15] = if no_borrow { 1 } else { 0 };
        self.pc = self.pc.wrapping_add(2);
    }

    /// (8XY7) `VX = VY - VX`, wrapping; then `VF` is 1 when `VY >= VX`, else 0.
    pub fn subn(&mut self, x: usize, y: usize)
        requires
            x < 16,
            y < 16,
        ensures
            final(self)@ == sub_rev(old(self)@, x as int, y as int),
    {
        let no_borrow = self.v[y] >= self.v[x];
        self.v[x] = self.v[y].wrapping_sub(self.v[x]);
        self.v[15] = if no_borrow { 1 } else { 0 };
        self.pc = self.pc.wrapping_add(2);
    }

    /// (8XY6) `VF` = low bit of `VY`, then `VX = VY >> 1`; `VY` unchanged.
    pub fn shr(&mut self, x: usize, y: usize)
        requires
            x < 16,
            y < 16,
        ensures
            final(self)@ == shift_right(old(self)@, x as int, y as int),
    {
        let b = self.v[y];
        assert(b & 1 == b % 2 && b >> 1 == b / 2) by (bit_vector);
        self.v[15] = b & 1;
        self.v[x] = b >> 1;
        self.pc = self.pc.wrapping_add(2);
    }

    /// (8XYE) `VX = VY << 1`, then `VF` = high bit of `VY`; `VY` unchanged.
    pub fn shl(&mut self, x: usize, y: usize)
        requires
            x < 16,
            y < 16,
        ensures
            final(self)@ == shift_left(old(self)@, x as int, y as int),
    {
        let b = self.v[y];
        assert((b & 0x80) >> 7 == b / 128 && b << 1 == (b * 2) % 256) by (bit_vector);
        let top = (b & 0x80) >> 7;
        self.v[x] = b << 1;
        self.v[15] = top;
        self.pc = self.pc.wrapping_add(2);
    }

    /// (3XNN) Skip the next instruction when `VX == NN`.
    pub fn ske(&mut self, x: usize, n: u8)
        requires
            x < 16,
        ensures
            final(self)@ == skip_if(old(self)@, old(self)@.v[x as int] == n),
    {
        if self.v[x] == n {
            self.pc = self.pc.wrapping_add(2);
        }
        self.pc = self.pc.wrapping_add(2);
    }

    /// (4XNN) Skip the next instruction when `VX != NN`.
    pub fn skne(&mut self, x: usize, n: u8)
        requires
            x < 16,
        ensures
            final(self)@ == skip_if(old(self)@, old(self)@.v[x as int] != n),
    {
        if self.v[x] != n {
            self.pc = self.pc.wrapping_add(2);
        }
        self.pc = self.pc.wrapping_add(2);
    }

    /// (5XY0) Skip the next instruction when `VX == VY`.
    pub fn skre(&mut self, x: usize, y: usize)
        requires
            x < 16,
            y < 16,
        ensures
            final(self)@ == skip_if(old(self)@, old(self)@.v[x as int] == old(self)@.v[y as int]),
    {
        if self.v[x] == self.v[y] {
            self.pc = self.pc.wrapping_add(2);
        }
        self.pc = self.pc.wrapping_add(2);
    }

    /// (9XY0) Skip the next instruction when `VX != VY`.
    pub fn skrne(&mut self, x: usize, y: usize)
        requires
            x < 16,
            y < 16,
        ensures
            final(self)@ == skip_if(old(self)@, old(self)@.v[x as int] != old(self)@.v[y as int]),
    {
        if self.v[x] != self.v[y] {
            self.pc = self.pc.wrapping_add(2);
        }
        self.pc = self.pc.wrapping_add(2);
    }

    /// (EX9E) Skip the next instruction when the key named by `VX` (its low
    /// four bits) is pressed.
    pub fn skpr(&mut self, x: usize)
        requires
            x < 16,
        ensures
            final(self)@ == skip_if(old(self)@, old(self)@.keys[key_of(old(self)@, x as int)]),
    {
        let k = (self.v[x] % 16) as usize;
        if self.keys[k] {
            self.pc = self.pc.wrapping_add(2);
        }
        self.pc = self.pc.wrapping_add(2);
    }

    /// (EXA1) Skip the next instruction when the key named by `VX` (its low
    /// four bits) is not pressed.
    pub fn skup(&mut self, x: usize)
        requires
            x < 16,
        ensures
            final(self)@ == skip_if(old(self)@, !old(self)@.keys[key_of(old(self)@, x as int)]),
    {
        let k = (self.v[x] % 16) as usize;
        if !self.keys[k] {
            self.pc = self.pc.wrapping_add(2);
        }
        self.pc = self.pc.wrapping_add(2);
    }

    /// (FX33) Store the decimal digits of `VX` at `I`, `I+1` and `I+2`.
    pub fn bcd(&mut self, x: usize)
        requires
            x < 16,
        ensures
            final(self)@ == bcd_store(old(self)@, x as int),
    {
        let val = self.v[x];
        let base = self.i as usize;
        self.memory[base % 4096] = val / 100;
        self.memory[(base + 1) % 4096] = (val / 10) % 10;
        self.memory[(base + 2) % 4096] = val % 10;
        self.pc = self.pc.wrapping_add(2);
    }

    /// (CXNN) `VX = r & NN` for a random byte `r`, drawn here.
    pub fn rand(&mut self, x: usize, n: u8)
        requires
            x < 16,
        ensures
            exists|r: u8| final(self)@ == masked_random(old(self)@, x as int, n, r),
    {
        let r = random_byte();
        self.rand_with(x, n, r);
    }

    /// (CXNN) with the random byte given: `VX = r & NN`.
    pub fn rand_with(&mut self, x: usize, n: u8, r: u8)
        requires
            x < 16,
        ensures
            final(self)@ == masked_random(old(self)@, x as int, n, r),
    {
        self.v[x] = r & n;
        self.pc = self.pc.wrapping_add(2);
    }

    /// (00E0) Clear every pixel and mark the screen for redraw.
    pub fn cls(&mut self)
        ensures
            final(self)@ == clear(old(self)@),
    {
        self.gfx = [[0u8; 32]; 64];
        self.draw = true;
        self.pc = self.pc.wrapping_add(2);
        assert forall|c: int| 0 <= c < SCREEN_WIDTH implies #[trigger] self@.gfx[c]
            =~= blank_screen()[c] by {
            assert(self.gfx@[c]@ =~= Seq::new(SCREEN_HEIGHT as nat, |q: int| 0u8));
        }
        assert(self@.gfx =~= blank_screen());
    }

    /// (FX0A) Wait for a key: store the lowest pressed key in `VX` and
    /// advance; with no key pressed, change nothing, so that the instruction
    /// runs again on the next cycle. All sixteen keys are scanned.
    pub fn keyd(&mut self, x: usize)
        requires
            x < 16,
        ensures
            final(self)@ == wait_key(old(self)@, x as int),
    {
        let mut key: usize = 0;
        while key < 16
            invariant
                key <= 16,
                x < 16,
                *self == *old(self),
                first_pressed(self@.keys, 0) == first_pressed(self@.keys, key as int),
            decreases 16 - key,
        {
            if self.keys[key] {
                self.v[x] = key as u8;
                self.pc = self.pc.wrapping_add(2);
                return;
            }
            key = key + 1;
        }
    }

    /// (FX55) Store `V0..=VX` in memory from `I` on; then `I += X + 1`.
    pub fn stor(&mut self, x: usize)
        requires
            x < 16,
        ensures
            final(self)@ == store_regs(old(self)@, x as int),
    {
        let base = self.i as usize;
        let mut j: usize = 0;
        while j <= x
            invariant
                x < 16,
                j <= x + 1,
                base == old(self).i,
                self@.v == old(self)@.v,
                self.memory@.len() == MEMORY_SIZE,
                forall|a: int|
                    0 <= a < MEMORY_SIZE ==> #[trigger] self.memory@[a] == if (a - base)
                        % (MEMORY_SIZE as int) < j {
                        self@.v[(a - base) % (MEMORY_SIZE as int)]
                    } else {
                        old(self)@.memory[a]
                    },
                self@ == (Machine { memory: self@.memory, ..old(self)@ }),
            decreases x + 1 - j,
        {
            self.memory[(base + j) % 4096] = self.v[j];
            j = j + 1;
        }
        self.i = self.i.wrapping_add((x + 1) as u16);
        self.pc = self.pc.wrapping_add(2);
        assert(self@.memory =~= store_regs(old(self)@, x as int).memory);
    }

    /// (FX65) Fill `V0..=VX` from memory at `I` on; then `I += X + 1`.
    pub fn read(&mut self, x: usize)
        requires
            x < 16,
        ensures
            final(self)@ == load_regs(old(self)@, x as int),
    {
        let base = self.i as usize;
        let mut j: usize = 0;
        while j <= x
            invariant
                x < 16,
                j <= x + 1,
                base == old(self).i,
                self@.memory == old(self)@.memory,
                self.v@.len() == 16,
                forall|k: int|
                    0 <= k < 16 ==> #[trigger] self.v@[k] == if k < j {
                        old(self)@.memory[mem_addr(base + k)]
                    } else {
                        old(self)@.v[k]
                    },
                self@ == (Machine { v: self@.v, ..old(self)@ }),
            decreases x + 1 - j,
        {
            self.v[j] = self.memory[(base + j) % 4096];
            j = j + 1;
        }
        self.i = self.i.wrapping_add((x + 1) as u16);
        self.pc = self.pc.wrapping_add(2);
        assert(self@.v =~= load_regs(old(self)@, x as int).v);
    }

    /// Copy a program image into memory from 0x200 on; nothing else changes.
    pub fn load_rom(&mut self, data: Vec<u8>)
        requires
            data@.len() <= MEMORY_SIZE - PROGRAM_START,
        ensures
            final(self)@ == (Machine {
                memory: old(self)@.memory.update_subrange_with(PROGRAM_START as int, data@),
                ..old(self)@
            }),
    {
        let mut j: usize = 0;
        while j < data.len()
            invariant
                j <= data@.len(),
                data@.len() <= MEMORY_SIZE - PROGRAM_START,
                self.memory@.len() == MEMORY_SIZE,
                forall|a: int|
                    0 <= a < MEMORY_SIZE ==> #[trigger] self.memory@[a] == if PROGRAM_START <= a
                        < PROGRAM_START + j {
                        data@[a - PROGRAM_START]
                    } else {
                        old(self)@.memory[a]
                    },
                self@ == (Machine { memory: self@.memory, ..old(self)@ }),
            decreases data@.len() - j,
        {
            self.memory[0x200 + j] = data[j];
            j = j + 1;
        }
        assert(self@.memory =~= old(self)@.memory.update_subrange_with(
            PROGRAM_START as int,
            data@,
        ));
    }

    /// Load the 80-byte hexadecimal font at addresses 0 to 79.
    pub fn load_fonts(&mut self)
        ensures
            final(self)@ == (Machine {
                memory: old(self)@.memory.update_subrange_with(0, font()),
                ..old(self)@
            }),
    {
        let glyphs: [u8; 80] = [
            0xF0, 0x90, 0x90, 0x90, 0xF0,
            0x20, 0x60, 0x20, 0x20, 0x70,
            0xF0, 0x10, 0xF0, 0x80, 0xF0,
            0xF0, 0x10, 0xF0, 0x10, 0xF0,
            0x90, 0x90, 0xF0, 0x10, 0x10,
            0xF0, 0x80, 0xF0, 0x10, 0xF0,
            0xF0, 0x80, 0xF0, 0x90, 0xF0,
            0xF0, 0x10, 0x20, 0x40, 0x40,
            0xF0, 0x90, 0xF0, 0x90, 0xF0,
            0xF0, 0x90, 0xF0, 0x10, 0xF0,
            0xF0, 0x90, 0xF0, 0x90, 0x90,
            0xE0, 0x90, 0xE0, 0x90, 0xE0,
            0xF0, 0x80, 0x80, 0x80, 0xF0,
            0xE0, 0x90, 0x90, 0x90, 0xE0,
            0xF0, 0x80, 0xF0, 0x80, 0xF0,
            0xF0, 0x80, 0xF0, 0x80, 0x80,
        ];
        assert(glyphs@ =~= font());
        let mut j: usize = 0;
        while j < 80
            invariant
                j <= 80,
                glyphs@ == font(),
                self.memory@.len() == MEMORY_SIZE,
                forall|a: int|
                    0 <= a < MEMORY_SIZE ==> #[trigger] self.memory@[a] == if a < j {
                        font()[a]
                    } else {
                        old(self)@.memory[a]
                    },
                self@ == (Machine { memory: self@.memory, ..old(self)@ }),
            decreases 80 - j,
        {
            self.memory[j] = glyphs[j];
            j = j + 1;
        }
        assert(self@.memory =~= old(self)@.memory.update_subrange_with(0, font()));
    }

    /// Read the big-endian instruction word at the program counter into `opcode`.
    pub fn fetch_opcode(&mut self)
        ensures
            final(self)@ == fetch(old(self)@),
    {
        let hi = self.memory[(self.pc as usize) % 4096] as u16;
        let lo = self.memory[(self.pc as usize + 1) % 4096] as u16;
        self.opcode = hi * 256 + lo;
    }

    /// XOR `on` into pixel `(c, r)`; reports whether a lit pixel met a set bit.
    fn xor_pixel(&mut self, c: usize, r: usize, on: u8) -> (hit: bool)
        requires
            c < SCREEN_WIDTH,
            r < SCREEN_HEIGHT,
        ensures
            final(self)@ == (Machine {
                gfx: old(self)@.gfx.update(
                    c as int,
                    old(self)@.gfx[c as int].update(r as int, old(self)@.gfx[c as int][r as int] ^ on),
                ),
                ..old(self)@
            }),
            hit == ((on & old(self)@.gfx[c as int][r as int]) == 1),
    {
        let mut column = self.gfx[c];
        let hit = on & column[r] == 1;
        column[r] = column[r] ^ on;
        self.gfx[c] = column;
        assert(self@.gfx =~= old(self)@.gfx.update(
            c as int,
            old(self)@.gfx[c as int].update(r as int, old(self)@.gfx[c as int][r as int] ^ on),
        ));
        hit
    }

    /// (DXYN) XOR-draw the `n`-row sprite stored at `I` at (`VX` mod 64,
    /// `VY` mod 32), most significant bit leftmost, clipped (not wrapped) at
    /// the right and bottom edges. `VF` becomes 1 when a lit pixel is
    /// turned off, else 0; the screen is marked for redraw.
    pub fn draw(&mut self, x: usize, y: usize, n: usize)
        requires
            x < 16,
            y < 16,
        ensures
            final(self)@ == draw_sprite(old(self)@, x as int, y as int, n as int),
    {
        let ghost m0 = self@;
        proof {
            self.lemma_well_formed();
        }
        let col = (self.v[x] % 64) as usize;
        let row = (self.v[y] % 32) as usize;
        let base = self.i as usize;
        let mut hit = false;
        let mut j: usize = 0;
        assert(self@.gfx =~= partly_drawn(m0, col as int, row as int, n as int, 0, 0)) by {
            assert forall|c: int| 0 <= c < SCREEN_WIDTH implies #[trigger] self@.gfx[c]
                =~= partly_drawn(m0, col as int, row as int, n as int, 0, 0)[c] by {}
        }
        while j < n && row + j < SCREEN_HEIGHT
            invariant
                well_formed(m0),
                col == draw_col(m0, x as int),
                row == draw_row(m0, y as int),
                col < SCREEN_WIDTH,
                row < SCREEN_HEIGHT,
                base == m0.i,
                j <= n,
                row + j <= SCREEN_HEIGHT,
                self@ == (Machine { gfx: self@.gfx, ..m0 }),
                self@.gfx == partly_drawn(m0, col as int, row as int, n as int, j as int, 0),
                hit == partly_collides(m0, col as int, row as int, n as int, j as int, 0),
            decreases n - j,
        {
            let byte = self.memory[(base + j) % 4096];
            let mut k: usize = 0;
            while k < 8 && col + k < SCREEN_WIDTH
                invariant
                    well_formed(m0),
                    col < SCREEN_WIDTH,
                    row < SCREEN_HEIGHT,
                    row + j < SCREEN_HEIGHT,
                    j < n,
                    base == m0.i,
                    k <= 8,
                    byte == m0.memory[mem_addr(m0.i + j)],
                    self@ == (Machine { gfx: self@.gfx, ..m0 }),
                    self@.gfx == partly_drawn(m0, col as int, row as int, n as int, j as int, k as int),
                    hit == partly_collides(m0, col as int, row as int, n as int, j as int, k as int),
                decreases 8 - k,
            {
                let on: u8 = (byte >> ((7 - k) as u8)) & 1;
                let ghost c0 = (col + k) as int;
                let ghost r0 = (row + j) as int;
                proof {
                    assert(in_sprite(col as int, row as int, n as int, c0, r0));
                    assert(on == sprite_bit(m0, col as int, row as int, c0, r0));
                    assert(!done(col as int, row as int, n as int, j as int, k as int, c0, r0));
                    assert(self@.gfx[c0][r0] == m0.gfx[c0][r0]);
                    lemma_collides_step(m0, col as int, row as int, n as int, j as int, k as int);
                }
                let h = self.xor_pixel(col + k, row + j, on);
                if h {
                    hit = true;
                }
                k = k + 1;
                assert(self@.gfx =~= partly_drawn(m0, col as int, row as int, n as int, j as int, k as int)) by {
                    assert forall|c: int| 0 <= c < SCREEN_WIDTH implies #[trigger] self@.gfx[c]
                        =~= partly_drawn(m0, col as int, row as int, n as int, j as int, k as int)[c] by {}
                }
            }
            proof {
                assert forall|c: int, r: int|
                    done(col as int, row as int, n as int, j as int, k as int, c, r)
                        == #[trigger] done(col as int, row as int, n as int, j + 1, 0, c, r) by {}
                assert(partly_collides(m0, col as int, row as int, n as int, j as int, k as int)
                    == partly_collides(m0, col as int, row as int, n as int, j + 1, 0));
            }
            j = j + 1;
            assert(self@.gfx =~= partly_drawn(m0, col as int, row as int, n as int, j as int, 0)) by {
                assert forall|c: int| 0 <= c < SCREEN_WIDTH implies #[trigger] self@.gfx[c]
                    =~= partly_drawn(m0, col as int, row as int, n as int, j as int, 0)[c] by {}
            }
        }
        proof {
            assert forall|c: int, r: int|
                in_sprite(col as int, row as int, n as int, c, r)
                    == #[trigger] done(col as int, row as int, n as int, j as int, 0, c, r) by {}
            assert(partly_collides(m0, col as int, row as int, n as int, j as int, 0) == collides(
                m0,
                col as int,
                row as int,
                n as int,
            ));
            assert(self@.gfx =~= drawn_screen(m0, col as int, row as int, n as int)) by {
                assert forall|c: int| 0 <= c < SCREEN_WIDTH implies #[trigger] self@.gfx[c]
                    =~= drawn_screen(m0, col as int, row as int, n as int)[c] by {}
            }
        }
        self.v[15] = if hit { 1 } else { 0 };
        self.draw = true;
        self.pc = self.pc.wrapping_add(2);
    }

    /// Decode `opcode` and carry it out, with `r` as the random byte for
    /// CXNN (no other instruction reads it). Unrecognised words advance the
    /// program counter by 2 and change nothing else.
    pub fn execute_with(&mut self, r: u8)
        ensures
            final(self)@ == execute(old(self)@, r),
    {
        let op = self.opcode;
        assert((op >> 8u16) & 0xFu16 < 16 && (op >> 4u16) & 0xFu16 < 16) by (bit_vector);
        let x = ((op >> 8u16) & 0xFu16) as usize;
        let y = ((op >> 4u16) & 0xFu16) as usize;
        let nn = (op & 0xFFu16) as u8;
        let nnn = op & 0x0FFFu16;
        match op & 0xF000u16 {
            0x0000 => {
                if op == 0x00E0 {
                    self.cls();
                } else if op == 0x00EE {
                    self.rts();
                } else {
                    self.pc = self.pc.wrapping_add(2);
                }
            },
            0x1000 => self.jump(nnn),
            0x2000 => self.call(nnn),
            0x3000 => self.ske(x, nn),
            0x4000 => self.skne(x, nn),
            0x5000 => {
                if op & 0xF00F == 0x5000 {
                    self.skre(x, y);
                } else {
                    self.pc = self.pc.wrapping_add(2);
                }
            },
            0x6000 => self.load(x, nn),
            0x7000 => self.add(x, nn),
            0x8000 => match op & 0x000Fu16 {
                0x0 => self.move_reg(x, y),
                0x1 => self.or(x, y),
                0x2 => self.and(x, y),
                0x3 => self.xor(x, y),
                0x4 => self.addr(x, y),
                0x5 => self.sub(x, y),
                0x6 => self.shr(x, y),
                0x7 => self.subn(x, y),
                0xE => self.shl(x, y),
                _ => {
                    self.pc = self.pc.wrapping_add(2);
                },
            },
            0x9000 => {
                if op & 0xF00F == 0x9000 {
                    self.skrne(x, y);
                } else {
                    self.pc = self.pc.wrapping_add(2);
                }
            },
            0xA000 => self.loadi(nnn),
            0xB000 => self.jump0(nnn),
            0xC000 => self.rand_with(x, nn, r),
            0xD000 => self.draw(x, y, (op & 0x000Fu16) as usize),
            0xE000 => match op & 0x00FFu16 {
                0x9E => self.skpr(x),
                0xA1 => self.skup(x),
                _ => {
                    self.pc = self.pc.wrapping_add(2);
                },
            },
            _ => match op & 0x00FFu16 {
                0x07 => self.moved(x),
                0x0A => self.keyd(x),
                0x15 => self.loadd(x),
                0x18 => self.loads(x),
                0x1E => self.addi(x),
                0x29 => self.ldspr(x),
                0x33 => self.bcd(x),
                0x55 => self.stor(x),
                0x65 => self.read(x),
                _ => {
                    self.pc = self.pc.wrapping_add(2);
                },
            },
        }
    }

    /// Decode `opcode` and carry it out; CXNN draws its random byte here.
    pub fn execute_opcode(&mut self)
        ensures
            exists|r: u8| final(self)@ == execute(old(self)@, r),
            old(self)@.opcode & 0xF000u16 != 0xC000 ==> final(self)@ == execute(old(self)@, 0),
    {
        let r = if self.opcode & 0xF000u16 == 0xC000 {
            random_byte()
        } else {
            0
        };
        self.execute_with(r);
    }

    /// One cycle: fetch the word at the program counter, then execute it.
    pub fn emulate_cycle(&mut self)
        ensures
            exists|r: u8| final(self)@ == step(old(self)@, r),
    {
        self.fetch_opcode();
        let ghost fetched = self@;
        self.execute_opcode();
        proof {
            let r = choose|r: u8| self@ == execute(fetched, r);
            assert(self@ == step(old(self)@, r));
        }
    }

    /// One frame: nine cycles, then the delay and sound timers count down
    /// towards zero, and the sound plays exactly when its timer was nonzero.
    pub fn emulate_frame(&mut self)
        ensures
            exists|rs: Seq<u8>| rs.len() == CYCLES_PER_FRAME && final(self)@ == frame(old(self)@, rs),
    {
        let ghost mut rs: Seq<u8> = Seq::empty();
        let mut c: usize = 0;
        while c < CYCLES_PER_FRAME
            invariant
                c <= CYCLES_PER_FRAME,
                rs.len() == c,
                self@ == run(old(self)@, rs),
            decreases CYCLES_PER_FRAME - c,
        {
            let ghost before = self@;
            self.emulate_cycle();
            proof {
                let r = choose|r: u8| self@ == step(before, r);
                let prev = rs;
                rs = rs.push(r);
                assert(rs.drop_last() =~= prev);
            }
            c = c + 1;
        }
        if self.delay_timer > 0 {
            self.delay_timer = self.delay_timer - 1;
        }
        if self.sound_timer > 0 {
            self.playing_sound = true;
            self.sound_timer = self.sound_timer - 1;
        } else {
            self.playing_sound = false;
        }
    }
}

} // verus!
