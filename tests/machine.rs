use chip8::Chip8;

fn with_program(words: &[u16]) -> Chip8 {
    let mut bytes: Vec<u8> = Vec::new();
    for w in words {
        bytes.push((w >> 8) as u8);
        bytes.push((w & 0xFF) as u8);
    }
    let mut m = Chip8::new();
    m.load_fonts();
    m.load_rom(bytes);
    m
}

fn run_cycles(m: &mut Chip8, n: usize) {
    for _ in 0..n {
        m.emulate_cycle();
    }
}

#[test]
fn new_machine_is_zeroed() {
    let m = Chip8::new();
    assert_eq!(m.program_counter(), 0x200);
    assert_eq!(m.index_register(), 0);
    for x in 0..16 {
        assert_eq!(m.register(x), 0);
    }
    assert_eq!(m.memory_at(0), 0);
    assert_eq!(m.memory_at(4095), 0);
    assert_eq!(m.stack_depth(), 0);
    assert!(!m.get_draw());
    assert!(!m.is_playing_sound());
    assert!(m.get_gfx().iter().all(|col| col.iter().all(|p| *p == 0)));
}

#[test]
fn fonts_fill_first_eighty_bytes() {
    let mut m = Chip8::new();
    m.load_fonts();
    assert_eq!(m.memory_at(0), 0xF0);
    assert_eq!(m.memory_at(5), 0x20);
    assert_eq!(m.memory_at(50), 0xF0);
    assert_eq!(m.memory_at(75), 0xF0);
    assert_eq!(m.memory_at(79), 0x80);
    assert_eq!(m.memory_at(80), 0);
}

#[test]
fn rom_is_copied_from_0x200() {
    let mut m = Chip8::new();
    m.load_rom(vec![1, 2, 3]);
    assert_eq!(m.memory_at(0x1FF), 0);
    assert_eq!(m.memory_at(0x200), 1);
    assert_eq!(m.memory_at(0x201), 2);
    assert_eq!(m.memory_at(0x202), 3);
    assert_eq!(m.memory_at(0x203), 0);
    m.load_rom(Vec::new());
    assert_eq!(m.memory_at(0x200), 1);
}

#[test]
fn plain_instructions_advance_by_two() {
    let mut m = Chip8::new();
    m.load(3, 9);
    assert_eq!(m.program_counter(), 0x202);
    m.loadi(0x300);
    assert_eq!(m.program_counter(), 0x204);
    m.addr(3, 3);
    assert_eq!(m.program_counter(), 0x206);
    m.draw(0, 0, 1);
    assert_eq!(m.program_counter(), 0x208);
    m.cls();
    assert_eq!(m.program_counter(), 0x20A);
    m.bcd(3);
    assert_eq!(m.program_counter(), 0x20C);
}

#[test]
fn skips_advance_by_four_or_two() {
    let mut m = Chip8::new();
    m.load(1, 7);
    let pc = m.program_counter();
    m.ske(1, 7);
    assert_eq!(m.program_counter(), pc + 4);
    m.ske(1, 8);
    assert_eq!(m.program_counter(), pc + 6);
    m.skne(1, 8);
    assert_eq!(m.program_counter(), pc + 10);
    m.skne(1, 7);
    assert_eq!(m.program_counter(), pc + 12);
    m.skre(1, 1);
    assert_eq!(m.program_counter(), pc + 16);
    m.skrne(1, 2);
    assert_eq!(m.program_counter(), pc + 20);
    m.skrne(1, 1);
    assert_eq!(m.program_counter(), pc + 22);
}

#[test]
fn key_skips_follow_key_state() {
    let mut m = Chip8::new();
    m.load(2, 0x1B);
    m.set_key(0xB, true);
    let pc = m.program_counter();
    m.skpr(2);
    assert_eq!(m.program_counter(), pc + 4);
    m.skup(2);
    assert_eq!(m.program_counter(), pc + 6);
    m.set_key(0xB, false);
    m.skup(2);
    assert_eq!(m.program_counter(), pc + 10);
}

fn pair(a: u8, b: u8) -> Chip8 {
    let mut m = Chip8::new();
    m.load(1, a);
    m.load(2, b);
    m
}

#[test]
fn add_with_carry_boundaries() {
    for (a, b, sum, carry) in [(0u8, 0u8, 0u8, 0u8), (255, 255, 254, 1), (255, 0, 255, 0), (0, 255, 255, 0), (200, 100, 44, 1)] {
        let mut m = pair(a, b);
        m.addr(1, 2);
        assert_eq!(m.register(1), sum);
        assert_eq!(m.register(15), carry);
        assert_eq!(m.register(2), b);
    }
}

#[test]
fn subtract_boundaries() {
    for (a, b, diff, flag) in [(0u8, 0u8, 0u8, 1u8), (255, 255, 0, 1), (255, 0, 255, 1), (0, 255, 1, 0)] {
        let mut m = pair(a, b);
        m.sub(1, 2);
        assert_eq!(m.register(1), diff);
        assert_eq!(m.register(15), flag);
    }
}

#[test]
fn reverse_subtract_boundaries() {
    for (a, b, diff, flag) in [(0u8, 0u8, 0u8, 1u8), (255, 255, 0, 1), (255, 0, 1, 0), (0, 255, 255, 1)] {
        let mut m = pair(a, b);
        m.subn(1, 2);
        assert_eq!(m.register(1), diff);
        assert_eq!(m.register(15), flag);
    }
}

#[test]
fn shifts_take_from_vy() {
    for (b, right, low, left, high) in [(0u8, 0u8, 0u8, 0u8, 0u8), (255, 127, 1, 254, 1), (0x81, 0x40, 1, 0x02, 1), (0x42, 0x21, 0, 0x84, 0)] {
        let mut m = pair(9, b);
        m.shr(1, 2);
        assert_eq!(m.register(1), right);
        assert_eq!(m.register(15), low);
        assert_eq!(m.register(2), b);
        let mut m = pair(9, b);
        m.shl(1, 2);
        assert_eq!(m.register(1), left);
        assert_eq!(m.register(15), high);
        assert_eq!(m.register(2), b);
    }
}

#[test]
fn add_immediate_wraps_and_leaves_vf() {
    let mut m = pair(250, 0);
    m.load(15, 7);
    m.add(1, 10);
    assert_eq!(m.register(1), 4);
    assert_eq!(m.register(15), 7);
}

#[test]
fn flag_wins_when_vx_is_vf() {
    let mut m = Chip8::new();
    m.load(15, 200);
    m.load(1, 100);
    m.addr(15, 1);
    assert_eq!(m.register(15), 1);
}

#[test]
fn bitwise_ops() {
    let mut m = pair(0b1100, 0b1010);
    m.or(1, 2);
    assert_eq!(m.register(1), 0b1110);
    let mut m = pair(0b1100, 0b1010);
    m.and(1, 2);
    assert_eq!(m.register(1), 0b1000);
    let mut m = pair(0b1100, 0b1010);
    m.xor(1, 2);
    assert_eq!(m.register(1), 0b0110);
    let mut m = pair(0b1100, 0b1010);
    m.move_reg(1, 2);
    assert_eq!(m.register(1), 0b1010);
}

#[test]
fn glyph_zero_draws_and_erases() {
    let mut m = Chip8::new();
    m.load_fonts();
    m.cls();
    m.load(0, 0);
    m.ldspr(0);
    assert_eq!(m.index_register(), 0);
    m.draw(0, 0, 5);
    let glyph = [0xF0u8, 0x90, 0x90, 0x90, 0xF0];
    for c in 0..64 {
        for r in 0..32 {
            let want = if c < 8 && r < 5 { (glyph[r] >> (7 - c)) & 1 } else { 0 };
            assert_eq!(m.get_gfx()[c][r], want, "pixel ({}, {})", c, r);
        }
    }
    assert_eq!(m.register(15), 0);
    assert!(m.get_draw());
    m.draw(0, 0, 5);
    assert_eq!(m.register(15), 1);
    assert!(m.get_gfx().iter().all(|col| col.iter().all(|p| *p == 0)));
}

#[test]
fn sprite_clips_at_right_edge() {
    let mut m = Chip8::new();
    m.loadi(0x300);
    m.load(0, 0xFF);
    m.stor(0);
    m.loadi(0x300);
    m.load(1, 60);
    m.load(2, 3);
    m.draw(1, 2, 1);
    for c in 0..64 {
        assert_eq!(m.get_gfx()[c][3], if c >= 60 { 1 } else { 0 }, "column {}", c);
    }
    assert_eq!(m.register(15), 0);
}

#[test]
fn sprite_clips_at_bottom_and_wraps_origin() {
    let mut m = Chip8::new();
    m.load_fonts();
    m.loadi(0);
    // 94 mod 64 = 30 and 62 mod 32 = 30: two rows fit.
    m.load(1, 94);
    m.load(2, 62);
    m.draw(1, 2, 5);
    assert_eq!(m.get_gfx()[30][30], 1);
    assert_eq!(m.get_gfx()[33][31], 1);
    assert_eq!(m.get_gfx()[31][31], 0);
    assert_eq!(m.get_gfx()[30][0], 0);
    assert_eq!(m.get_gfx()[30][1], 0);
}

#[test]
fn key_wait_blocks_until_pressed() {
    let mut m = with_program(&[0xF30A, 0x1202]);
    for _ in 0..3 {
        m.emulate_frame();
        assert_eq!(m.program_counter(), 0x200);
        assert_eq!(m.register(3), 0);
    }
    m.set_key(7, true);
    m.set_key(9, true);
    m.emulate_frame();
    assert_eq!(m.register(3), 7);
    assert_eq!(m.program_counter(), 0x202);
}

#[test]
fn key_wait_sees_key_f() {
    let mut m = Chip8::new();
    m.set_key(0xF, true);
    m.keyd(4);
    assert_eq!(m.register(4), 0xF);
    assert_eq!(m.program_counter(), 0x202);
}

#[test]
fn store_then_load_round_trip() {
    let mut m = Chip8::new();
    let vals = [3u8, 1, 4, 1, 5, 9];
    for (x, v) in vals.iter().enumerate() {
        m.load(x, *v);
    }
    m.loadi(0x400);
    m.stor(5);
    assert_eq!(m.index_register(), 0x406);
    for x in 0..6 {
        assert_eq!(m.memory_at(0x400 + x), vals[x]);
        m.load(x, 0);
    }
    m.loadi(0x400);
    m.read(5);
    assert_eq!(m.index_register(), 0x406);
    for x in 0..6 {
        assert_eq!(m.register(x), vals[x]);
    }
}

#[test]
fn bcd_of_205() {
    let mut m = Chip8::new();
    m.load(6, 205);
    m.loadi(0x300);
    m.bcd(6);
    assert_eq!(m.memory_at(0x300), 2);
    assert_eq!(m.memory_at(0x301), 0);
    assert_eq!(m.memory_at(0x302), 5);
}

#[test]
fn bcd_wraps_at_end_of_memory() {
    let mut m = Chip8::new();
    m.load(6, 137);
    m.loadi(0xFFF);
    m.bcd(6);
    assert_eq!(m.memory_at(0xFFF), 1);
    assert_eq!(m.memory_at(0), 3);
    assert_eq!(m.memory_at(1), 7);
}

#[test]
fn program_load_add_unknown() {
    let mut m = with_program(&[0x6005, 0x7003, 0x0000]);
    let start = m.program_counter();
    run_cycles(&mut m, 3);
    assert_eq!(m.register(0), 8);
    assert_eq!(m.program_counter(), start + 6);
}

#[test]
fn unknown_opcodes_only_advance() {
    let mut m = with_program(&[0x5121, 0x8128, 0xE1FF, 0xF1FF, 0x0123]);
    m.load(1, 4);
    m.jump(0x200);
    run_cycles(&mut m, 5);
    assert_eq!(m.program_counter(), 0x20A);
    assert_eq!(m.register(1), 4);
    assert_eq!(m.register(15), 0);
}

#[test]
fn call_and_return() {
    let mut m = with_program(&[0x2206, 0x6101, 0x1204, 0x6102, 0x00EE]);
    m.emulate_cycle();
    assert_eq!(m.program_counter(), 0x206);
    assert_eq!(m.stack_depth(), 1);
    m.emulate_cycle();
    assert_eq!(m.register(1), 2);
    m.emulate_cycle();
    assert_eq!(m.program_counter(), 0x202);
    assert_eq!(m.stack_depth(), 0);
    m.emulate_cycle();
    assert_eq!(m.register(1), 1);
}

#[test]
fn return_on_empty_stack_advances() {
    let mut m = Chip8::new();
    m.rts();
    assert_eq!(m.program_counter(), 0x202);
    assert_eq!(m.stack_depth(), 0);
}

#[test]
fn jump_with_offset() {
    let mut m = Chip8::new();
    m.load(0, 0x10);
    m.jump0(0x300);
    assert_eq!(m.program_counter(), 0x310);
    m.jump(0x250);
    assert_eq!(m.program_counter(), 0x250);
}

#[test]
fn index_ops() {
    let mut m = Chip8::new();
    m.load(4, 0xF);
    m.ldspr(4);
    assert_eq!(m.index_register(), 75);
    m.loadi(0xFFFF);
    m.load(5, 2);
    m.addi(5);
    assert_eq!(m.index_register(), 1);
}

#[test]
fn masked_random() {
    let mut m = Chip8::new();
    m.rand_with(2, 0x0F, 0xAB);
    assert_eq!(m.register(2), 0x0B);
    for _ in 0..20 {
        m.rand(3, 0x30);
        assert_eq!(m.register(3) & !0x30, 0);
    }
}

#[test]
fn execute_with_decodes_random() {
    let mut m = with_program(&[0xC7F0]);
    m.fetch_opcode();
    m.execute_with(0x5A);
    assert_eq!(m.register(7), 0x50);
    assert_eq!(m.program_counter(), 0x202);
}

#[test]
fn timers_count_down_per_frame() {
    let mut m = with_program(&[0x6102, 0xF115, 0xF118, 0x1206]);
    m.emulate_frame();
    assert_eq!(m.delay_timer(), 1);
    assert_eq!(m.sound_timer(), 1);
    assert!(m.is_playing_sound());
    m.emulate_frame();
    assert_eq!(m.delay_timer(), 0);
    assert_eq!(m.sound_timer(), 0);
    assert!(m.is_playing_sound());
    m.emulate_frame();
    assert_eq!(m.delay_timer(), 0);
    assert!(!m.is_playing_sound());
}

#[test]
fn delay_timer_read() {
    let mut m = Chip8::new();
    m.load(1, 42);
    m.loadd(1);
    m.moved(2);
    assert_eq!(m.register(2), 42);
    m.loads(1);
    assert_eq!(m.sound_timer(), 42);
}

#[test]
fn redraw_flag_round_trip() {
    let mut m = Chip8::new();
    m.cls();
    assert!(m.get_draw());
    m.set_draw(false);
    assert!(!m.get_draw());
}
