use chip8::machine::{decode, Chip8};
use chip8::model::{Fault, Instruction};

fn loaded(program: &[u8]) -> Chip8 {
    let mut m = Chip8::new();
    assert_eq!(m.load(program), Ok(()));
    m
}

fn run(m: &mut Chip8, steps: usize) {
    for _ in 0..steps {
        assert_eq!(m.tick_with(0), Ok(()));
    }
}

#[test]
fn add_program_scenario() {
    let mut m = loaded(&[0x60, 0x0A, 0x61, 0x05, 0x80, 0x14]);
    run(&mut m, 3);
    assert_eq!(m.register(0), 15);
    assert_eq!(m.register(0xF), 0);
    assert_eq!(m.pc(), 0x206);
}

#[test]
fn new_machine_state() {
    let m = Chip8::new();
    assert_eq!(m.pc(), 0x200);
    assert_eq!(m.index(), 0);
    assert_eq!(m.stack_depth(), 0);
    assert_eq!(m.memory(0), 0xF0);
    assert_eq!(m.memory(5), 0x20);
    assert_eq!(m.memory(79), 0x80);
    assert_eq!(m.memory(80), 0);
    assert!(m.get_display().iter().all(|p| !*p));
    assert_eq!(m.get_display().len(), 2048);
}

#[test]
fn add_zero_plus_zero() {
    let mut m = loaded(&[0x60, 0x00, 0x61, 0x00, 0x80, 0x14]);
    run(&mut m, 3);
    assert_eq!(m.register(0), 0);
    assert_eq!(m.register(0xF), 0);
}

#[test]
fn add_carry_wraps() {
    let mut m = loaded(&[0x60, 0xFF, 0x61, 0x01, 0x80, 0x14]);
    run(&mut m, 3);
    assert_eq!(m.register(0), 0);
    assert_eq!(m.register(0xF), 1);
}

#[test]
fn sub_borrow_wraps() {
    let mut m = loaded(&[0x60, 0x00, 0x61, 0x01, 0x80, 0x15]);
    run(&mut m, 3);
    assert_eq!(m.register(0), 255);
    assert_eq!(m.register(0xF), 0);
}

#[test]
fn sub_without_borrow() {
    let mut m = loaded(&[0x60, 0x07, 0x61, 0x07, 0x80, 0x15]);
    run(&mut m, 3);
    assert_eq!(m.register(0), 0);
    assert_eq!(m.register(0xF), 1);
}

#[test]
fn sub_reverse_stores_in_vy() {
    // 8XY7 with X=0, Y=1: V1 := V1 - V0
    let mut m = loaded(&[0x60, 0x01, 0x61, 0x00, 0x80, 0x17]);
    run(&mut m, 3);
    assert_eq!(m.register(1), 255);
    assert_eq!(m.register(0), 1);
    assert_eq!(m.register(0xF), 0);
    let mut m = loaded(&[0x60, 0x02, 0x61, 0x09, 0x80, 0x17]);
    run(&mut m, 3);
    assert_eq!(m.register(1), 7);
    assert_eq!(m.register(0xF), 1);
}

#[test]
fn shift_right_low_bit() {
    let mut m = loaded(&[0x60, 0x01, 0x80, 0x06]);
    run(&mut m, 2);
    assert_eq!(m.register(0), 0);
    assert_eq!(m.register(0xF), 1);
}

#[test]
fn shift_left_high_bit() {
    let mut m = loaded(&[0x60, 0x80, 0x80, 0x0E]);
    run(&mut m, 2);
    assert_eq!(m.register(0), 0);
    assert_eq!(m.register(0xF), 1);
}

#[test]
fn shift_flag_in_flag_register() {
    // VF := 0x01; 8FF6: VF gets the shifted-out bit, written last
    let mut m = loaded(&[0x6F, 0x01, 0x8F, 0xF6]);
    run(&mut m, 2);
    assert_eq!(m.register(0xF), 1);
}

#[test]
fn logic_ops() {
    let mut m = loaded(&[0x60, 0x0C, 0x61, 0x0A, 0x82, 0x00, 0x82, 0x11, 0x83, 0x00, 0x83, 0x12, 0x84, 0x00, 0x84, 0x13]);
    run(&mut m, 8);
    assert_eq!(m.register(2), 0x0E);
    assert_eq!(m.register(3), 0x08);
    assert_eq!(m.register(4), 0x06);
}

#[test]
fn add_immediate_wraps_without_flag() {
    let mut m = loaded(&[0x60, 0xFE, 0x70, 0x05]);
    run(&mut m, 2);
    assert_eq!(m.register(0), 3);
    assert_eq!(m.register(0xF), 0);
}

#[test]
fn draw_twice_restores_and_collides() {
    // I := font glyph 0; draw it at (5, 3) twice
    let mut m = loaded(&[0x60, 0x05, 0x61, 0x03, 0xA0, 0x00, 0xD0, 0x15, 0xD0, 0x15]);
    run(&mut m, 4);
    assert_eq!(m.register(0xF), 0);
    let lit = m.get_display().iter().filter(|p| **p).count();
    assert_eq!(lit, 14);
    assert!(m.get_display()[5 + 64 * 3]);
    assert!(!m.get_display()[6 + 64 * 4]);
    run(&mut m, 1);
    assert_eq!(m.register(0xF), 1);
    assert!(m.get_display().iter().all(|p| !*p));
}

#[test]
fn draw_wraps_per_pixel() {
    // sprite of four 0xFF rows at 0x300; draw at (60, 30)
    let mut program = vec![0x60, 60, 0x61, 30, 0xA3, 0x00, 0xD0, 0x14];
    program.resize(0x100, 0);
    program.extend_from_slice(&[0xFF, 0xFF, 0xFF, 0xFF]);
    let mut m = loaded(&program);
    run(&mut m, 4);
    assert_eq!(m.register(0xF), 0);
    let d = m.get_display();
    let xs = [60usize, 61, 62, 63, 0, 1, 2, 3];
    let ys = [30usize, 31, 0, 1];
    for x in 0..64usize {
        for y in 0..32usize {
            let expected = xs.contains(&x) && ys.contains(&y);
            assert_eq!(d[x + 64 * y], expected, "pixel ({}, {})", x, y);
        }
    }
}

#[test]
fn clear_screen() {
    let mut m = loaded(&[0xA0, 0x00, 0xD0, 0x05, 0x00, 0xE0]);
    run(&mut m, 2);
    assert!(m.get_display().iter().any(|p| *p));
    run(&mut m, 1);
    assert!(m.get_display().iter().all(|p| !*p));
}

#[test]
fn bcd_of_157() {
    let mut m = loaded(&[0x60, 157, 0xA3, 0x00, 0xF0, 0x33]);
    run(&mut m, 3);
    assert_eq!(m.memory(0x300), 1);
    assert_eq!(m.memory(0x301), 5);
    assert_eq!(m.memory(0x302), 7);
    assert_eq!(m.index(), 0x300);
}

#[test]
fn wait_key_blocks_then_reads_lowest() {
    let mut m = loaded(&[0xF3, 0x0A, 0x00, 0x00]);
    run(&mut m, 1);
    assert_eq!(m.pc(), 0x200);
    run(&mut m, 1);
    assert_eq!(m.pc(), 0x200);
    m.key_press(0xB, true);
    m.key_press(0x7, true);
    run(&mut m, 1);
    assert_eq!(m.pc(), 0x202);
    assert_eq!(m.register(3), 7);
}

#[test]
fn key_skips() {
    // V0 := 5; EX9E skips when key 5 is down; EXA1 skips when it is up
    let mut m = loaded(&[0x60, 0x05, 0xE0, 0x9E, 0x00, 0x00, 0xE0, 0xA1]);
    m.key_press(5, true);
    run(&mut m, 2);
    assert_eq!(m.pc(), 0x206);
    run(&mut m, 1);
    assert_eq!(m.pc(), 0x208);
    m.key_press(5, false);
    let mut m2 = loaded(&[0x60, 0x05, 0xE0, 0xA1]);
    run(&mut m2, 2);
    assert_eq!(m2.pc(), 0x206);
}

#[test]
fn key_above_f_is_never_pressed() {
    let mut m = loaded(&[0x60, 0x20, 0xE0, 0xA1]);
    for k in 0..16 {
        m.key_press(k, true);
    }
    run(&mut m, 2);
    assert_eq!(m.pc(), 0x206);
}

#[test]
fn skips_on_immediates_and_registers() {
    let mut m = loaded(&[0x60, 0x11, 0x30, 0x11]);
    run(&mut m, 2);
    assert_eq!(m.pc(), 0x206);
    let mut m = loaded(&[0x60, 0x11, 0x40, 0x11]);
    run(&mut m, 2);
    assert_eq!(m.pc(), 0x204);
    let mut m = loaded(&[0x60, 0x11, 0x61, 0x11, 0x50, 0x10]);
    run(&mut m, 3);
    assert_eq!(m.pc(), 0x208);
    let mut m = loaded(&[0x60, 0x11, 0x61, 0x12, 0x90, 0x10]);
    run(&mut m, 3);
    assert_eq!(m.pc(), 0x208);
}

#[test]
fn call_and_return() {
    // 0x200: call 0x206; 0x206: return
    let mut m = loaded(&[0x22, 0x06, 0x00, 0x00, 0x00, 0x00, 0x00, 0xEE]);
    run(&mut m, 1);
    assert_eq!(m.pc(), 0x206);
    assert_eq!(m.stack_depth(), 1);
    run(&mut m, 1);
    assert_eq!(m.pc(), 0x202);
    assert_eq!(m.stack_depth(), 0);
}

#[test]
fn return_on_empty_stack_faults() {
    let mut m = loaded(&[0x00, 0xEE]);
    assert_eq!(m.tick_with(0), Err(Fault::StackUnderflow));
    assert_eq!(m.pc(), 0x200);
}

#[test]
fn seventeenth_call_faults() {
    // 0x200: call 0x200, forever
    let mut m = loaded(&[0x22, 0x00]);
    run(&mut m, 16);
    assert_eq!(m.stack_depth(), 16);
    assert_eq!(m.tick_with(0), Err(Fault::StackOverflow));
    assert_eq!(m.stack_depth(), 16);
    assert_eq!(m.pc(), 0x200);
}

#[test]
fn unknown_opcode_faults() {
    let mut m = loaded(&[0x5A, 0xB1]);
    assert_eq!(m.tick_with(0), Err(Fault::UnknownOpcode(0x5AB1)));
    assert_eq!(m.pc(), 0x200);
    let mut m = loaded(&[0xFF, 0xFF]);
    assert_eq!(m.tick(), Err(Fault::UnknownOpcode(0xFFFF)));
}

#[test]
fn load_overflow_is_refused() {
    let mut m = Chip8::new();
    let big = vec![0xAAu8; 3585];
    assert_eq!(m.load(&big), Err(Fault::LoadOverflow));
    assert_eq!(m.memory(0x200), 0);
    let fits = vec![0xAAu8; 3584];
    assert_eq!(m.load(&fits), Ok(()));
    assert_eq!(m.memory(0xFFF), 0xAA);
    assert_eq!(m.memory(0x1FF), 0);
}

#[test]
fn load_empty_program() {
    let mut m = Chip8::new();
    assert_eq!(m.load(&[]), Ok(()));
    assert_eq!(m.memory(0x200), 0);
}

#[test]
fn reset_then_load_matches_new() {
    let program = [0x60, 0x0A, 0x61, 0x05, 0x80, 0x14, 0xA0, 0x00, 0xD0, 0x15, 0xF0, 0x15, 0x12, 0x00];
    let mut a = loaded(&program);
    run(&mut a, 7);
    a.key_press(3, true);
    a.tick_timers();
    a.reset();
    assert_eq!(a.load(&program), Ok(()));
    let mut b = loaded(&program);
    for _ in 0..20 {
        assert_eq!(a.tick_with(0x5A), b.tick_with(0x5A));
        assert_eq!(a.pc(), b.pc());
        assert_eq!(a.index(), b.index());
        assert_eq!(a.delay_timer(), b.delay_timer());
        for r in 0..16 {
            assert_eq!(a.register(r), b.register(r));
        }
        assert_eq!(a.get_display(), b.get_display());
    }
}

#[test]
fn timers_count_down_to_zero() {
    let mut m = loaded(&[0x60, 0x02, 0xF0, 0x15, 0xF0, 0x18, 0xF1, 0x07]);
    run(&mut m, 4);
    assert_eq!(m.register(1), 2);
    assert_eq!(m.delay_timer(), 2);
    assert_eq!(m.sound_timer(), 2);
    m.tick_timers();
    assert_eq!(m.delay_timer(), 1);
    m.tick_timers();
    m.tick_timers();
    assert_eq!(m.delay_timer(), 0);
    assert_eq!(m.sound_timer(), 0);
}

#[test]
fn random_is_masked() {
    let mut m = loaded(&[0xC0, 0x0F, 0xC1, 0x00]);
    assert_eq!(m.tick_with(0xAB), Ok(()));
    assert_eq!(m.register(0), 0x0B);
    assert_eq!(m.tick(), Ok(()));
    assert_eq!(m.register(1), 0);
}

#[test]
fn random_stays_under_mask() {
    for _ in 0..50 {
        let mut m = loaded(&[0xC0, 0x07]);
        assert_eq!(m.tick(), Ok(()));
        assert!(m.register(0) <= 7);
    }
}

#[test]
fn index_ops() {
    // I := 0xFFF; I += V0 (0x03) wraps at 16 bits only
    let mut m = loaded(&[0xAF, 0xFF, 0x60, 0x03, 0xF0, 0x1E, 0x61, 0x0B, 0xF1, 0x29]);
    run(&mut m, 3);
    assert_eq!(m.index(), 0x1002);
    run(&mut m, 2);
    assert_eq!(m.index(), 55);
}

#[test]
fn jumps() {
    let mut m = loaded(&[0x13, 0x45]);
    run(&mut m, 1);
    assert_eq!(m.pc(), 0x345);
    let mut m = loaded(&[0x60, 0x10, 0xB3, 0x00]);
    run(&mut m, 2);
    assert_eq!(m.pc(), 0x310);
}

#[test]
fn store_and_load_registers() {
    let mut m = loaded(&[0x60, 0x01, 0x61, 0x02, 0x62, 0x03, 0xA4, 0x00, 0xF1, 0x55, 0x60, 0x00, 0x61, 0x00, 0xA4, 0x01, 0xF1, 0x65]);
    run(&mut m, 5);
    assert_eq!(m.memory(0x400), 1);
    assert_eq!(m.memory(0x401), 2);
    assert_eq!(m.memory(0x402), 0);
    assert_eq!(m.index(), 0x400);
    run(&mut m, 4);
    assert_eq!(m.register(0), 2);
    assert_eq!(m.register(1), 0);
    assert_eq!(m.register(2), 3);
}

#[test]
fn nop_advances() {
    let mut m = loaded(&[0x00, 0x00]);
    run(&mut m, 1);
    assert_eq!(m.pc(), 0x202);
}

#[test]
fn decode_examples() {
    assert_eq!(decode(0x0000), Some(Instruction::Nop));
    assert_eq!(decode(0xD12F), Some(Instruction::Draw { x: 1, y: 2, n: 0xF }));
    assert_eq!(decode(0x8AB7), Some(Instruction::SubRev { x: 0xA, y: 0xB }));
    assert_eq!(decode(0xB123), Some(Instruction::JumpOffset { addr: 0x123 }));
    assert_eq!(decode(0x0123), None);
    assert_eq!(decode(0x8008), None);
    assert_eq!(decode(0xE09F), None);
}
