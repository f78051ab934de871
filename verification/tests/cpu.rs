use gameboy_emu::mmu::MMU;
use gameboy_emu::sm83cpu::{emulate_sm83_op, shift_nn, step_is_defined, Flags, StateSM83, StepEvent};

/// A core with `program` at address `at` and the program counter there.
fn with_program(at: usize, program: &[u8]) -> StateSM83 {
    let mut s = StateSM83::new();
    for (i, b) in program.iter().enumerate() {
        s.memory[at + i] = *b;
    }
    s.pc = at as u16;
    s
}

fn run(s: &mut StateSM83, mmu: &mut MMU) -> StepEvent {
    assert!(step_is_defined(s));
    emulate_sm83_op(s, mmu)
}

#[test]
fn new_state_is_zeroed_with_flags_set() {
    let s = StateSM83::new();
    assert_eq!((s.a, s.b, s.c, s.d, s.e, s.h, s.l), (0, 0, 0, 0, 0, 0, 0));
    assert_eq!(s.sp, 0);
    assert_eq!(s.pc, 0);
    assert!(s.memory.iter().all(|b| *b == 0));
    assert_eq!(s.flags, Flags { z: true, c: true, n: true, h: true });
    assert!(s.int_enable);
}

#[test]
fn flags_new_sets_all() {
    let f = Flags::new();
    assert!(f.z && f.c && f.n && f.h);
}

#[test]
fn shift_nn_places_high_then_low() {
    assert_eq!(shift_nn(0x12, 0x34), 0x1234);
    assert_eq!(shift_nn(0xff, 0x00), 0xff00);
    assert_eq!(shift_nn(0x00, 0xff), 0x00ff);
}

#[test]
fn ld_immediate_and_nop() {
    let mut mmu = MMU::new();
    let mut s = with_program(0x200, &[0x00, 0x3e, 0x42, 0x06, 0x07]);
    assert_eq!(run(&mut s, &mut mmu), StepEvent::Continue);
    assert_eq!(s.pc, 0x201);
    run(&mut s, &mut mmu);
    assert_eq!(s.a, 0x42);
    assert_eq!(s.pc, 0x203);
    run(&mut s, &mut mmu);
    assert_eq!(s.b, 0x07);
    assert_eq!(s.pc, 0x205);
}

#[test]
fn ld_wide_immediates() {
    let mut mmu = MMU::new();
    let mut s = with_program(0x200, &[0x01, 0x34, 0x12, 0x11, 0x78, 0x56, 0x21, 0xbc, 0x9a, 0x31, 0xfe, 0xff]);
    for _ in 0..4 {
        run(&mut s, &mut mmu);
    }
    assert_eq!((s.b, s.c), (0x12, 0x34));
    assert_eq!((s.d, s.e), (0x56, 0x78));
    assert_eq!((s.h, s.l), (0x9a, 0xbc));
    assert_eq!(s.sp, 0xfffe);
    assert_eq!(s.pc, 0x20c);
}

#[test]
fn inc_sets_half_carry_and_keeps_carry() {
    let mut mmu = MMU::new();
    let mut s = with_program(0x200, &[0x04]);
    s.b = 0x0f;
    s.flags = Flags { z: true, c: false, n: true, h: false };
    run(&mut s, &mut mmu);
    assert_eq!(s.b, 0x10);
    assert_eq!(s.flags, Flags { z: false, c: false, n: false, h: true });
}

#[test]
fn inc_wraps_to_zero() {
    let mut mmu = MMU::new();
    let mut s = with_program(0x200, &[0x0c]);
    s.c = 0xff;
    run(&mut s, &mut mmu);
    assert_eq!(s.c, 0);
    assert_eq!(s.flags, Flags { z: true, c: true, n: false, h: true });
}

#[test]
fn dec_sets_half_borrow_and_zero() {
    let mut mmu = MMU::new();
    let mut s = with_program(0x200, &[0x15, 0x1d]);
    s.d = 0x10;
    s.e = 0x01;
    s.flags = Flags { z: true, c: false, n: false, h: false };
    run(&mut s, &mut mmu);
    assert_eq!(s.d, 0x0f);
    assert_eq!(s.flags, Flags { z: false, c: false, n: true, h: true });
    run(&mut s, &mut mmu);
    assert_eq!(s.e, 0x00);
    assert_eq!(s.flags, Flags { z: true, c: false, n: true, h: false });
}

#[test]
fn dec_of_zero_wraps() {
    let mut mmu = MMU::new();
    let mut s = with_program(0x200, &[0x3d]);
    s.a = 0;
    run(&mut s, &mut mmu);
    assert_eq!(s.a, 0xff);
    assert!(s.flags.h && s.flags.n && !s.flags.z);
}

#[test]
fn inc_then_dec_restores_register() {
    let mut mmu = MMU::new();
    for v in [0u8, 1, 0x0f, 0x10, 0x7f, 0xff] {
        let mut s = with_program(0x200, &[0x24, 0x25]);
        s.h = v;
        run(&mut s, &mut mmu);
        run(&mut s, &mut mmu);
        assert_eq!(s.h, v);
    }
}

#[test]
fn inc_and_dec_memory_through_hl() {
    let mut mmu = MMU::new();
    let mut s = with_program(0x200, &[0x34, 0x35]);
    s.h = 0xc0;
    s.l = 0x10;
    s.memory[0xc010] = 0x41;
    assert_eq!(run(&mut s, &mut mmu), StepEvent::Continue);
    assert_eq!(s.memory[0xc010], 0x42);
    assert_eq!(run(&mut s, &mut mmu), StepEvent::DecMemoryNotice);
    assert_eq!(s.memory[0xc010], 0x41);
}

#[test]
fn add_sets_carry_and_clears_subtract() {
    let mut mmu = MMU::new();
    let mut s = with_program(0x200, &[0x80]);
    s.a = 0xf8;
    s.b = 0x18;
    run(&mut s, &mut mmu);
    assert_eq!(s.a, 0x10);
    assert_eq!(s.flags, Flags { z: false, c: true, n: false, h: true });
}

#[test]
fn add_to_zero_sets_zero() {
    let mut mmu = MMU::new();
    let mut s = with_program(0x200, &[0x87]);
    s.a = 0x80;
    run(&mut s, &mut mmu);
    assert_eq!(s.a, 0);
    assert_eq!(s.flags, Flags { z: true, c: true, n: false, h: false });
}

#[test]
fn adc_adds_the_carry() {
    let mut mmu = MMU::new();
    let mut s = with_program(0x200, &[0x89]);
    s.a = 0x0e;
    s.c = 0x01;
    s.flags.c = true;
    run(&mut s, &mut mmu);
    assert_eq!(s.a, 0x10);
    assert_eq!(s.flags, Flags { z: false, c: false, n: false, h: true });
    let mut s = with_program(0x200, &[0x89]);
    s.a = 0xff;
    s.c = 0x00;
    s.flags.c = true;
    run(&mut s, &mut mmu);
    assert_eq!(s.a, 0x00);
    assert_eq!(s.flags, Flags { z: true, c: true, n: false, h: true });
}

#[test]
fn adc_a_a_doubles_a() {
    let mut mmu = MMU::new();
    let mut s = with_program(0x200, &[0x8f]);
    s.a = 0x10;
    s.b = 0x05;
    s.flags.c = true;
    run(&mut s, &mut mmu);
    assert_eq!(s.a, 0x21);
}

#[test]
fn sub_borrows() {
    let mut mmu = MMU::new();
    let mut s = with_program(0x200, &[0x90, 0x97]);
    s.a = 0x10;
    s.b = 0x21;
    run(&mut s, &mut mmu);
    assert_eq!(s.a, 0xef);
    assert_eq!(s.flags, Flags { z: false, c: true, n: true, h: true });
    run(&mut s, &mut mmu);
    assert_eq!(s.a, 0);
    assert_eq!(s.flags, Flags { z: true, c: false, n: true, h: false });
}

#[test]
fn sbc_subtracts_the_carry() {
    let mut mmu = MMU::new();
    let mut s = with_program(0x200, &[0x99]);
    s.a = 0x10;
    s.c = 0x01;
    s.flags.c = true;
    run(&mut s, &mut mmu);
    assert_eq!(s.a, 0x0e);
    assert_eq!(s.flags, Flags { z: false, c: false, n: true, h: true });
    let mut s = with_program(0x200, &[0x99]);
    s.a = 0x10;
    s.c = 0x10;
    s.flags.c = true;
    run(&mut s, &mut mmu);
    assert_eq!(s.a, 0xff);
    assert_eq!(s.flags, Flags { z: false, c: true, n: true, h: true });
    let mut s = with_program(0x200, &[0x99]);
    s.a = 0x10;
    s.c = 0x0f;
    s.flags.c = true;
    run(&mut s, &mut mmu);
    assert_eq!(s.a, 0x00);
    assert_eq!(s.flags, Flags { z: true, c: false, n: true, h: true });
}

#[test]
fn logic_operations() {
    let mut mmu = MMU::new();
    let mut s = with_program(0x200, &[0xa0, 0xa9, 0xb2, 0xaf]);
    s.a = 0b1100_1100;
    s.b = 0b1010_1010;
    s.c = 0b1111_0000;
    s.d = 0b0000_0011;
    run(&mut s, &mut mmu);
    assert_eq!(s.a, 0b1000_1000);
    assert_eq!(s.flags, Flags { z: false, c: false, n: false, h: true });
    run(&mut s, &mut mmu);
    assert_eq!(s.a, 0b0111_1000);
    assert_eq!(s.flags, Flags { z: false, c: false, n: false, h: false });
    run(&mut s, &mut mmu);
    assert_eq!(s.a, 0b0111_1011);
    run(&mut s, &mut mmu);
    assert_eq!(s.a, 0);
    assert_eq!(s.flags, Flags { z: true, c: false, n: false, h: false });
}

#[test]
fn compare_changes_only_flags() {
    let mut mmu = MMU::new();
    let mut s = with_program(0x200, &[0xb8, 0xfe, 0x30, 0xfe, 0x20]);
    s.a = 0x20;
    s.b = 0x21;
    run(&mut s, &mut mmu);
    assert_eq!((s.a, s.b), (0x20, 0x21));
    assert_eq!(s.flags, Flags { z: false, c: true, n: true, h: true });
    assert_eq!(s.pc, 0x201);
    run(&mut s, &mut mmu);
    assert_eq!(s.a, 0x20);
    assert!(s.flags.c && !s.flags.z);
    assert_eq!(s.pc, 0x203);
    run(&mut s, &mut mmu);
    assert!(s.flags.z && !s.flags.c && !s.flags.h && s.flags.n);
    assert_eq!(s.pc, 0x205);
}

#[test]
fn register_to_register_loads() {
    let mut mmu = MMU::new();
    let mut s = with_program(0x200, &[0x41, 0x78, 0x46, 0x70]);
    s.c = 0x99;
    s.h = 0xc0;
    s.l = 0x00;
    s.memory[0xc000] = 0x55;
    run(&mut s, &mut mmu);
    assert_eq!(s.b, 0x99);
    run(&mut s, &mut mmu);
    assert_eq!(s.a, 0x99);
    run(&mut s, &mut mmu);
    assert_eq!(s.b, 0x55);
    s.b = 0x66;
    run(&mut s, &mut mmu);
    assert_eq!(s.memory[0xc000], 0x66);
}

#[test]
fn halt_and_stop_are_reported() {
    let mut mmu = MMU::new();
    let mut s = with_program(0x200, &[0x76, 0x10, 0x00]);
    assert_eq!(run(&mut s, &mut mmu), StepEvent::HaltNotice);
    assert_eq!(s.pc, 0x201);
    assert_eq!(run(&mut s, &mut mmu), StepEvent::StopNotice);
    assert_eq!(s.pc, 0x203);
}

#[test]
fn rla_rotates_through_carry() {
    let mut mmu = MMU::new();
    let mut s = with_program(0x200, &[0x17, 0x17]);
    s.a = 0x80;
    s.flags = Flags { z: true, c: false, n: true, h: true };
    run(&mut s, &mut mmu);
    assert_eq!(s.a, 0x00);
    assert_eq!(s.flags, Flags { z: false, c: true, n: false, h: false });
    run(&mut s, &mut mmu);
    assert_eq!(s.a, 0x01);
    assert!(!s.flags.c);
}

#[test]
fn relative_jumps() {
    let mut mmu = MMU::new();
    let mut s = with_program(0x200, &[0x18, 0x05]);
    run(&mut s, &mut mmu);
    assert_eq!(s.pc, 0x207);
    let mut s = with_program(0x200, &[0x18, 0xfe]);
    run(&mut s, &mut mmu);
    assert_eq!(s.pc, 0x200);
    let mut s = with_program(0x200, &[0x20, 0x10]);
    s.flags.z = true;
    run(&mut s, &mut mmu);
    assert_eq!(s.pc, 0x202);
    let mut s = with_program(0x200, &[0x20, 0x10]);
    s.flags.z = false;
    run(&mut s, &mut mmu);
    assert_eq!(s.pc, 0x212);
    let mut s = with_program(0x200, &[0x28, 0x80]);
    s.flags.z = true;
    run(&mut s, &mut mmu);
    assert_eq!(s.pc, 0x182);
}

#[test]
fn relative_jump_wraps_around() {
    let mut mmu = MMU::new();
    let mut s = with_program(0x0000, &[0x18, 0xf0]);
    run(&mut s, &mut mmu);
    assert_eq!(s.pc, 0xfff2);
}

#[test]
fn absolute_jumps() {
    let mut mmu = MMU::new();
    let mut s = with_program(0x200, &[0xc3, 0x34, 0x12]);
    run(&mut s, &mut mmu);
    assert_eq!(s.pc, 0x1234);
    let mut s = with_program(0x200, &[0xc2, 0x34, 0x12]);
    s.flags.z = false;
    run(&mut s, &mut mmu);
    assert_eq!(s.pc, 0x1234);
    let mut s = with_program(0x200, &[0xc2, 0x34, 0x12]);
    s.flags.z = true;
    run(&mut s, &mut mmu);
    assert_eq!(s.pc, 0x203);
}

#[test]
fn call_then_ret_comes_back() {
    let mut mmu = MMU::new();
    let mut s = with_program(0x200, &[0xcd, 0x00, 0x30]);
    s.memory[0x3000] = 0xc9;
    s.sp = 0xfffe;
    s.a = 0x11;
    run(&mut s, &mut mmu);
    assert_eq!(s.pc, 0x3000);
    assert_eq!(s.sp, 0xfffc);
    assert_eq!(s.memory[0xfffc], 0x03);
    assert_eq!(s.memory[0xfffd], 0x02);
    run(&mut s, &mut mmu);
    assert_eq!(s.pc, 0x203);
    assert_eq!(s.sp, 0xfffe);
    assert_eq!(s.a, 0x11);
}

#[test]
fn conditional_calls_and_returns() {
    let mut mmu = MMU::new();
    let mut s = with_program(0x200, &[0xc4, 0x00, 0x30]);
    s.sp = 0xd000;
    s.flags.z = true;
    run(&mut s, &mut mmu);
    assert_eq!(s.pc, 0x203);
    assert_eq!(s.sp, 0xd000);
    let mut s = with_program(0x200, &[0xdc, 0x00, 0x30]);
    s.sp = 0xd000;
    s.flags.c = true;
    run(&mut s, &mut mmu);
    assert_eq!(s.pc, 0x3000);
    assert_eq!(s.sp, 0xcffe);
    s.memory[0x3000] = 0xd0;
    s.flags.c = true;
    run(&mut s, &mut mmu);
    assert_eq!(s.pc, 0x3001);
    s.memory[0x3001] = 0xd8;
    run(&mut s, &mut mmu);
    assert_eq!(s.pc, 0x203);
    assert_eq!(s.sp, 0xd000);
}

#[test]
fn push_then_pop_copies_the_pair() {
    let mut mmu = MMU::new();
    let mut s = with_program(0x200, &[0xc5, 0xe1, 0xd5, 0xc1]);
    s.sp = 0xfffe;
    s.b = 0xbe;
    s.c = 0xef;
    s.d = 0x12;
    s.e = 0x34;
    run(&mut s, &mut mmu);
    assert_eq!(s.sp, 0xfffc);
    assert_eq!((s.memory[0xfffc], s.memory[0xfffd]), (0xef, 0xbe));
    run(&mut s, &mut mmu);
    assert_eq!((s.h, s.l), (0xbe, 0xef));
    assert_eq!(s.sp, 0xfffe);
    run(&mut s, &mut mmu);
    run(&mut s, &mut mmu);
    assert_eq!((s.b, s.c), (0x12, 0x34));
    assert_eq!(s.sp, 0xfffe);
    assert_eq!(s.pc, 0x204);
}

#[test]
fn wide_inc_then_dec_restores_pairs() {
    let mut mmu = MMU::new();
    let mut s = with_program(0x200, &[0x03, 0x0b, 0x13, 0x1b, 0x23, 0x2b, 0x33, 0x3b]);
    s.b = 0x00;
    s.c = 0xff;
    s.d = 0xff;
    s.e = 0xff;
    s.h = 0x12;
    s.l = 0x34;
    s.sp = 0x10;
    run(&mut s, &mut mmu);
    assert_eq!((s.b, s.c), (0x01, 0x00));
    run(&mut s, &mut mmu);
    assert_eq!((s.b, s.c), (0x00, 0xff));
    run(&mut s, &mut mmu);
    assert_eq!((s.d, s.e), (0x00, 0x00));
    run(&mut s, &mut mmu);
    assert_eq!((s.d, s.e), (0xff, 0xff));
    run(&mut s, &mut mmu);
    run(&mut s, &mut mmu);
    assert_eq!((s.h, s.l), (0x12, 0x34));
    run(&mut s, &mut mmu);
    assert_eq!(s.sp, 0x11);
    run(&mut s, &mut mmu);
    assert_eq!(s.sp, 0x10);
    assert_eq!(s.pc, 0x208);
}

#[test]
fn dec_sp_keeps_flags() {
    let mut mmu = MMU::new();
    let mut s = with_program(0x200, &[0x3b]);
    s.sp = 0x10;
    s.flags = Flags { z: true, c: true, n: false, h: false };
    run(&mut s, &mut mmu);
    assert_eq!(s.sp, 0x0f);
    assert_eq!(s.flags, Flags { z: true, c: true, n: false, h: false });
    let mut s = with_program(0x200, &[0x3b]);
    s.sp = 1;
    s.flags = Flags { z: false, c: false, n: false, h: true };
    run(&mut s, &mut mmu);
    assert_eq!(s.sp, 0);
    assert_eq!(s.flags, Flags { z: false, c: false, n: false, h: true });
}

#[test]
fn hl_increment_and_decrement_loads() {
    let mut mmu = MMU::new();
    let mut s = with_program(0x200, &[0x22, 0x32, 0x2a, 0x3a, 0x02, 0x1a]);
    s.a = 0x77;
    s.h = 0xc0;
    s.l = 0xff;
    run(&mut s, &mut mmu);
    assert_eq!(s.memory[0xc0ff], 0x77);
    assert_eq!((s.h, s.l), (0xc1, 0x00));
    run(&mut s, &mut mmu);
    assert_eq!(s.memory[0xc100], 0x77);
    assert_eq!((s.h, s.l), (0xc0, 0xff));
    s.memory[0xc0ff] = 0x01;
    run(&mut s, &mut mmu);
    assert_eq!(s.a, 0x01);
    assert_eq!((s.h, s.l), (0xc1, 0x00));
    run(&mut s, &mut mmu);
    assert_eq!(s.a, 0x77);
    assert_eq!((s.h, s.l), (0xc0, 0xff));
    s.b = 0xd0;
    s.c = 0x01;
    run(&mut s, &mut mmu);
    assert_eq!(s.memory[0xd001], 0x77);
    s.d = 0xd0;
    s.e = 0x01;
    s.a = 0;
    run(&mut s, &mut mmu);
    assert_eq!(s.a, 0x77);
}

#[test]
fn high_memory_loads() {
    let mut mmu = MMU::new();
    let mut s = with_program(0x200, &[0xe0, 0x80, 0xf0, 0x81, 0xf0, 0x44, 0xea, 0x00, 0xd0]);
    s.a = 0x3c;
    run(&mut s, &mut mmu);
    assert_eq!(s.memory[0xff80], 0x3c);
    assert_eq!(s.pc, 0x202);
    s.memory[0xff81] = 0x5a;
    run(&mut s, &mut mmu);
    assert_eq!(s.a, 0x5a);
    s.memory[0xff44] = 0x12;
    run(&mut s, &mut mmu);
    assert_eq!(s.a, 0x90);
    run(&mut s, &mut mmu);
    assert_eq!(s.memory[0xd000], 0x90);
    assert_eq!(s.pc, 0x209);
}

#[test]
fn ld_c_a_writes_high_memory() {
    let mut mmu = MMU::new();
    let mut s = with_program(0x200, &[0xe2]);
    s.a = 0xab;
    s.c = 0x47;
    run(&mut s, &mut mmu);
    assert_eq!(s.memory[0xff47], 0xab);
    assert_eq!(s.memory[0x0000], 0x00);
    assert_eq!(s.pc, 0x201);
}

#[test]
fn not_taken_jump_skips_operand_at_top_of_memory() {
    let mut mmu = MMU::new();
    let mut s = with_program(0xfffd, &[0xc2, 0x00]);
    s.flags.z = true;
    run(&mut s, &mut mmu);
    assert_eq!(s.pc, 0x0000);
}

#[test]
fn cb_rotate_and_bit_test() {
    let mut mmu = MMU::new();
    let mut s = with_program(0x200, &[0xcb, 0x11, 0xcb, 0x7c, 0xcb, 0x47]);
    s.c = 0x81;
    s.flags.c = false;
    run(&mut s, &mut mmu);
    assert_eq!(s.c, 0x02);
    assert_eq!(s.flags, Flags { z: false, c: true, n: false, h: false });
    assert_eq!(s.pc, 0x202);
    s.h = 0x80;
    run(&mut s, &mut mmu);
    assert!(!s.flags.z && !s.flags.n && s.flags.h && s.flags.c);
    assert_eq!(s.h, 0x80);
    s.a = 0xfe;
    run(&mut s, &mut mmu);
    assert!(s.flags.z);
    assert_eq!(s.pc, 0x206);
}

#[test]
fn cb_rotate_memory_operand() {
    let mut mmu = MMU::new();
    let mut s = with_program(0x200, &[0xcb, 0x16]);
    s.h = 0xc0;
    s.l = 0x00;
    s.memory[0xc000] = 0x40;
    s.flags.c = true;
    run(&mut s, &mut mmu);
    assert_eq!(s.memory[0xc000], 0x81);
    assert!(!s.flags.c);
}

#[test]
fn unimplemented_changes_only_pc() {
    let mut mmu = MMU::new();
    let mut s = with_program(0x200, &[0x07]);
    s.a = 0x12;
    let flags = s.flags;
    assert_eq!(run(&mut s, &mut mmu), StepEvent::Unimplemented);
    assert_eq!(s.pc, 0x201);
    assert_eq!(s.memory[s.pc as usize - 1], 0x07);
    assert_eq!(s.a, 0x12);
    assert_eq!(s.flags, flags);
    let mut s = with_program(0x200, &[0x7e]);
    assert_eq!(run(&mut s, &mut mmu), StepEvent::Unimplemented);
    assert_eq!(s.pc, 0x201);
    let mut s = with_program(0x200, &[0xcb, 0x18]);
    assert_eq!(run(&mut s, &mut mmu), StepEvent::Unimplemented);
    assert_eq!(s.pc, 0x202);
    assert_eq!(s.memory[s.pc as usize - 1], 0x18);
    let mut s = with_program(0x200, &[0xcb, 0x00]);
    assert_eq!(run(&mut s, &mut mmu), StepEvent::Unimplemented);
    let mut s = with_program(0x200, &[0xff]);
    assert_eq!(run(&mut s, &mut mmu), StepEvent::Unimplemented);
}

#[test]
fn step_definedness() {
    let s = with_program(0xfffe, &[0x00]);
    assert!(!step_is_defined(&s));
    let s = with_program(0xfffd, &[0x00]);
    assert!(step_is_defined(&s));
    let s = with_program(0xfffd, &[0x01]);
    assert!(!step_is_defined(&s));
    let mut s = with_program(0x200, &[0xc5]);
    s.sp = 1;
    assert!(!step_is_defined(&s));
    s.sp = 0x10000;
    assert!(step_is_defined(&s));
    s.sp = 0x10001;
    assert!(!step_is_defined(&s));
    let mut s = with_program(0x200, &[0xc1]);
    s.sp = 0xffff;
    assert!(!step_is_defined(&s));
    s.sp = 0xfffe;
    assert!(step_is_defined(&s));
    let mut s = with_program(0x200, &[0xc0]);
    s.sp = 0xffff;
    s.flags.z = true;
    assert!(step_is_defined(&s));
    s.flags.z = false;
    assert!(!step_is_defined(&s));
}

#[test]
fn boot_rom_is_replaced_once_at_0x100() {
    let mut mmu = MMU::new();
    let cart: Vec<u8> = (0..0x200u32).map(|i| (i % 251) as u8).collect();
    mmu.load_cart(&cart);
    let mut s = with_program(0x100, &[0x00]);
    s.memory[0x00] = 0xee;
    run(&mut s, &mut mmu);
    assert_eq!(s.memory[0x00], cart[0x00]);
    assert_eq!(s.memory[0xff], cart[0xff]);
    assert_eq!(s.memory[0x100], 0x00);
    s.memory[0x00] = 0xee;
    s.pc = 0x100;
    run(&mut s, &mut mmu);
    assert_eq!(s.memory[0x00], 0xee);
}

#[test]
fn steps_keep_the_roms() {
    let mut mmu = MMU::new();
    let cart: Vec<u8> = (0..0x400u32).map(|i| (i % 97) as u8).collect();
    mmu.load_cart(&cart);
    mmu.read_header();
    let rom_type = mmu.rom_type();
    let mut s = with_program(0xff, &[0x00, 0x00, 0x3e, 0x01]);
    for _ in 0..3 {
        run(&mut s, &mut mmu);
    }
    assert_eq!(mmu.rom_type(), rom_type);
    let mut fresh = StateSM83::new();
    mmu.cart_to_mem(&mut fresh);
    for i in 0..cart.len() {
        assert_eq!(fresh.memory[i], cart[i]);
    }
}
