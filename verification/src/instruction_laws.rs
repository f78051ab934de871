use vstd::prelude::*;

use crate::alu::lemma_nibble;
use crate::laws::{fetched, lemma_step_wide, lemma_execute_alu, lemma_execute_high, lemma_execute_load, lemma_execute_low, lemma_fetched};
use crate::mmu::MmuView;
use crate::sm83cpu::{execute, lemma_bit_test, lemma_pair_of_bytes, step, step_defined, wide_step_column, CpuView, Flags, StepEvent};

verus! {

/// The accumulator instructions (0x80 to 0xbf) compute on A and the operand
/// that bits 0..2 name (B, C, D, E, H, L, the byte at HL, A): ADD and ADC
/// add (ADC adding the carry too), SUB and SBC subtract (SBC subtracting the
/// carry too), AND, XOR and OR combine bit by bit, and CP compares without
/// changing A. Z tells whether the result is zero, N whether the operation
/// subtracts, H the carry out of or borrow into the low four bits, C the
/// carry out of or borrow into the whole byte. Nothing else but A, the flags
/// and the program counter changes.
pub proof fn law_accumulator_operations(s: CpuView, m: MmuView)
    requires
        step_defined(s),
        0x80 <= s.mem(s.pc as int) < 0xc0,
    ensures
        ({
            let op = s.mem(s.pc as int);
            let (t, m2, ev) = step(s, m);
            let p = fetched(s, m);
            let a = s.a;
            let x = p.read_r8((op % 8) as int);
            let kind = (op - 0x80) / 8;
            let cin: int = if (kind == 1 || kind == 3) && s.flags.c { 1 } else { 0 };
            &&& ev == StepEvent::Continue
            &&& t == CpuView { a: t.a, flags: t.flags, ..p }
            &&& t.pc == s.pc + 1
            &&& kind <= 1 ==> t.a == (a + x + cin) % 256 && t.flags == (Flags {
                z: t.a == 0,
                n: false,
                h: a % 16 + x % 16 + cin > 15,
                c: a + x + cin > 255,
            })
            &&& (kind == 2 || kind == 3) ==> t.a == (a - x - cin) % 256 && t.flags == (Flags {
                z: t.a == 0,
                n: true,
                h: a % 16 < x % 16 + cin,
                c: a < x + cin,
            })
            &&& kind == 4 ==> t.a == a & x && t.flags == (Flags { z: t.a == 0, n: false, h: true, c: false })
            &&& kind == 5 ==> t.a == a ^ x && t.flags == (Flags { z: t.a == 0, n: false, h: false, c: false })
            &&& kind == 6 ==> t.a == a | x && t.flags == (Flags { z: t.a == 0, n: false, h: false, c: false })
            &&& kind == 7 ==> t.a == a && t.flags == (Flags { z: a == x, n: true, h: a % 16 < x % 16, c: a < x })
        }),
{
    let op = s.mem(s.pc as int);
    lemma_fetched(s, m);
    lemma_execute_alu(fetched(s, m), op, s.mem(s.pc + 1), s.mem(s.pc + 2));
}

/// The signed value of a relative jump's operand byte.
pub open spec fn signed_byte(n: u8) -> int {
    if n < 128 {
        n as int
    } else {
        n - 256
    }
}

/// JR r8 (0x18), JR NZ (0x20) and JR Z (0x28) take two bytes; when the jump
/// is taken (always for JR, when Z is clear for JR NZ, when Z is set for JR
/// Z) the program counter moves by the signed operand from the end of the
/// instruction, wrapping around, and otherwise it only moves past the two
/// bytes. STOP (0x10) moves past its two bytes and is reported. Nothing else
/// changes.
pub proof fn law_relative_jumps(s: CpuView, m: MmuView)
    requires
        step_defined(s),
        s.mem(s.pc as int) == 0x18 || s.mem(s.pc as int) == 0x20 || s.mem(s.pc as int) == 0x28
            || s.mem(s.pc as int) == 0x10,
    ensures
        ({
            let op = s.mem(s.pc as int);
            let n1 = s.mem(s.pc + 1);
            let (t, m2, ev) = step(s, m);
            let p = fetched(s, m);
            let taken = op == 0x18 || (op == 0x20 && !s.flags.z) || (op == 0x28 && s.flags.z);
            &&& ev == if op == 0x10 { StepEvent::StopNotice } else { StepEvent::Continue }
            &&& t == CpuView { pc: t.pc, ..p }
            &&& t.pc == if taken { (s.pc + 2 + signed_byte(n1)) % 0x10000 } else { s.pc + 2 }
        }),
{
    let op = s.mem(s.pc as int);
    lemma_fetched(s, m);
    lemma_execute_low(fetched(s, m), op, s.mem(s.pc + 1), s.mem(s.pc + 2));
}

/// JP a16 (0xc3) and JP NZ,a16 (0xc2) take three bytes; the jump goes to the
/// little-endian operand, for JP NZ only when Z is clear, and otherwise the
/// program counter moves past the three bytes, wrapping around. Nothing else
/// changes.
pub proof fn law_absolute_jumps(s: CpuView, m: MmuView)
    requires
        step_defined(s),
        s.mem(s.pc as int) == 0xc2 || s.mem(s.pc as int) == 0xc3,
    ensures
        ({
            let op = s.mem(s.pc as int);
            let (t, m2, ev) = step(s, m);
            let p = fetched(s, m);
            let taken = op == 0xc3 || !s.flags.z;
            &&& ev == StepEvent::Continue
            &&& t == CpuView { pc: t.pc, ..p }
            &&& t.pc == if taken {
                s.mem(s.pc + 1) + 256 * s.mem(s.pc + 2)
            } else {
                (s.pc + 3) % 0x10000
            }
        }),
{
    let op = s.mem(s.pc as int);
    lemma_fetched(s, m);
    lemma_execute_high(fetched(s, m), op, s.mem(s.pc + 1), s.mem(s.pc + 2));
}

/// CALL a16 (0xcd) and the conditional calls CALL NZ (0xc4), CALL Z (0xcc),
/// CALL NC (0xd4) and CALL C (0xdc) take three bytes. When the call is taken
/// (always for CALL, when its condition holds otherwise) the address of the
/// next instruction is pushed, low byte at the lower address, the stack
/// pointer moves down by two and the program counter goes to the
/// little-endian operand; otherwise the program counter only moves past the
/// three bytes. Registers and flags do not change.
pub proof fn law_calls(s: CpuView, m: MmuView)
    requires
        step_defined(s),
        s.mem(s.pc as int) == 0xcd || s.mem(s.pc as int) == 0xc4 || s.mem(s.pc as int) == 0xcc
            || s.mem(s.pc as int) == 0xd4 || s.mem(s.pc as int) == 0xdc,
    ensures
        ({
            let op = s.mem(s.pc as int);
            let (t, m2, ev) = step(s, m);
            let p = fetched(s, m);
            let taken = op == 0xcd || (op == 0xc4 && !s.flags.z) || (op == 0xcc && s.flags.z)
                || (op == 0xd4 && !s.flags.c) || (op == 0xdc && s.flags.c);
            let back = s.pc + 3;
            &&& ev == StepEvent::Continue
            &&& taken ==> {
                &&& t == CpuView { pc: t.pc, sp: t.sp, memory: t.memory, ..p }
                &&& t.pc == s.mem(s.pc + 1) + 256 * s.mem(s.pc + 2)
                &&& t.sp == s.sp - 2
                &&& t.memory == p.memory.update(s.sp - 2, (back % 256) as u8).update(
                    s.sp - 1,
                    (back / 256) as u8,
                )
            }
            &&& !taken ==> t == CpuView { pc: ((s.pc + 3) % 0x10000) as u16, ..p }
        }),
{
    let op = s.mem(s.pc as int);
    lemma_fetched(s, m);
    lemma_execute_high(fetched(s, m), op, s.mem(s.pc + 1), s.mem(s.pc + 2));
}

/// RET (0xc9) and the conditional returns RET NZ (0xc0), RET Z (0xc8),
/// RET NC (0xd0) and RET C (0xd8). When the return is taken the program
/// counter is read from the stack, low byte first, and the stack pointer
/// moves up by two; otherwise only the program counter moves past the
/// opcode. Registers, flags and memory do not change.
pub proof fn law_returns(s: CpuView, m: MmuView)
    requires
        step_defined(s),
        s.mem(s.pc as int) == 0xc9 || s.mem(s.pc as int) == 0xc0 || s.mem(s.pc as int) == 0xc8
            || s.mem(s.pc as int) == 0xd0 || s.mem(s.pc as int) == 0xd8,
    ensures
        ({
            let op = s.mem(s.pc as int);
            let (t, m2, ev) = step(s, m);
            let p = fetched(s, m);
            let taken = op == 0xc9 || (op == 0xc0 && !s.flags.z) || (op == 0xc8 && s.flags.z)
                || (op == 0xd0 && !s.flags.c) || (op == 0xd8 && s.flags.c);
            &&& ev == StepEvent::Continue
            &&& taken ==> {
                &&& t == CpuView { pc: t.pc, sp: t.sp, ..p }
                &&& t.pc == p.mem(s.sp as int) + 256 * p.mem(s.sp + 1)
                &&& t.sp == s.sp + 2
            }
            &&& !taken ==> t == p && t.pc == s.pc + 1
        }),
{
    let op = s.mem(s.pc as int);
    lemma_fetched(s, m);
    lemma_execute_high(fetched(s, m), op, s.mem(s.pc + 1), s.mem(s.pc + 2));
}

/// The 16-bit register pair that PUSH (0xc5, 0xd5, 0xe5) and POP (0xc1,
/// 0xd1, 0xe1) name by bits 4..5: 0 BC, 1 DE, 2 HL, as high and low byte.
pub open spec fn stack_pair(s: CpuView, k: int) -> (u8, u8) {
    if k == 0 {
        (s.b, s.c)
    } else if k == 1 {
        (s.d, s.e)
    } else {
        (s.h, s.l)
    }
}

/// PUSH rr stores the pair below the stack pointer, low byte at the lower
/// address, and moves the stack pointer down by two; POP rr loads the pair
/// from the stack pointer, low byte first, and moves it up by two. Nothing
/// else changes but the program counter, which moves past the opcode.
pub proof fn law_push_and_pop(s: CpuView, m: MmuView)
    requires
        step_defined(s),
        0xc1 <= s.mem(s.pc as int) <= 0xe5,
        s.mem(s.pc as int) % 16 == 1 || s.mem(s.pc as int) % 16 == 5,
    ensures
        ({
            let op = s.mem(s.pc as int);
            let k = (op - 0xc0) / 16;
            let (t, m2, ev) = step(s, m);
            let p = fetched(s, m);
            let (hi, lo) = stack_pair(s, k);
            &&& ev == StepEvent::Continue
            &&& t.pc == s.pc + 1
            &&& op % 16 == 5 ==> t == CpuView {
                sp: (s.sp - 2) as usize,
                memory: p.memory.update(s.sp - 2, lo).update(s.sp - 1, hi),
                ..p
            }
            &&& op % 16 == 1 ==> {
                &&& stack_pair(t, k) == (p.mem(s.sp + 1), p.mem(s.sp as int))
                &&& t.sp == s.sp + 2
                &&& t.memory == p.memory && t.a == p.a && t.flags == p.flags
                &&& k != 0 ==> stack_pair(t, 0) == stack_pair(p, 0)
                &&& k != 1 ==> stack_pair(t, 1) == stack_pair(p, 1)
                &&& k != 2 ==> stack_pair(t, 2) == stack_pair(p, 2)
            }
        }),
{
    let op = s.mem(s.pc as int);
    lemma_fetched(s, m);
    lemma_execute_high(fetched(s, m), op, s.mem(s.pc + 1), s.mem(s.pc + 2));
}

/// INC r (0x04, 0x0c, ..., 0x3c) adds one to the operand that bits 3..5
/// name (B, C, D, E, H, L, the byte at HL, A), wrapping around; Z tells
/// whether the result is zero, N is clear, H tells whether the low four bits
/// carried, and C is kept. Nothing else changes but the program counter.
pub proof fn law_increment(s: CpuView, m: MmuView)
    requires
        step_defined(s),
        s.mem(s.pc as int) < 0x40,
        s.mem(s.pc as int) % 8 == 4,
    ensures
        ({
            let op = s.mem(s.pc as int);
            let r = (op / 8) as int;
            let (t, m2, ev) = step(s, m);
            let p = fetched(s, m);
            let v = p.read_r8(r);
            &&& t == p.write_r8(r, ((v + 1) % 256) as u8).with_flags(
                Flags { z: v == 255, n: false, h: v % 16 == 15, c: s.flags.c },
            )
            &&& ev == StepEvent::Continue
        }),
{
    let op = s.mem(s.pc as int);
    lemma_fetched(s, m);
    lemma_execute_low(fetched(s, m), op, s.mem(s.pc + 1), s.mem(s.pc + 2));
}

/// DEC r (0x05, 0x0d, ..., 0x3d) subtracts one from the operand that bits
/// 3..5 name, wrapping around; Z tells whether the result is zero, N is set,
/// H tells whether the low four bits borrowed, and C is kept; DEC (HL) is
/// reported. Nothing else changes but the program counter.
pub proof fn law_decrement(s: CpuView, m: MmuView)
    requires
        step_defined(s),
        s.mem(s.pc as int) < 0x40,
        s.mem(s.pc as int) % 8 == 5,
    ensures
        ({
            let op = s.mem(s.pc as int);
            let r = (op / 8) as int;
            let (t, m2, ev) = step(s, m);
            let p = fetched(s, m);
            let v = p.read_r8(r);
            &&& t == p.write_r8(r, ((v + 255) % 256) as u8).with_flags(
                Flags { z: v == 1, n: true, h: v % 16 == 0, c: s.flags.c },
            )
            &&& ev == if op == 0x35 { StepEvent::DecMemoryNotice } else { StepEvent::Continue }
        }),
{
    let op = s.mem(s.pc as int);
    lemma_fetched(s, m);
    lemma_execute_low(fetched(s, m), op, s.mem(s.pc + 1), s.mem(s.pc + 2));
}

/// LD r,d8 (0x06, 0x0e, ..., 0x3e) loads the byte after the opcode into the
/// operand that bits 3..5 name and moves past both bytes; nothing else
/// changes.
pub proof fn law_load_immediate(s: CpuView, m: MmuView)
    requires
        step_defined(s),
        s.mem(s.pc as int) < 0x40,
        s.mem(s.pc as int) % 8 == 6,
    ensures
        ({
            let op = s.mem(s.pc as int);
            let (t, m2, ev) = step(s, m);
            let p = fetched(s, m);
            &&& t == p.write_r8((op / 8) as int, s.mem(s.pc + 1)).with_pc(s.pc + 2)
            &&& ev == StepEvent::Continue
        }),
{
    let op = s.mem(s.pc as int);
    lemma_fetched(s, m);
    lemma_execute_low(fetched(s, m), op, s.mem(s.pc + 1), s.mem(s.pc + 2));
}

/// LD r,r' (0x40 to 0x7f) copies the operand that bits 0..2 name into the
/// one that bits 3..5 name, and nothing else changes but the program
/// counter; HALT (0x76) changes nothing but the program counter and is
/// reported, and LD A,(HL) (0x7e) is reported as not implemented.
pub proof fn law_register_loads(s: CpuView, m: MmuView)
    requires
        s.memory.len() == 0x10000,
        step_defined(s),
        0x40 <= s.mem(s.pc as int) < 0x80,
    ensures
        ({
            let op = s.mem(s.pc as int);
            let (t, m2, ev) = step(s, m);
            let p = fetched(s, m);
            &&& op == 0x76 ==> t == p && ev == StepEvent::HaltNotice
            &&& op == 0x7e ==> t == p && ev == StepEvent::Unimplemented
            &&& op != 0x76 && op != 0x7e ==> {
                &&& t == p.write_r8(((op - 0x40) / 8) as int, p.read_r8((op % 8) as int))
                &&& t.read_r8(((op - 0x40) / 8) as int) == p.read_r8((op % 8) as int)
                &&& ev == StepEvent::Continue
            }
        }),
{
    let op = s.mem(s.pc as int);
    lemma_fetched(s, m);
    lemma_execute_load(fetched(s, m), op, s.mem(s.pc + 1), s.mem(s.pc + 2));
}

/// The 16-bit register pair that opcodes 0x00 to 0x3f name by bits 4..5:
/// 0 BC, 1 DE, 2 HL, 3 SP.
pub open spec fn wide_register(s: CpuView, k: int) -> int {
    if k == 0 {
        s.b * 256 + s.c
    } else if k == 1 {
        s.d * 256 + s.e
    } else if k == 2 {
        s.h * 256 + s.l
    } else {
        s.sp as int
    }
}

/// LD rr,d16 (0x01, 0x11, 0x21, 0x31) loads the little-endian operand into
/// BC, DE, HL or SP and moves past the three bytes; the flags, A, memory
/// and the other pairs do not change.
pub proof fn law_wide_loads(s: CpuView, m: MmuView)
    requires
        step_defined(s),
        s.mem(s.pc as int) < 0x40,
        s.mem(s.pc as int) % 16 == 1,
    ensures
        ({
            let op = s.mem(s.pc as int);
            let k = (op / 16) as int;
            let (t, m2, ev) = step(s, m);
            let p = fetched(s, m);
            &&& ev == StepEvent::Continue
            &&& wide_register(t, k) == s.mem(s.pc + 1) + 256 * s.mem(s.pc + 2)
            &&& t.pc == s.pc + 3
            &&& t.a == s.a && t.flags == s.flags && t.memory == p.memory
            &&& forall|j: int| 0 <= j < 4 && j != k ==> wide_register(t, j) == wide_register(s, j)
        }),
{
    let op = s.mem(s.pc as int);
    lemma_fetched(s, m);
    lemma_execute_low(fetched(s, m), op, s.mem(s.pc + 1), s.mem(s.pc + 2));
}

#[verifier::rlimit(40)]
proof fn lemma_wide_column_facts(p: CpuView, op: u8)
    requires
        op < 0x40,
        op % 8 == 3,
    ensures
        ({
            let k = (op / 16) as int;
            let t = wide_step_column(p, op);
            let v = wide_register(p, k);
            let modulus = if k == 3 { usize::MAX + 1 } else { 0x10000 };
            &&& wide_register(t, k) == if op % 16 == 3 {
                if v + 1 == modulus { 0 } else { v + 1 }
            } else {
                if v == 0 { modulus - 1 } else { v - 1 }
            }
            &&& t.pc == p.pc && t.a == p.a && t.flags == p.flags && t.memory == p.memory
            &&& forall|j: int| 0 <= j < 4 && j != k ==> wide_register(t, j) == wide_register(p, j)
        }),
{
    reveal(wide_step_column);
    let k = (op / 16) as int;
    let v = wide_register(p, k);
    if op == 0x03 || op == 0x13 || op == 0x23 {
        lemma_pair_of_bytes((v + 1) % 0x10000);
    } else if op == 0x0b || op == 0x1b || op == 0x2b {
        lemma_pair_of_bytes((v - 1) % 0x10000);
    }
}

/// INC rr (0x03, 0x13, 0x23, 0x33) adds one to BC, DE, HL or SP and DEC rr
/// (0x0b, 0x1b, 0x2b, 0x3b) subtracts one, BC, DE and HL wrapping at
/// 0x10000 and SP at the size of `usize`. The flags, A, memory and the other
/// pairs do not change, and the program counter moves past the opcode.
pub proof fn law_wide_increment_and_decrement(s: CpuView, m: MmuView)
    requires
        step_defined(s),
        s.mem(s.pc as int) < 0x40,
        s.mem(s.pc as int) % 8 == 3,
    ensures
        ({
            let op = s.mem(s.pc as int);
            let k = (op / 16) as int;
            let (t, m2, ev) = step(s, m);
            let p = fetched(s, m);
            let v = wide_register(s, k);
            let modulus = if k == 3 { usize::MAX + 1 } else { 0x10000 };
            &&& ev == StepEvent::Continue
            &&& wide_register(t, k) == if op % 16 == 3 {
                if v + 1 == modulus { 0 } else { v + 1 }
            } else {
                if v == 0 { modulus - 1 } else { v - 1 }
            }
            &&& t.pc == s.pc + 1
            &&& t.a == s.a && t.flags == s.flags && t.memory == p.memory
            &&& forall|j: int| 0 <= j < 4 && j != k ==> wide_register(t, j) == wide_register(s, j)
        }),
{
    let op = s.mem(s.pc as int);
    lemma_fetched(s, m);
    lemma_step_wide(s, m);
    lemma_wide_column_facts(fetched(s, m), op);
    let p = fetched(s, m);
    assert forall|j: int| 0 <= j < 4 implies wide_register(p, j) == wide_register(s, j) by {}
}

/// The loads through a register pair: LD (BC),A (0x02) stores A at BC,
/// LD A,(DE) (0x1a) loads A from DE, LD (HL+),A (0x22) and LD (HL-),A (0x32)
/// store A at HL, LD A,(HL+) (0x2a) and LD A,(HL-) (0x3a) load A from HL,
/// and the last four then move HL up or down by one, wrapping around. The
/// flags and the other registers do not change, and the program counter
/// moves past the opcode.
pub proof fn law_indirect_loads(s: CpuView, m: MmuView)
    requires
        step_defined(s),
        s.mem(s.pc as int) == 0x02 || s.mem(s.pc as int) == 0x1a || s.mem(s.pc as int) == 0x22
            || s.mem(s.pc as int) == 0x32 || s.mem(s.pc as int) == 0x2a || s.mem(s.pc as int) == 0x3a,
    ensures
        ({
            let op = s.mem(s.pc as int);
            let (t, m2, ev) = step(s, m);
            let p = fetched(s, m);
            let bc = wide_register(s, 0);
            let de = wide_register(s, 1);
            let hl = wide_register(s, 2);
            let stores = op == 0x02 || op == 0x22 || op == 0x32;
            let addr = if op == 0x02 { bc } else if op == 0x1a { de } else { hl };
            let hl2 = if op == 0x22 || op == 0x2a {
                (hl + 1) % 0x10000
            } else if op == 0x32 || op == 0x3a {
                (hl - 1) % 0x10000
            } else {
                hl
            };
            &&& ev == StepEvent::Continue
            &&& t.pc == s.pc + 1
            &&& wide_register(t, 0) == bc && wide_register(t, 1) == de && t.sp == s.sp
            &&& wide_register(t, 2) == hl2
            &&& t.flags == s.flags
            &&& stores ==> t.memory == p.memory.update(addr, s.a) && t.a == s.a
            &&& !stores ==> t.memory == p.memory && t.a == p.mem(addr)
        }),
{
    let op = s.mem(s.pc as int);
    lemma_fetched(s, m);
    lemma_execute_low(fetched(s, m), op, s.mem(s.pc + 1), s.mem(s.pc + 2));
    let hl = wide_register(s, 2);
    if op == 0x22 || op == 0x2a {
        lemma_pair_of_bytes((hl + 1) % 0x10000);
    } else if op == 0x32 || op == 0x3a {
        lemma_pair_of_bytes((hl - 1) % 0x10000);
    }
}

/// The loads between A and high memory or an absolute address, and CP d8:
/// LDH (a8),A (0xe0) stores A at 0xff00 plus the operand byte, LDH A,(a8)
/// (0xf0) loads A from there (reading 0x90 from 0xff44, where no display is
/// emulated), LD (C),A (0xe2) stores A at 0xff00 + C, LD (a16),A (0xea)
/// stores A at the little-endian operand, and CP d8 (0xfe) compares A with
/// the operand byte, setting only the flags. The program counter moves past
/// the instruction and nothing else changes.
pub proof fn law_memory_loads_and_compare(s: CpuView, m: MmuView)
    requires
        step_defined(s),
        s.mem(s.pc as int) == 0xe0 || s.mem(s.pc as int) == 0xf0 || s.mem(s.pc as int) == 0xe2
            || s.mem(s.pc as int) == 0xea || s.mem(s.pc as int) == 0xfe,
    ensures
        ({
            let op = s.mem(s.pc as int);
            let n1 = s.mem(s.pc + 1);
            let n2 = s.mem(s.pc + 2);
            let (t, m2, ev) = step(s, m);
            let p = fetched(s, m);
            let length = if op == 0xe2 { 1int } else if op == 0xea { 3int } else { 2int };
            &&& ev == StepEvent::Continue
            &&& t.pc == s.pc + length
            &&& op == 0xe0 ==> t == CpuView { pc: t.pc, memory: p.memory.update(0xff00 + n1, s.a), ..p }
            &&& op == 0xe2 ==> t == CpuView { pc: t.pc, memory: p.memory.update(0xff00 + s.c, s.a), ..p }
            &&& op == 0xea ==> t == CpuView {
                pc: t.pc,
                memory: p.memory.update(n1 + 256 * n2, s.a),
                ..p
            }
            &&& op == 0xf0 ==> t == CpuView {
                pc: t.pc,
                a: if n1 == 0x44 { 0x90 } else { p.mem(0xff00 + n1) },
                ..p
            }
            &&& op == 0xfe ==> t == CpuView {
                pc: t.pc,
                flags: Flags { z: s.a == n1, n: true, h: s.a % 16 < n1 % 16, c: s.a < n1 },
                ..p
            }
        }),
{
    let op = s.mem(s.pc as int);
    lemma_fetched(s, m);
    lemma_execute_high(fetched(s, m), op, s.mem(s.pc + 1), s.mem(s.pc + 2));
}

/// NOP (0x00) only moves the program counter past itself, and RLA (0x17)
/// shifts A left by one bit, the old carry flag entering bit 0 and bit 7
/// leaving into the carry flag, with Z, N and H clear.
pub proof fn law_nop_and_rotate_a(s: CpuView, m: MmuView)
    requires
        step_defined(s),
        s.mem(s.pc as int) == 0x00 || s.mem(s.pc as int) == 0x17,
    ensures
        ({
            let op = s.mem(s.pc as int);
            let (t, m2, ev) = step(s, m);
            let p = fetched(s, m);
            let cin: int = if s.flags.c { 1 } else { 0 };
            &&& ev == StepEvent::Continue
            &&& op == 0x00 ==> t == p
            &&& op == 0x17 ==> t == CpuView {
                a: ((2 * s.a + cin) % 256) as u8,
                flags: Flags { z: false, n: false, h: false, c: s.a >= 128 },
                ..p
            }
        }),
{
    let op = s.mem(s.pc as int);
    lemma_fetched(s, m);
    lemma_execute_low(fetched(s, m), op, s.mem(s.pc + 1), s.mem(s.pc + 2));
}

/// After the CB prefix: RL r (0x10 to 0x17) shifts the operand that bits
/// 0..2 name left by one bit, the old carry entering bit 0 and bit 7 leaving
/// into the carry, Z telling whether the result is zero and N and H clear;
/// BIT b,r (0x40 to 0x7f) sets Z exactly when bit b (bits 3..5) of the
/// operand is clear, clears N, sets H, and changes nothing else; the other
/// CB instructions are reported as not implemented and change nothing but
/// the program counter. The program counter moves past both bytes.
pub proof fn law_prefixed_instructions(s: CpuView, m: MmuView)
    requires
        step_defined(s),
        s.mem(s.pc as int) == 0xcb,
    ensures
        ({
            let n1 = s.mem(s.pc + 1);
            let r = (n1 % 8) as int;
            let (t, m2, ev) = step(s, m);
            let p = fetched(s, m).with_pc(s.pc + 2);
            let v = p.read_r8(r);
            let cin: int = if s.flags.c { 1 } else { 0 };
            let b = (n1 / 8) % 8;
            &&& t.pc == s.pc + 2
            &&& 0x10 <= n1 < 0x18 ==> {
                &&& t == p.write_r8(r, ((2 * v + cin) % 256) as u8).with_flags(
                    Flags { z: (2 * v + cin) % 256 == 0, n: false, h: false, c: v >= 128 },
                )
                &&& ev == StepEvent::Continue
            }
            &&& 0x40 <= n1 < 0x80 ==> {
                &&& t == p.with_flags(
                    Flags { z: v & (1u8 << b) == 0, n: false, h: true, c: s.flags.c },
                )
                &&& ev == StepEvent::Continue
            }
            &&& !(0x10 <= n1 < 0x18) && !(0x40 <= n1 < 0x80) ==> t == p && ev
                == StepEvent::Unimplemented
        }),
{
    let n1 = s.mem(s.pc + 1);
    lemma_fetched(s, m);
    lemma_execute_high(fetched(s, m), 0xcb, n1, s.mem(s.pc + 2));
    let p = fetched(s, m).with_pc(s.pc + 2);
    let v = p.read_r8((n1 % 8) as int);
    lemma_bit_test(v, (n1 / 8) % 8);
}

/// The opcodes that this core does not implement; after the CB prefix, the
/// second bytes outside RL r (0x10 to 0x17) and BIT b,r (0x40 to 0x7f).
pub open spec fn unimplemented_opcode(op: u8, n1: u8) -> bool {
    ||| op == 0x07 || op == 0x08 || op == 0x09 || op == 0x0a || op == 0x0f || op == 0x12
        || op == 0x19 || op == 0x1f || op == 0x27 || op == 0x29 || op == 0x2f || op == 0x30
        || op == 0x37 || op == 0x38 || op == 0x39 || op == 0x3f || op == 0x7e || op == 0xc6
        || op == 0xc7 || op == 0xca || op == 0xce || op == 0xcf || op == 0xd2 || op == 0xd3
        || op == 0xd6 || op == 0xd7 || op == 0xd9 || op == 0xda || op == 0xdb || op == 0xdd
        || op == 0xde || op == 0xdf || op == 0xe3 || op == 0xe4 || op == 0xe6 || op == 0xe7
        || op == 0xe8 || op == 0xe9 || op == 0xeb || op == 0xec || op == 0xed || op == 0xee
        || op == 0xef || op == 0xf1 || op == 0xf2 || op == 0xf3 || op == 0xf4 || op == 0xf5
        || op == 0xf6 || op == 0xf7 || op == 0xf8 || op == 0xf9 || op == 0xfa || op == 0xfb
        || op == 0xfc || op == 0xfd || op == 0xff
    ||| op == 0xcb && !(0x10 <= n1 < 0x18) && !(0x40 <= n1 < 0x80)
}

proof fn lemma_unimplemented_exactly(p: CpuView, op: u8, n1: u8, n2: u8)
    ensures
        (execute(p, op, n1, n2).1 == StepEvent::Unimplemented) == unimplemented_opcode(op, n1),
{
    if op < 0x40 {
        lemma_execute_low(p, op, n1, n2);
    } else if op < 0x80 {
        lemma_execute_load(p, op, n1, n2);
    } else if op < 0xc0 {
        lemma_execute_alu(p, op, n1, n2);
    } else {
        lemma_execute_high(p, op, n1, n2);
    }
}

/// A step reports an instruction as not implemented exactly for the
/// opcodes of `unimplemented_opcode`; every other instruction is carried
/// out.
pub proof fn law_implemented_instructions(s: CpuView, m: MmuView)
    requires
        step_defined(s),
    ensures
        (step(s, m).2 == StepEvent::Unimplemented) == unimplemented_opcode(
            s.mem(s.pc as int),
            s.mem(s.pc + 1),
        ),
{
    lemma_unimplemented_exactly(fetched(s, m), s.mem(s.pc as int), s.mem(s.pc + 1), s.mem(s.pc + 2));
}

/// The fetch: the opcode and its operands are read before anything
/// changes; at 0x100, while the boot ROM is still mapped in, the first 0x100
/// bytes of memory are replaced by the cartridge's and booting is recorded
/// as finished; the controller changes in no other way; and the program
/// counter moves past the opcode before the instruction is carried out.
pub proof fn law_fetch(s: CpuView, m: MmuView)
    requires
        s.memory.len() == 0x10000,
        m.cart.len() == 0x8000,
        step_defined(s),
    ensures
        ({
            let handover = s.pc == 0x100 && !m.boot_finished;
            let p = fetched(s, m);
            &&& step(s, m).1 == if handover { MmuView { boot_finished: true, ..m } } else { m }
            &&& p == CpuView { pc: (s.pc + 1) as u16, memory: p.memory, ..s }
            &&& p.memory.len() == 0x10000
            &&& forall|i: int|
                0 <= i < 0x10000 ==> p.memory[i] == if handover && i < 0x100 {
                    m.cart[i]
                } else {
                    s.memory[i]
                }
            &&& step(s, m).0 == execute(p, s.mem(s.pc as int), s.mem(s.pc + 1), s.mem(s.pc + 2)).0
        }),
{
}

/// The operands that instructions name by three bits are, in order, B, C,
/// D, E, H, L, the byte at address HL, and A: reading one gives that
/// register or byte, and writing one changes that register or byte alone.
pub proof fn law_operand_numbering(s: CpuView, r: int, v: u8)
    requires
        0 <= r < 8,
        s.memory.len() == 0x10000,
    ensures
        s.read_r8(r) == if r == 0 {
            s.b
        } else if r == 1 {
            s.c
        } else if r == 2 {
            s.d
        } else if r == 3 {
            s.e
        } else if r == 4 {
            s.h
        } else if r == 5 {
            s.l
        } else if r == 6 {
            s.memory[s.h * 256 + s.l]
        } else {
            s.a
        },
        ({
            let t = s.write_r8(r, v);
            &&& t.read_r8(r) == v
            &&& t.pc == s.pc && t.sp == s.sp && t.flags == s.flags
            &&& t.b == if r == 0 { v } else { s.b }
            &&& t.c == if r == 1 { v } else { s.c }
            &&& t.d == if r == 2 { v } else { s.d }
            &&& t.e == if r == 3 { v } else { s.e }
            &&& t.h == if r == 4 { v } else { s.h }
            &&& t.l == if r == 5 { v } else { s.l }
            &&& t.a == if r == 7 { v } else { s.a }
            &&& t.memory == if r == 6 { s.memory.update(s.h * 256 + s.l, v) } else { s.memory }
        }),
{
}

} // verus!
