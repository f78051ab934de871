use vstd::prelude::*;

use crate::alu::{alu8, alu_u8, dec8, dec_u8, inc8, inc_u8, rl8, rl_u8};
use crate::mmu::{boot_rom_overwritten, MmuView, MMU};

verus! {

/// The four condition flags of the SM83 core: zero, carry, subtract and
/// half-carry.
#[derive(Clone, Copy, PartialEq, Eq, Structural, Debug)]
pub struct Flags {
    pub z: bool,
    pub c: bool,
    pub n: bool,
    pub h: bool,
}

impl Flags {
    /// All flags start out set.
    pub fn new() -> (f: Flags)
        ensures
            f == (Flags { z: true, c: true, n: true, h: true }),
    {
        Flags { z: true, c: true, n: true, h: true }
    }
}

/// The 16-bit value whose high byte is `hi` and whose low byte is `lo`.
pub open spec fn pair(hi: u8, lo: u8) -> u16 {
    (hi as int * 256 + lo as int) as u16
}

/// Takes two 8 bit numbers and places the first in the high byte and the
/// second in the low byte of a 16 bit number.
pub fn shift_nn(shift1: u8, shift2: u8) -> (r: u16)
    ensures
        r == pair(shift1, shift2),
        r as int == shift1 as int * 256 + shift2 as int,
{
    let mut tmp: u16;
    tmp = (shift1 as u16) << 8;
    tmp |= shift2 as u16;
    assert(((shift1 as u16) << 8) | (shift2 as u16) == shift1 as u16 * 256 + shift2 as u16)
        by (bit_vector);
    tmp
}

/// The registers, memory and flags of an SM83 core.
pub struct StateSM83 {
    pub a: u8,
    pub b: u8,
    pub c: u8,
    pub d: u8,
    pub e: u8,
    pub h: u8,
    pub l: u8,
    pub sp: usize,
    pub pc: u16,
    pub memory: [u8; 0x10000],
    pub flags: Flags,
    pub int_enable: bool,
}

/// The mathematical picture of a `StateSM83`: its registers and flags, with
/// memory as a sequence of 0x10000 bytes.
#[verifier::ext_equal]
pub struct CpuView {
    pub a: u8,
    pub b: u8,
    pub c: u8,
    pub d: u8,
    pub e: u8,
    pub h: u8,
    pub l: u8,
    pub sp: usize,
    pub pc: u16,
    pub memory: Seq<u8>,
    pub flags: Flags,
    pub int_enable: bool,
}

impl View for StateSM83 {
    type V = CpuView;

    open spec fn view(&self) -> CpuView {
        CpuView {
            a: self.a,
            b: self.b,
            c: self.c,
            d: self.d,
            e: self.e,
            h: self.h,
            l: self.l,
            sp: self.sp,
            pc: self.pc,
            memory: self.memory@,
            flags: self.flags,
            int_enable: self.int_enable,
        }
    }
}

impl StateSM83 {
    /// A core with every register and every memory byte zero, all flags
    /// set and interrupts enabled.
    pub fn new() -> (s: StateSM83)
        ensures
            s@.a == 0 && s@.b == 0 && s@.c == 0 && s@.d == 0 && s@.e == 0 && s@.h == 0 && s@.l == 0,
            s@.sp == 0,
            s@.pc == 0,
            s@.memory == Seq::new(0x10000, |i: int| 0u8),
            s@.flags == (Flags { z: true, c: true, n: true, h: true }),
            s@.int_enable,
    {
        let s = StateSM83 {
            a: 0,
            b: 0,
            c: 0,
            d: 0,
            e: 0,
            h: 0,
            l: 0,
            sp: 0,
            pc: 0,
            memory: [0; 0x10000],
            flags: Flags::new(),
            int_enable: true,
        };
        assert(s@.memory =~= Seq::new(0x10000, |i: int| 0u8));
        s
    }
}

impl CpuView {
    /// The register pair BC.
    pub open spec fn bc(self) -> u16 {
        pair(self.b, self.c)
    }

    /// The register pair DE.
    pub open spec fn de(self) -> u16 {
        pair(self.d, self.e)
    }

    /// The register pair HL.
    pub open spec fn hl(self) -> u16 {
        pair(self.h, self.l)
    }

    /// The byte at `addr`.
    pub open spec fn mem(self, addr: int) -> u8 {
        self.memory[addr]
    }

    /// The operand numbered `r` in the order B, C, D, E, H, L, (HL), A that
    /// the SM83 encodes in its opcodes; 6 is the byte that HL points to.
    pub open spec fn read_r8(self, r: int) -> u8 {
        if r == 0 {
            self.b
        } else if r == 1 {
            self.c
        } else if r == 2 {
            self.d
        } else if r == 3 {
            self.e
        } else if r == 4 {
            self.h
        } else if r == 5 {
            self.l
        } else if r == 6 {
            self.memory[self.hl() as int]
        } else {
            self.a
        }
    }

    /// The state with the operand numbered `r` set to `v`.
    pub open spec fn write_r8(self, r: int, v: u8) -> CpuView {
        if r == 0 {
            CpuView { b: v, ..self }
        } else if r == 1 {
            CpuView { c: v, ..self }
        } else if r == 2 {
            CpuView { d: v, ..self }
        } else if r == 3 {
            CpuView { e: v, ..self }
        } else if r == 4 {
            CpuView { h: v, ..self }
        } else if r == 5 {
            CpuView { l: v, ..self }
        } else if r == 6 {
            CpuView { memory: self.memory.update(self.hl() as int, v), ..self }
        } else {
            CpuView { a: v, ..self }
        }
    }

    /// The state with the byte at `addr` set to `v`.
    pub open spec fn store(self, addr: int, v: u8) -> CpuView {
        CpuView { memory: self.memory.update(addr, v), ..self }
    }

    /// The state with the flags `f`.
    pub open spec fn with_flags(self, f: Flags) -> CpuView {
        CpuView { flags: f, ..self }
    }

    /// The state with the program counter `pc`, taken modulo 0x10000.
    pub open spec fn with_pc(self, pc: int) -> CpuView {
        CpuView { pc: pc as u16, ..self }
    }

    /// The state with BC set to the 16-bit value `v`.
    pub open spec fn with_bc(self, v: int) -> CpuView {
        CpuView { b: (v / 256) as u8, c: (v % 256) as u8, ..self }
    }

    /// The state with DE set to the 16-bit value `v`.
    pub open spec fn with_de(self, v: int) -> CpuView {
        CpuView { d: (v / 256) as u8, e: (v % 256) as u8, ..self }
    }

    /// The state with HL set to the 16-bit value `v`.
    pub open spec fn with_hl(self, v: int) -> CpuView {
        CpuView { h: (v / 256) as u8, l: (v % 256) as u8, ..self }
    }
}

fn read_r8(state: &StateSM83, r: u8) -> (v: u8)
    requires
        r < 8,
    ensures
        v == state@.read_r8(r as int),
{
    match r {
        0 => state.b,
        1 => state.c,
        2 => state.d,
        3 => state.e,
        4 => state.h,
        5 => state.l,
        6 => state.memory[shift_nn(state.h, state.l) as usize],
        _ => state.a,
    }
}

fn write_r8(state: &mut StateSM83, r: u8, v: u8)
    requires
        r < 8,
    ensures
        final(state)@ == old(state)@.write_r8(r as int, v),
{
    match r {
        0 => state.b = v,
        1 => state.c = v,
        2 => state.d = v,
        3 => state.e = v,
        4 => state.h = v,
        5 => state.l = v,
        6 => state.memory[shift_nn(state.h, state.l) as usize] = v,
        _ => state.a = v,
    }
}

/// What a step of the core asks its surroundings to do besides carrying on.
#[derive(Clone, Copy, PartialEq, Eq, Structural, Debug)]
pub enum StepEvent {
    /// The instruction was carried out.
    Continue,
    /// STOP was met; it is not carried out and execution goes on.
    StopNotice,
    /// HALT was met; it is not carried out and execution goes on.
    HaltNotice,
    /// DEC (HL) was carried out and is to be reported.
    DecMemoryNotice,
    /// The instruction named by the byte at `pc - 1` (the opcode, or the
    /// byte after a CB prefix) is not implemented; execution cannot go on.
    Unimplemented,
}

/// The signed displacement encoded by the operand of a relative jump.
pub open spec fn displacement(n: u8) -> int {
    if n < 128 {
        n as int
    } else {
        n - 256
    }
}

/// Bit `i` of `v` is set.
pub open spec fn bit_set(v: u8, i: int) -> bool {
    (v >> i) & 1 == 1
}

impl CpuView {
    /// The state after a relative jump by the displacement `n` from the
    /// current program counter.
    pub open spec fn jump_relative(self, n: u8) -> CpuView {
        self.with_pc((self.pc + displacement(n)) % 0x10000)
    }

    /// The state after pushing the 16-bit value `v`: the stack pointer moves
    /// down by two, the low byte lands at the new stack pointer and the high
    /// byte just above it.
    pub open spec fn push_word(self, v: u16) -> CpuView {
        let sp = self.sp - 2;
        CpuView {
            sp: sp as usize,
            memory: self.memory.update(sp, (v % 256) as u8).update(sp + 1, (v / 256) as u8),
            ..self
        }
    }

    /// The 16-bit value on top of the stack.
    pub open spec fn top_word(self) -> u16 {
        pair(self.memory[self.sp + 1], self.memory[self.sp as int])
    }

    /// The state after popping two bytes off the stack.
    pub open spec fn drop_word(self) -> CpuView {
        CpuView { sp: (self.sp + 2) as usize, ..self }
    }

    /// The state after a return: the program counter is taken off the stack.
    pub open spec fn ret(self) -> CpuView {
        self.drop_word().with_pc(self.top_word() as int)
    }

    /// The state after a call of the address `pair(n2, n1)`: the address of
    /// the instruction after the three-byte call is pushed.
    pub open spec fn call(self, n1: u8, n2: u8) -> CpuView {
        self.push_word((self.pc + 2) as u16).with_pc(pair(n2, n1) as int)
    }
}

/// The opcodes that take a 16-bit operand and always move past it.
pub open spec fn takes_word(op: u8) -> bool {
    op == 0x01 || op == 0x11 || op == 0x21 || op == 0x31 || op == 0xea
}

/// The opcode `op` reads two bytes off the stack in state `s`.
pub open spec fn pops(s: CpuView, op: u8) -> bool {
    ||| op == 0xc1 || op == 0xd1 || op == 0xe1 || op == 0xc9
    ||| op == 0xc0 && !s.flags.z
    ||| op == 0xc8 && s.flags.z
    ||| op == 0xd0 && !s.flags.c
    ||| op == 0xd8 && s.flags.c
}

/// The opcode `op` calls a subroutine in state `s`.
pub open spec fn calls(s: CpuView, op: u8) -> bool {
    ||| op == 0xcd
    ||| op == 0xc4 && !s.flags.z
    ||| op == 0xcc && s.flags.z
    ||| op == 0xd4 && !s.flags.c
    ||| op == 0xdc && s.flags.c
}

/// The opcode `op` pushes two bytes onto the stack in state `s`.
pub open spec fn pushes(s: CpuView, op: u8) -> bool {
    op == 0xc5 || op == 0xd5 || op == 0xe5 || calls(s, op)
}

/// Carrying out `op` in state `s`, whose program counter already points
/// past the opcode, stays within the 16-bit program counter, the stack
/// pointer's range and the 0x10000 bytes of memory.
pub open spec fn op_defined(s: CpuView, op: u8) -> bool {
    &&& s.pc + 1 <= 0xffff
    &&& (takes_word(op) || calls(s, op)) ==> s.pc + 2 <= 0xffff
    &&& pops(s, op) ==> s.sp + 1 < 0x10000
    &&& pushes(s, op) ==> 2 <= s.sp <= 0x10000
}

/// One step from state `s` is defined: the three bytes at the program
/// counter can be fetched and the instruction stays in range.
pub open spec fn step_defined(s: CpuView) -> bool {
    &&& s.pc + 2 <= 0xffff
    &&& op_defined(s.with_pc(s.pc + 1), s.memory[s.pc as int])
}

/// Opcodes 0x00 to 0x3f in state `s` (program counter past the opcode),
/// with the two bytes that follow the opcode; they are laid out in columns
/// by their low three bits.
pub open spec fn low_op(s: CpuView, op: u8, n1: u8, n2: u8) -> (CpuView, StepEvent) {
    let r = (op / 8) as int;
    if op % 8 == 4 {
        // INC r
        let (v, f) = inc8(s.read_r8(r), s.flags);
        (s.write_r8(r, v).with_flags(f), StepEvent::Continue)
    } else if op % 8 == 5 {
        // DEC r
        let (v, f) = dec8(s.read_r8(r), s.flags);
        (
            s.write_r8(r, v).with_flags(f),
            if op == 0x35 { StepEvent::DecMemoryNotice } else { StepEvent::Continue },
        )
    } else if op % 8 == 6 {
        // LD r,d8
        (s.with_pc(s.pc + 1).write_r8(r, n1), StepEvent::Continue)
    } else if op % 8 == 0 {
        jump_column(s, op, n1)
    } else if op % 8 == 1 {
        wide_load_column(s, op, n1, n2)
    } else if op % 8 == 2 {
        indirect_column(s, op)
    } else if op % 8 == 3 {
        (wide_step_column(s, op), StepEvent::Continue)
    } else if op == 0x17 {
        // RLA: RL A with the zero flag cleared
        let (v, f) = rl8(s.a, s.flags);
        (CpuView { a: v, ..s }.with_flags(Flags { z: false, ..f }), StepEvent::Continue)
    } else {
        (s, StepEvent::Unimplemented)
    }
}

/// Opcodes 0x00, 0x08, ..., 0x38: NOP, STOP and the relative jumps.
pub open spec fn jump_column(s: CpuView, op: u8, n1: u8) -> (CpuView, StepEvent) {
    let s1 = s.with_pc(s.pc + 1);
    if op == 0x00 {
        (s, StepEvent::Continue)
    } else if op == 0x10 {
        (s1, StepEvent::StopNotice)
    } else if op == 0x18 {
        (s1.jump_relative(n1), StepEvent::Continue)
    } else if op == 0x20 {
        (if !s.flags.z { s1.jump_relative(n1) } else { s1 }, StepEvent::Continue)
    } else if op == 0x28 {
        (if s.flags.z { s1.jump_relative(n1) } else { s1 }, StepEvent::Continue)
    } else {
        (s, StepEvent::Unimplemented)
    }
}

/// Opcodes 0x01, 0x09, ..., 0x39: LD rr,d16; the 16-bit additions are not
/// implemented.
pub open spec fn wide_load_column(s: CpuView, op: u8, n1: u8, n2: u8) -> (CpuView, StepEvent) {
    if op == 0x01 {
        (CpuView { b: n2, c: n1, ..s }.with_pc(s.pc + 2), StepEvent::Continue)
    } else if op == 0x11 {
        (CpuView { d: n2, e: n1, ..s }.with_pc(s.pc + 2), StepEvent::Continue)
    } else if op == 0x21 {
        (CpuView { h: n2, l: n1, ..s }.with_pc(s.pc + 2), StepEvent::Continue)
    } else if op == 0x31 {
        (CpuView { sp: pair(n2, n1) as usize, ..s }.with_pc(s.pc + 2), StepEvent::Continue)
    } else {
        (s, StepEvent::Unimplemented)
    }
}

/// Opcodes 0x02, 0x0a, ..., 0x3a: loads between A and the byte that BC, DE
/// or HL points to, HL moving up or down after the access.
pub open spec fn indirect_column(s: CpuView, op: u8) -> (CpuView, StepEvent) {
    if op == 0x02 {
        (s.store(s.bc() as int, s.a), StepEvent::Continue)
    } else if op == 0x22 {
        (s.store(s.hl() as int, s.a).with_hl((s.hl() + 1) % 0x10000), StepEvent::Continue)
    } else if op == 0x32 {
        (s.store(s.hl() as int, s.a).with_hl((s.hl() - 1) % 0x10000), StepEvent::Continue)
    } else if op == 0x1a {
        (CpuView { a: s.mem(s.de() as int), ..s }, StepEvent::Continue)
    } else if op == 0x2a {
        (
            CpuView { a: s.mem(s.hl() as int), ..s }.with_hl((s.hl() + 1) % 0x10000),
            StepEvent::Continue,
        )
    } else if op == 0x3a {
        (
            CpuView { a: s.mem(s.hl() as int), ..s }.with_hl((s.hl() - 1) % 0x10000),
            StepEvent::Continue,
        )
    } else {
        (s, StepEvent::Unimplemented)
    }
}

/// Opcodes 0x03, 0x0b, ..., 0x3b: 16-bit increments and decrements of BC,
/// DE, HL and SP, which wrap around.
#[verifier::opaque]
pub open spec fn wide_step_column(s: CpuView, op: u8) -> CpuView {
    if op == 0x03 {
        s.with_bc((s.bc() + 1) % 0x10000)
    } else if op == 0x13 {
        s.with_de((s.de() + 1) % 0x10000)
    } else if op == 0x23 {
        s.with_hl((s.hl() + 1) % 0x10000)
    } else if op == 0x33 {
        CpuView { sp: if s.sp == usize::MAX { 0 } else { (s.sp + 1) as usize }, ..s }
    } else if op == 0x0b {
        s.with_bc((s.bc() - 1) % 0x10000)
    } else if op == 0x1b {
        s.with_de((s.de() - 1) % 0x10000)
    } else if op == 0x2b {
        s.with_hl((s.hl() - 1) % 0x10000)
    } else {
        CpuView { sp: if s.sp == 0 { usize::MAX } else { (s.sp - 1) as usize }, ..s }
    }
}

/// Opcodes 0x40 to 0x7f: LD r,r' in state `s`, apart from HALT (0x76) and
/// LD A,(HL) (0x7e), which this core leaves unimplemented.
pub open spec fn load_op(s: CpuView, op: u8) -> (CpuView, StepEvent) {
    if op == 0x76 {
        (s, StepEvent::HaltNotice)
    } else if op == 0x7e {
        (s, StepEvent::Unimplemented)
    } else {
        (s.write_r8(((op - 0x40) / 8) as int, s.read_r8((op % 8) as int)), StepEvent::Continue)
    }
}

/// Opcodes 0x80 to 0xbf: the accumulator operation numbered by bits 3..5
/// with the operand numbered by bits 0..2.
pub open spec fn alu_op(s: CpuView, op: u8) -> CpuView {
    let x = s.read_r8((op % 8) as int);
    let (r, f) = alu8(((op - 0x80) / 8) as int, s.a, x, s.flags);
    CpuView { a: r, flags: f, ..s }
}

/// The CB-prefixed opcode `n1` in state `s` (program counter past both
/// bytes): RL r (0x10 to 0x17) and BIT b,r (0x40 to 0x7f) are implemented.
pub open spec fn cb_op(s: CpuView, n1: u8) -> (CpuView, StepEvent) {
    let r = (n1 % 8) as int;
    let val = s.read_r8(r);
    if n1 / 16 == 1 && (n1 / 8) % 2 == 0 {
        let (v, f) = rl8(val, s.flags);
        (s.write_r8(r, v).with_flags(f), StepEvent::Continue)
    } else if 4 <= n1 / 16 <= 7 {
        (
            s.with_flags(Flags { z: !bit_set(val, ((n1 / 8) % 8) as int), n: false, h: true, c: s.flags.c }),
            StepEvent::Continue,
        )
    } else {
        (s, StepEvent::Unimplemented)
    }
}

/// Opcodes 0xc0 to 0xff in state `s` (program counter past the opcode),
/// with the two bytes that follow the opcode.
pub open spec fn high_op(s: CpuView, op: u8, n1: u8, n2: u8) -> (CpuView, StepEvent) {
    if is_return_or_pop(op) {
        (return_op(s, op), StepEvent::Continue)
    } else if is_jump_or_push(op) {
        (jump_op(s, op, n1, n2), StepEvent::Continue)
    } else {
        data_op(s, op, n1, n2)
    }
}

/// The opcodes of RET cc, RET and POP rr.
pub open spec fn is_return_or_pop(op: u8) -> bool {
    op == 0xc0 || op == 0xc8 || op == 0xc9 || op == 0xd0 || op == 0xd8 || op == 0xc1 || op == 0xd1
        || op == 0xe1
}

/// The opcodes of JP, CALL and PUSH rr.
pub open spec fn is_jump_or_push(op: u8) -> bool {
    op == 0xc2 || op == 0xc3 || op == 0xc4 || op == 0xcc || op == 0xcd || op == 0xd4 || op == 0xdc
        || op == 0xc5 || op == 0xd5 || op == 0xe5
}

/// RET cc, RET and POP rr.
pub open spec fn return_op(s: CpuView, op: u8) -> CpuView {
    if op == 0xc0 {
        if !s.flags.z { s.ret() } else { s }
    } else if op == 0xc8 {
        if s.flags.z { s.ret() } else { s }
    } else if op == 0xc9 {
        s.ret()
    } else if op == 0xd0 {
        if !s.flags.c { s.ret() } else { s }
    } else if op == 0xd8 {
        if s.flags.c { s.ret() } else { s }
    } else if op == 0xc1 {
        CpuView { b: s.mem(s.sp + 1), c: s.mem(s.sp as int), ..s }.drop_word()
    } else if op == 0xd1 {
        CpuView { d: s.mem(s.sp + 1), e: s.mem(s.sp as int), ..s }.drop_word()
    } else {
        CpuView { h: s.mem(s.sp + 1), l: s.mem(s.sp as int), ..s }.drop_word()
    }
}

/// JP, CALL and PUSH. A conditional jump or call that is not taken moves
/// past its two operand bytes, the program counter wrapping around.
pub open spec fn jump_op(s: CpuView, op: u8, n1: u8, n2: u8) -> CpuView {
    let skip = s.with_pc((s.pc + 2) % 0x10000);
    if op == 0xc2 {
        if !s.flags.z { s.with_pc(pair(n2, n1) as int) } else { skip }
    } else if op == 0xc3 {
        s.with_pc(pair(n2, n1) as int)
    } else if op == 0xc4 {
        if !s.flags.z { s.call(n1, n2) } else { skip }
    } else if op == 0xcc {
        if s.flags.z { s.call(n1, n2) } else { skip }
    } else if op == 0xcd {
        s.call(n1, n2)
    } else if op == 0xd4 {
        if !s.flags.c { s.call(n1, n2) } else { skip }
    } else if op == 0xdc {
        if s.flags.c { s.call(n1, n2) } else { skip }
    } else if op == 0xc5 {
        s.push_word(s.bc())
    } else if op == 0xd5 {
        s.push_word(s.de())
    } else {
        s.push_word(s.hl())
    }
}

/// The CB prefix, the loads between A and high memory or an absolute
/// address, and CP d8; the other opcodes from 0xc0 up are not implemented.
pub open spec fn data_op(s: CpuView, op: u8, n1: u8, n2: u8) -> (CpuView, StepEvent) {
    if op == 0xcb {
        cb_op(s.with_pc(s.pc + 1), n1)
    } else if op == 0xe0 {
        (s.with_pc(s.pc + 1).store(0xff00 + n1, s.a), StepEvent::Continue)
    } else if op == 0xe2 {
        // LD (C),A
        (s.store(0xff00 + s.c, s.a), StepEvent::Continue)
    } else if op == 0xea {
        (s.with_pc(s.pc + 2).store(pair(n2, n1) as int, s.a), StepEvent::Continue)
    } else if op == 0xf0 {
        // LDH A,(a8); reading LY (0xff44) gives 0x90, as no display is emulated
        (
            CpuView { a: if n1 == 0x44 { 0x90 } else { s.mem(0xff00 + n1) }, ..s }.with_pc(s.pc + 1),
            StepEvent::Continue,
        )
    } else if op == 0xfe {
        (alu_cp_immediate(s.with_pc(s.pc + 1), n1), StepEvent::Continue)
    } else {
        (s, StepEvent::Unimplemented)
    }
}

/// CP d8: the flags of comparing the accumulator with `n`.
pub open spec fn alu_cp_immediate(s: CpuView, n: u8) -> CpuView {
    s.with_flags(alu8(7, s.a, n, s.flags).1)
}

/// The opcode `op`, with the two bytes that follow it, carried out in state
/// `s`, whose program counter already points past the opcode.
#[verifier::opaque]
pub open spec fn execute(s: CpuView, op: u8, n1: u8, n2: u8) -> (CpuView, StepEvent) {
    if op < 0x40 {
        low_op(s, op, n1, n2)
    } else if op < 0x80 {
        load_op(s, op)
    } else if op < 0xc0 {
        (alu_op(s, op), StepEvent::Continue)
    } else {
        high_op(s, op, n1, n2)
    }
}

/// One step of the core from state `s` with memory controller `m`: the
/// opcode and the two bytes after it are fetched; at address 0x100 the boot
/// ROM is replaced by the cartridge's first bytes; the program counter moves
/// past the opcode and the opcode is carried out.
pub open spec fn step(s: CpuView, m: MmuView) -> (CpuView, MmuView, StepEvent) {
    let op = s.mem(s.pc as int);
    let n1 = s.mem(s.pc + 1);
    let n2 = s.mem(s.pc + 2);
    let (s1, m1) = if s.pc == 0x100 { boot_rom_overwritten(s, m) } else { (s, m) };
    let (s2, ev) = execute(s1.with_pc(s1.pc + 1), op, n1, n2);
    (s2, m1, ev)
}

proof fn lemma_word_bytes(w: u16)
    by (bit_vector)
    ensures
        (w >> 8) as u8 == w / 256,
        (w & 0xff) as u8 == w % 256,
        ((w & 0xff00) >> 8) as u8 == w / 256,
{
}

proof fn lemma_join_bytes(hi: u8, lo: u8)
    by (bit_vector)
    ensures
        (lo as u16) | ((hi as u16) << 8) == hi as u16 * 256 + lo as u16,
{
}

proof fn lemma_sign_extend(n: u8)
    by (bit_vector)
    ensures
        n < 128 ==> (n as i8) as u16 == n as u16,
        n >= 128 ==> (n as i8) as u16 == n as u16 + 0xff00,
{
}

pub(crate) proof fn lemma_bit_test(v: u8, b: u8)
    by (bit_vector)
    requires
        b < 8,
    ensures
        (0 == (v & (1u8 << b))) == !((v >> b) & 1 == 1),
{
}

/// The high and the low byte of `w`.
fn split_word(w: u16) -> (r: (u8, u8))
    ensures
        r.0 == w / 256,
        r.1 == w % 256,
{
    proof {
        lemma_word_bytes(w);
    }
    ((w >> 8) as u8, (w & 0xff) as u8)
}

fn jump_relative(state: &mut StateSM83, n: u8)
    ensures
        final(state)@ == old(state)@.jump_relative(n),
{
    proof {
        lemma_sign_extend(n);
    }
    state.pc = state.pc.wrapping_add((n as i8) as u16);
}

fn execute_low(state: &mut StateSM83, op: u8, n1: u8, n2: u8) -> (ev: StepEvent)
    requires
        op < 0x40,
        op_defined(old(state)@, op),
    ensures
        (final(state)@, ev) == low_op(old(state)@, op, n1, n2),
{
    let r = op / 8;
    if op % 8 == 4 {
        let v = read_r8(state, r);
        let (v2, f) = inc_u8(v, state.flags);
        write_r8(state, r, v2);
        state.flags = f;
        StepEvent::Continue
    } else if op % 8 == 5 {
        let v = read_r8(state, r);
        let (v2, f) = dec_u8(v, state.flags);
        write_r8(state, r, v2);
        state.flags = f;
        if op == 0x35 {
            StepEvent::DecMemoryNotice
        } else {
            StepEvent::Continue
        }
    } else if op % 8 == 6 {
        state.pc += 1;
        write_r8(state, r, n1);
        StepEvent::Continue
    } else if op % 8 == 0 {
        execute_jump_column(state, op, n1)
    } else if op % 8 == 1 {
        execute_wide_load_column(state, op, n1, n2)
    } else if op % 8 == 2 {
        execute_indirect_column(state, op)
    } else if op % 8 == 3 {
        execute_wide_step_column(state, op);
        StepEvent::Continue
    } else if op == 0x17 {
        let (v, f) = rl_u8(state.a, state.flags);
        state.a = v;
        state.flags = f;
        state.flags.z = false;
        StepEvent::Continue
    } else {
        StepEvent::Unimplemented
    }
}

fn execute_jump_column(state: &mut StateSM83, op: u8, n1: u8) -> (ev: StepEvent)
    requires
        op < 0x40,
        op % 8 == 0,
        op_defined(old(state)@, op),
    ensures
        (final(state)@, ev) == jump_column(old(state)@, op, n1),
{
    match op {
        0x00 => StepEvent::Continue,
        0x10 => {
            state.pc += 1;
            StepEvent::StopNotice
        },
        0x18 => {
            state.pc += 1;
            jump_relative(state, n1);
            StepEvent::Continue
        },
        0x20 => {
            state.pc += 1;
            if !state.flags.z {
                jump_relative(state, n1);
            }
            StepEvent::Continue
        },
        0x28 => {
            state.pc += 1;
            if state.flags.z {
                jump_relative(state, n1);
            }
            StepEvent::Continue
        },
        _ => StepEvent::Unimplemented,
    }
}

fn execute_wide_load_column(state: &mut StateSM83, op: u8, n1: u8, n2: u8) -> (ev: StepEvent)
    requires
        op < 0x40,
        op % 8 == 1,
        op_defined(old(state)@, op),
    ensures
        (final(state)@, ev) == wide_load_column(old(state)@, op, n1, n2),
{
    match op {
        0x01 => {
            state.c = n1;
            state.b = n2;
        },
        0x11 => {
            state.d = n2;
            state.e = n1;
        },
        0x21 => {
            state.h = n2;
            state.l = n1;
        },
        0x31 => {
            state.sp = shift_nn(n2, n1) as usize;
        },
        _ => {
            return StepEvent::Unimplemented;
        },
    }
    state.pc += 2;
    StepEvent::Continue
}

fn execute_indirect_column(state: &mut StateSM83, op: u8) -> (ev: StepEvent)
    requires
        op < 0x40,
        op % 8 == 2,
    ensures
        (final(state)@, ev) == indirect_column(old(state)@, op),
{
    if op == 0x02 {
        state.memory[shift_nn(state.b, state.c) as usize] = state.a;
    } else if op == 0x1a {
        state.a = state.memory[shift_nn(state.d, state.e) as usize];
    } else if op == 0x22 || op == 0x32 {
        state.memory[shift_nn(state.h, state.l) as usize] = state.a;
        let (hi, lo) = step_word(state.h, state.l, op == 0x22);
        state.h = hi;
        state.l = lo;
    } else if op == 0x2a || op == 0x3a {
        state.a = state.memory[shift_nn(state.h, state.l) as usize];
        let (hi, lo) = step_word(state.h, state.l, op == 0x2a);
        state.h = hi;
        state.l = lo;
    } else {
        return StepEvent::Unimplemented;
    }
    StepEvent::Continue
}

/// The bytes of the 16-bit value `pair(hi, lo) + delta`, wrapping around.
fn step_word(hi: u8, lo: u8, up: bool) -> (r: (u8, u8))
    ensures
        r.0 == ((pair(hi, lo) + if up { 1int } else { -1int }) % 0x10000) / 256,
        r.1 == ((pair(hi, lo) + if up { 1int } else { -1int }) % 0x10000) % 256,
{
    let w = shift_nn(hi, lo);
    let w2 = if up { w.wrapping_add(1) } else { w.wrapping_sub(1) };
    split_word(w2)
}

fn execute_wide_step_column(state: &mut StateSM83, op: u8)
    requires
        op < 0x40,
        op % 8 == 3,
    ensures
        final(state)@ == wide_step_column(old(state)@, op),
{
    reveal(wide_step_column);
    let up = op < 0x08 || (op >= 0x10 && op < 0x18) || (op >= 0x20 && op < 0x28) || (op >= 0x30 && op < 0x38);
    if op == 0x03 || op == 0x0b {
        let (hi, lo) = step_word(state.b, state.c, up);
        state.b = hi;
        state.c = lo;
    } else if op == 0x13 || op == 0x1b {
        let (hi, lo) = step_word(state.d, state.e, up);
        state.d = hi;
        state.e = lo;
    } else if op == 0x23 || op == 0x2b {
        let (hi, lo) = step_word(state.h, state.l, up);
        state.h = hi;
        state.l = lo;
    } else if op == 0x33 {
        state.sp = state.sp.wrapping_add(1);
    } else {
        state.sp = state.sp.wrapping_sub(1);
    }
}

fn execute_load(state: &mut StateSM83, op: u8) -> (ev: StepEvent)
    requires
        0x40 <= op < 0x80,
    ensures
        (final(state)@, ev) == load_op(old(state)@, op),
{
    if op == 0x76 {
        StepEvent::HaltNotice
    } else if op == 0x7e {
        StepEvent::Unimplemented
    } else {
        let v = read_r8(state, op % 8);
        write_r8(state, (op - 0x40) / 8, v);
        StepEvent::Continue
    }
}

fn execute_alu(state: &mut StateSM83, op: u8)
    requires
        0x80 <= op < 0xc0,
    ensures
        final(state)@ == alu_op(old(state)@, op),
{
    let x = read_r8(state, op % 8);
    let (r, f) = alu_u8((op - 0x80) / 8, state.a, x, state.flags);
    state.a = r;
    state.flags = f;
}

fn execute_cb(state: &mut StateSM83, n1: u8) -> (ev: StepEvent)
    ensures
        (final(state)@, ev) == cb_op(old(state)@, n1),
{
    let register = n1 % 8;
    let val = read_r8(state, register);
    if n1 / 16 == 1 && (n1 / 8) % 2 == 0 {
        let (v, f) = rl_u8(val, state.flags);
        state.flags = f;
        write_r8(state, register, v);
        StepEvent::Continue
    } else if 4 <= n1 / 16 && n1 / 16 <= 7 {
        let bit: u8 = (n1 / 8) % 8;
        proof {
            lemma_bit_test(val, bit);
        }
        state.flags.z = 0 == (val & (1u8 << bit));
        state.flags.n = false;
        state.flags.h = true;
        StepEvent::Continue
    } else {
        StepEvent::Unimplemented
    }
}

/// Pushes the 16-bit value `pair(hi, lo)`.
fn push_bytes(state: &mut StateSM83, hi: u8, lo: u8)
    requires
        2 <= old(state).sp <= 0x10000,
    ensures
        final(state)@ == old(state)@.push_word(pair(hi, lo)),
{
    state.sp -= 2;
    state.memory[state.sp] = lo;
    state.memory[state.sp + 1] = hi;
}

/// The two bytes on top of the stack, high byte first; they are dropped.
fn pop_bytes(state: &mut StateSM83) -> (r: (u8, u8))
    requires
        old(state).sp + 1 < 0x10000,
    ensures
        r.0 == old(state)@.mem(old(state).sp + 1),
        r.1 == old(state)@.mem(old(state).sp as int),
        final(state)@ == old(state)@.drop_word(),
{
    let lo = state.memory[state.sp];
    let hi = state.memory[state.sp + 1];
    state.sp += 2;
    (hi, lo)
}

fn ret(state: &mut StateSM83)
    requires
        old(state).sp + 1 < 0x10000,
    ensures
        final(state)@ == old(state)@.ret(),
{
    let mut pc = state.memory[state.sp] as u16;
    pc |= (state.memory[state.sp + 1] as u16) << 8;
    proof {
        lemma_join_bytes(state.memory[state.sp + 1], state.memory[state.sp as int]);
    }
    state.pc = pc;
    state.sp += 2;
}

fn call(state: &mut StateSM83, n1: u8, n2: u8)
    requires
        old(state).pc + 2 <= 0xffff,
        2 <= old(state).sp <= 0x10000,
    ensures
        final(state)@ == old(state)@.call(n1, n2),
{
    state.pc += 2;
    proof {
        lemma_word_bytes(state.pc);
    }
    state.sp -= 2;
    state.memory[state.sp] = (state.pc & 0xff) as u8;
    state.memory[state.sp + 1] = ((state.pc & 0xff00) >> 8) as u8;
    state.pc = shift_nn(n2, n1);
}

fn execute_return(state: &mut StateSM83, op: u8)
    requires
        is_return_or_pop(op),
        op_defined(old(state)@, op),
    ensures
        final(state)@ == return_op(old(state)@, op),
{
    match op {
        0xc0 => if !state.flags.z {
            ret(state);
        },
        0xc8 => if state.flags.z {
            ret(state);
        },
        0xc9 => ret(state),
        0xd0 => if !state.flags.c {
            ret(state);
        },
        0xd8 => if state.flags.c {
            ret(state);
        },
        0xc1 => {
            let (hi, lo) = pop_bytes(state);
            state.b = hi;
            state.c = lo;
        },
        0xd1 => {
            let (hi, lo) = pop_bytes(state);
            state.d = hi;
            state.e = lo;
        },
        _ => {
            let (hi, lo) = pop_bytes(state);
            state.h = hi;
            state.l = lo;
        },
    }
}

fn execute_jump(state: &mut StateSM83, op: u8, n1: u8, n2: u8)
    requires
        is_jump_or_push(op),
        op_defined(old(state)@, op),
    ensures
        final(state)@ == jump_op(old(state)@, op, n1, n2),
{
    let taken = match op {
        0xc2 | 0xc4 => !state.flags.z,
        0xcc => state.flags.z,
        0xd4 => !state.flags.c,
        0xdc => state.flags.c,
        _ => true,
    };
    if !taken {
        state.pc = state.pc.wrapping_add(2);
        return ;
    }
    match op {
        0xc2 | 0xc3 => state.pc = shift_nn(n2, n1),
        0xc4 | 0xcc | 0xcd | 0xd4 | 0xdc => call(state, n1, n2),
        0xc5 => push_bytes(state, state.b, state.c),
        0xd5 => push_bytes(state, state.d, state.e),
        _ => push_bytes(state, state.h, state.l),
    }
}

fn execute_data(state: &mut StateSM83, op: u8, n1: u8, n2: u8) -> (ev: StepEvent)
    requires
        op >= 0xc0,
        !is_return_or_pop(op),
        !is_jump_or_push(op),
        op_defined(old(state)@, op),
    ensures
        (final(state)@, ev) == data_op(old(state)@, op, n1, n2),
{
    match op {
        0xcb => {
            state.pc += 1;
            execute_cb(state, n1)
        },
        0xe0 => {
            state.pc += 1;
            state.memory[(0xff00 + n1 as u16) as usize] = state.a;
            StepEvent::Continue
        },
        0xe2 => {
            state.memory[(0xff00 + state.c as u16) as usize] = state.a;
            StepEvent::Continue
        },
        0xea => {
            state.pc += 2;
            state.memory[shift_nn(n2, n1) as usize] = state.a;
            StepEvent::Continue
        },
        0xf0 => {
            state.pc += 1;
            state.a = state.memory[(0xff00 + n1 as u16) as usize];
            if 0xff00 + n1 as u16 == 0xff44 {
                state.a = 0x90;
            }
            StepEvent::Continue
        },
        0xfe => {
            state.pc += 1;
            let (_, f) = alu_u8(7, state.a, n1, state.flags);
            state.flags = f;
            StepEvent::Continue
        },
        _ => StepEvent::Unimplemented,
    }
}

fn execute_op(state: &mut StateSM83, op: u8, n1: u8, n2: u8) -> (ev: StepEvent)
    requires
        op_defined(old(state)@, op),
    ensures
        (final(state)@, ev) == execute(old(state)@, op, n1, n2),
{
    reveal(execute);
    if op < 0x40 {
        execute_low(state, op, n1, n2)
    } else if op < 0x80 {
        execute_load(state, op)
    } else if op < 0xc0 {
        execute_alu(state, op);
        StepEvent::Continue
    } else if matches!(op, 0xc0 | 0xc8 | 0xc9 | 0xd0 | 0xd8 | 0xc1 | 0xd1 | 0xe1) {
        execute_return(state, op);
        StepEvent::Continue
    } else if matches!(op, 0xc2 | 0xc3 | 0xc4 | 0xcc | 0xcd | 0xd4 | 0xdc | 0xc5 | 0xd5 | 0xe5) {
        execute_jump(state, op, n1, n2);
        StepEvent::Continue
    } else {
        execute_data(state, op, n1, n2)
    }
}

/// Carries out the instruction at the program counter: fetches the opcode
/// and the two bytes after it, lets the memory controller replace the boot
/// ROM when the program counter is 0x100, moves the program counter past the
/// opcode and carries the opcode out. The result says what the caller is to
/// report, and whether execution can go on.
pub fn emulate_sm83_op(state: &mut StateSM83, mmu: &mut MMU) -> (ev: StepEvent)
    requires
        step_defined(old(state)@),
    ensures
        (final(state)@, final(mmu)@, ev) == step(old(state)@, old(mmu)@),
{
    let pc = state.pc as usize;
    let op = state.memory[pc];
    let n1 = state.memory[pc + 1];
    let n2 = state.memory[pc + 2];
    if state.pc == 0x100 {
        mmu.overwrite_boot_rom(state);
    }
    state.pc += 1;
    execute_op(state, op, n1, n2)
}

/// Whether `emulate_sm83_op` may be called on `state`: otherwise the
/// instruction at the program counter would run the program counter or the
/// stack pointer out of range.
pub fn step_is_defined(state: &StateSM83) -> (b: bool)
    ensures
        b == step_defined(state@),
{
    if state.pc > 0xfffd {
        return false;
    }
    let op = state.memory[state.pc as usize];
    let pc = state.pc + 1;
    let sp = state.sp;
    let z = state.flags.z;
    let c = state.flags.c;
    let calls = op == 0xcd || (op == 0xc4 && !z) || (op == 0xcc && z) || (op == 0xd4 && !c)
        || (op == 0xdc && c);
    let takes_word = op == 0x01 || op == 0x11 || op == 0x21 || op == 0x31 || op == 0xea;
    let pops = op == 0xc1 || op == 0xd1 || op == 0xe1 || op == 0xc9 || (op == 0xc0 && !z)
        || (op == 0xc8 && z) || (op == 0xd0 && !c) || (op == 0xd8 && c);
    let pushes = op == 0xc5 || op == 0xd5 || op == 0xe5 || calls;
    let pc_in_range = !(takes_word || calls) || pc <= 0xfffd;
    let pop_in_range = !pops || sp < 0xffff;
    let push_in_range = !pushes || (2 <= sp && sp <= 0x10000);
    pc_in_range && pop_in_range && push_in_range
}

/// A 16-bit value is the pair of its high and its low byte.
pub proof fn lemma_pair_of_bytes(v: int)
    requires
        0 <= v < 0x10000,
    ensures
        pair((v / 256) as u8, (v % 256) as u8) == v,
{
}

} // verus!
