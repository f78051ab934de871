use vstd::prelude::*;

use crate::alu::{dec8, inc8};
use crate::disassembler::hexdump_text;
use crate::instruction_laws::{law_wide_increment_and_decrement, wide_register};
use crate::mmu::{
    boot_rom_copied, boot_rom_loaded, boot_rom_overwritten, cart_copied, cart_loaded, header_read, MmuView,
};
use crate::sm83cpu::{
    alu_op, execute, high_op, load_op, low_op, step, step_defined, wide_step_column, CpuView, Flags,
    StepEvent,
};

verus! {

/// An 8-bit decrement undoes an 8-bit increment and the other way round,
/// whatever the flags.
pub proof fn law_inc_dec_inverse(v: u8, f: Flags, g: Flags)
    ensures
        dec8(inc8(v, f).0, g).0 == v,
        inc8(dec8(v, f).0, g).0 == v,
{
}

/// The boot ROM is replaced at most once: replacing it again changes
/// nothing.
pub proof fn law_boot_rom_overwrite_once(s: CpuView, m: MmuView)
    ensures
        ({
            let (s1, m1) = boot_rom_overwritten(s, m);
            boot_rom_overwritten(s1, m1) == (s1, m1) && m1.boot_finished
        }),
{
}

/// A step of the core never changes the ROM images or the recorded ROM
/// type, and never maps the boot ROM back in.
pub proof fn law_step_keeps_roms(s: CpuView, m: MmuView)
    ensures
        ({
            let (s1, m1, ev) = step(s, m);
            &&& m1.boot_rom == m.boot_rom
            &&& m1.cart == m.cart
            &&& m1.rom_type == m.rom_type
            &&& m.boot_finished ==> m1.boot_finished
        }),
{
}

/// A cartridge image loaded into the controller and then copied to memory
/// stands at the start of memory, byte for byte.
pub proof fn law_loaded_cart_reaches_memory(s: CpuView, m: MmuView, image: Seq<u8>, i: int)
    requires
        s.memory.len() == 0x10000,
        m.cart.len() == 0x8000,
        image.len() <= 0x8000,
        0 <= i < image.len(),
    ensures
        cart_copied(s, cart_loaded(m, image)).memory[i] == image[i],
{
}

/// Once the cartridge is copied to memory, the ROM type that `read_header`
/// records is the byte at address 0x147 of memory.
pub proof fn law_header_matches_memory(s: CpuView, m: MmuView)
    requires
        s.memory.len() == 0x10000,
        m.cart.len() == 0x8000,
    ensures
        header_read(m).rom_type == cart_copied(s, m).memory[0x147],
{
}

/// The 16-bit register pair numbered `k`: 0 BC, 1 DE, 2 HL.
pub open spec fn reg_pair(s: CpuView, k: int) -> u16 {
    if k == 0 {
        s.bc()
    } else if k == 1 {
        s.de()
    } else {
        s.hl()
    }
}

/// POP gives back what PUSH pushed: a PUSH of a register pair followed by a
/// POP into a register pair copies the first pair into the second and
/// leaves the stack pointer where it was. When the POP stands at 0x100
/// while the boot ROM is still mapped in, the stack may be overwritten
/// before it is read; that case is left out.
pub proof fn law_pop_returns_pushed(s: CpuView, m: MmuView, k: int, j: int)
    requires
        0 <= k < 3,
        0 <= j < 3,
        s.memory.len() == 0x10000,
        step_defined(s),
        s.mem(s.pc as int) == 0xc5 + 0x10 * k,
        step_defined(step(s, m).0),
        step(s, m).0.mem(step(s, m).0.pc as int) == 0xc1 + 0x10 * j,
        step(s, m).0.pc != 0x100 || step(s, m).1.boot_finished,
    ensures
        ({
            let (s1, m1, e1) = step(s, m);
            let (s2, m2, e2) = step(s1, m1);
            &&& reg_pair(s2, j) == reg_pair(s, k)
            &&& s2.sp == s.sp
            &&& s2.pc == s.pc + 2
            &&& e1 == StepEvent::Continue
            &&& e2 == StepEvent::Continue
        }),
{
    let (s1, m1, e1) = step(s, m);
    lemma_execute_high(fetched(s, m), s.mem(s.pc as int), s.mem(s.pc + 1), s.mem(s.pc + 2));
    lemma_execute_high(fetched(s1, m1), s1.mem(s1.pc as int), s1.mem(s1.pc + 1), s1.mem(s1.pc + 2));
    let v = reg_pair(s, k);
    assert(s1.sp == s.sp - 2);
    assert(s1.mem(s1.sp as int) == v % 256);
    assert(s1.mem(s1.sp + 1) == v / 256);
}

/// RET comes back from CALL: a CALL followed, at the called address, by a
/// RET continues after the three bytes of the CALL, with the stack pointer,
/// the registers and the flags as they were. When the RET stands at 0x100
/// while the boot ROM is still mapped in, the stack may be overwritten
/// before it is read; that case is left out.
pub proof fn law_ret_returns_after_call(s: CpuView, m: MmuView)
    requires
        s.memory.len() == 0x10000,
        step_defined(s),
        s.mem(s.pc as int) == 0xcd,
        step_defined(step(s, m).0),
        step(s, m).0.mem(step(s, m).0.pc as int) == 0xc9,
        step(s, m).0.pc != 0x100 || step(s, m).1.boot_finished,
    ensures
        ({
            let (s1, m1, e1) = step(s, m);
            let (s2, m2, e2) = step(s1, m1);
            &&& s2.pc == s.pc + 3
            &&& s2.sp == s.sp
            &&& s2.a == s.a && s2.b == s.b && s2.c == s.c && s2.d == s.d && s2.e == s.e
            &&& s2.h == s.h && s2.l == s.l
            &&& s2.flags == s.flags
        }),
{
    let (s1, m1, e1) = step(s, m);
    lemma_execute_high(fetched(s, m), s.mem(s.pc as int), s.mem(s.pc + 1), s.mem(s.pc + 2));
    lemma_execute_high(fetched(s1, m1), s1.mem(s1.pc as int), s1.mem(s1.pc + 1), s1.mem(s1.pc + 2));
    let ret = (s.pc + 3) as u16;
    assert(s1.sp == s.sp - 2);
    assert(s1.mem(s1.sp as int) == ret % 256);
    assert(s1.mem(s1.sp + 1) == ret / 256);
}

/// The state just before the opcode at the program counter is carried out:
/// the boot ROM replaced if it is due, the program counter past the opcode.
pub open spec fn fetched(s: CpuView, m: MmuView) -> CpuView {
    let s1 = if s.pc == 0x100 { boot_rom_overwritten(s, m).0 } else { s };
    s1.with_pc(s1.pc + 1)
}

pub(crate) proof fn lemma_execute_low(s: CpuView, op: u8, n1: u8, n2: u8)
    requires
        op < 0x40,
    ensures
        execute(s, op, n1, n2) == low_op(s, op, n1, n2),
{
    reveal(execute);
}

pub(crate) proof fn lemma_execute_high(s: CpuView, op: u8, n1: u8, n2: u8)
    requires
        op >= 0xc0,
    ensures
        execute(s, op, n1, n2) == high_op(s, op, n1, n2),
{
    reveal(execute);
}

pub(crate) proof fn lemma_execute_load(s: CpuView, op: u8, n1: u8, n2: u8)
    requires
        0x40 <= op < 0x80,
    ensures
        execute(s, op, n1, n2) == load_op(s, op),
{
    reveal(execute);
}

pub(crate) proof fn lemma_execute_alu(s: CpuView, op: u8, n1: u8, n2: u8)
    requires
        0x80 <= op < 0xc0,
    ensures
        execute(s, op, n1, n2) == (alu_op(s, op), StepEvent::Continue),
{
    reveal(execute);
}

pub(crate) proof fn lemma_step_wide(s: CpuView, m: MmuView)
    requires
        s.mem(s.pc as int) < 0x40,
        s.mem(s.pc as int) % 8 == 3,
    ensures
        step(s, m).0 == wide_step_column(fetched(s, m), s.mem(s.pc as int)),
        step(s, m).2 == StepEvent::Continue,
{
    lemma_execute_low(fetched(s, m), s.mem(s.pc as int), s.mem(s.pc + 1), s.mem(s.pc + 2));
}

/// The opcode that increments (`up`) or decrements the register pair
/// numbered `k`, SP being 3.
pub open spec fn wide_step_opcode(k: int, up: bool) -> u8 {
    (0x03 + 0x10 * k + if up { 0int } else { 8int }) as u8
}

/// What the fetch leaves of the state: everything but memory and the
/// program counter, which moves past the opcode.
pub(crate) proof fn lemma_fetched(s: CpuView, m: MmuView)
    requires
        s.pc + 1 <= 0xffff,
    ensures
        fetched(s, m) == (CpuView { pc: (s.pc + 1) as u16, memory: fetched(s, m).memory, ..s }),
{
}

/// A 16-bit decrement undoes a 16-bit increment of the same register pair
/// (BC, DE, HL, or SP for `k == 3`), and neither touches the flags.
pub proof fn law_wide_dec_undoes_inc(s: CpuView, m: MmuView, k: int)
    requires
        0 <= k < 4,
        s.memory.len() == 0x10000,
        step_defined(s),
        s.mem(s.pc as int) == wide_step_opcode(k, true),
        step_defined(step(s, m).0),
        step(s, m).0.mem(step(s, m).0.pc as int) == wide_step_opcode(k, false),
    ensures
        ({
            let (s1, m1, e1) = step(s, m);
            let (s2, m2, e2) = step(s1, m1);
            &&& k < 3 ==> reg_pair(s2, k) == reg_pair(s, k)
            &&& s2.sp == s.sp
            &&& s2.flags == s.flags
            &&& s2.pc == s.pc + 2
        }),
{
    let (s1, m1, e1) = step(s, m);
    law_wide_increment_and_decrement(s, m);
    law_wide_increment_and_decrement(s1, m1);
    assert(wide_register(s, 0) == s.bc() && wide_register(s, 1) == s.de() && wide_register(s, 2) == s.hl());
    let (s2, m2, e2) = step(s1, m1);
    assert(wide_register(s2, 0) == s2.bc() && wide_register(s2, 1) == s2.de() && wide_register(s2, 2) == s2.hl());
    assert(wide_register(s2, 3) == s2.sp);
}

/// CP compares without changing anything but the flags: after CP r
/// (0xb8 to 0xbf) or CP d8 (0xfe) the registers, the stack pointer and the
/// memory are as the fetch left them, the program counter is past the
/// instruction, Z is set exactly when A equals the operand and C exactly
/// when A is below it. (CP (HL), 0xbe, compares with memory that the boot
/// ROM replacement may just have changed, so its flags are not stated
/// here.)
pub proof fn law_compare_changes_only_flags(s: CpuView, m: MmuView)
    requires
        step_defined(s),
        0xb8 <= s.mem(s.pc as int) <= 0xbf || s.mem(s.pc as int) == 0xfe,
    ensures
        ({
            let op = s.mem(s.pc as int);
            let x = if op == 0xfe { s.mem(s.pc + 1) } else { s.read_r8((op % 8) as int) };
            let (s2, m2, ev) = step(s, m);
            let p = fetched(s, m);
            &&& ev == StepEvent::Continue
            &&& s2 == CpuView { pc: s2.pc, flags: s2.flags, ..p }
            &&& s2.pc == s.pc + if op == 0xfe { 2int } else { 1int }
            &&& op != 0xbe ==> s2.flags.z == (s.a == x) && s2.flags.c == (s.a < x)
        }),
{
    let op = s.mem(s.pc as int);
    let p = fetched(s, m);
    if op == 0xfe {
        lemma_execute_high(p, op, s.mem(s.pc + 1), s.mem(s.pc + 2));
    } else {
        lemma_execute_alu(p, op, s.mem(s.pc + 1), s.mem(s.pc + 2));
    }
}

proof fn lemma_unimplemented_low(p: CpuView, op: u8, n1: u8, n2: u8)
    requires
        op < 0x40,
    ensures
        execute(p, op, n1, n2).1 == StepEvent::Unimplemented ==> execute(p, op, n1, n2).0 == p,
{
    lemma_execute_low(p, op, n1, n2);
}

proof fn lemma_unimplemented_high(p: CpuView, op: u8, n1: u8, n2: u8)
    requires
        op >= 0xc0,
    ensures
        execute(p, op, n1, n2).1 == StepEvent::Unimplemented ==> execute(p, op, n1, n2).0 == (
        if op == 0xcb {
            p.with_pc(p.pc + 1)
        } else {
            p
        }),
{
    lemma_execute_high(p, op, n1, n2);
}

proof fn lemma_unimplemented_middle(p: CpuView, op: u8, n1: u8, n2: u8)
    requires
        0x40 <= op < 0xc0,
    ensures
        execute(p, op, n1, n2).1 == StepEvent::Unimplemented ==> execute(p, op, n1, n2).0 == p,
{
    reveal(execute);
}

/// An instruction that the core does not implement changes nothing but the
/// program counter, which ends up just past the byte that named it: the
/// opcode, or after a CB prefix the byte that follows it. That byte is
/// what is reported.
pub proof fn law_unimplemented_changes_only_pc(s: CpuView, m: MmuView)
    requires
        s.memory.len() == 0x10000,
        m.cart.len() == 0x8000,
        step_defined(s),
    ensures
        ({
            let op = s.mem(s.pc as int);
            let (s2, m2, ev) = step(s, m);
            let p = fetched(s, m);
            ev == StepEvent::Unimplemented ==> {
                &&& s2 == CpuView { pc: s2.pc, ..p }
                &&& s2.pc == s.pc + if op == 0xcb { 2int } else { 1int }
                &&& s2.mem(s2.pc - 1) == s.mem(s2.pc - 1)
            }
        }),
{
    let op = s.mem(s.pc as int);
    let p = fetched(s, m);
    let n1 = s.mem(s.pc + 1);
    let n2 = s.mem(s.pc + 2);
    if op < 0x40 {
        lemma_unimplemented_low(p, op, n1, n2);
    } else if op < 0xc0 {
        lemma_unimplemented_middle(p, op, n1, n2);
    } else {
        lemma_unimplemented_high(p, op, n1, n2);
    }
}

/// A hex dump grows only at its end: the dump of the first `k` bytes is the
/// start of the dump of all of them.
pub proof fn law_hexdump_extends_prefix(bytes: Seq<u8>, k: int)
    requires
        0 <= k <= bytes.len(),
    ensures
        hexdump_text(bytes.subrange(0, k)).is_prefix_of(hexdump_text(bytes)),
    decreases bytes.len() - k,
{
    if k == bytes.len() {
        assert(bytes.subrange(0, k) =~= bytes);
    } else {
        law_hexdump_extends_prefix(bytes, k + 1);
        let short = bytes.subrange(0, k);
        let longer = bytes.subrange(0, k + 1);
        assert(longer.drop_last() =~= short);
        assert(hexdump_text(short).is_prefix_of(hexdump_text(longer)));
    }
}

/// After the boot ROM is copied to memory, every byte of the boot ROM
/// stands at its own address, and memory from 0x100 up is as it was.
pub proof fn law_boot_rom_copy_is_exact(s: CpuView, m: MmuView)
    requires
        s.memory.len() == 0x10000,
        m.boot_rom.len() == 0x100,
    ensures
        boot_rom_copied(s, m).memory.len() == 0x10000,
        forall|i: int| 0 <= i < 0x100 ==> boot_rom_copied(s, m).memory[i] == m.boot_rom[i],
        forall|i: int| 0x100 <= i < 0x10000 ==> boot_rom_copied(s, m).memory[i] == s.memory[i],
        boot_rom_copied(s, m) == (CpuView { memory: boot_rom_copied(s, m).memory, ..s }),
{
}

/// After the cartridge is copied to memory, every byte of the cartridge
/// stands at its own address, and memory from 0x8000 up is as it was.
pub proof fn law_cart_copy_is_exact(s: CpuView, m: MmuView)
    requires
        s.memory.len() == 0x10000,
        m.cart.len() == 0x8000,
    ensures
        cart_copied(s, m).memory.len() == 0x10000,
        forall|i: int| 0 <= i < 0x8000 ==> cart_copied(s, m).memory[i] == m.cart[i],
        forall|i: int| 0x8000 <= i < 0x10000 ==> cart_copied(s, m).memory[i] == s.memory[i],
        cart_copied(s, m) == (CpuView { memory: cart_copied(s, m).memory, ..s }),
{
}

/// Loading an image puts it at the start of the boot ROM or the cartridge
/// byte for byte and keeps the rest; nothing else in the controller
/// changes.
pub proof fn law_loading_is_exact(m: MmuView, image: Seq<u8>)
    requires
        m.boot_rom.len() == 0x100,
        m.cart.len() == 0x8000,
    ensures
        image.len() <= 0x100 ==> {
            let b = boot_rom_loaded(m, image);
            &&& b.boot_rom.len() == 0x100
            &&& forall|i: int| 0 <= i < image.len() ==> b.boot_rom[i] == image[i]
            &&& forall|i: int| image.len() <= i < 0x100 ==> b.boot_rom[i] == m.boot_rom[i]
            &&& b.cart == m.cart && b.rom_type == m.rom_type && b.boot_finished == m.boot_finished
        },
        image.len() <= 0x8000 ==> {
            let c = cart_loaded(m, image);
            &&& c.cart.len() == 0x8000
            &&& forall|i: int| 0 <= i < image.len() ==> c.cart[i] == image[i]
            &&& forall|i: int| image.len() <= i < 0x8000 ==> c.cart[i] == m.cart[i]
            &&& c.boot_rom == m.boot_rom && c.rom_type == m.rom_type && c.boot_finished == m.boot_finished
        },
{
}

/// Replacing the boot ROM, when it is still mapped in, puts the first 0x100
/// bytes of the cartridge at the start of memory, keeps the rest of memory
/// and the registers, and records that booting is finished; once booting is
/// finished it changes nothing.
pub proof fn law_boot_rom_replacement_is_exact(s: CpuView, m: MmuView)
    requires
        s.memory.len() == 0x10000,
        m.cart.len() == 0x8000,
    ensures
        ({
            let (t, m2) = boot_rom_overwritten(s, m);
            &&& m2.boot_finished
            &&& m2.cart == m.cart && m2.boot_rom == m.boot_rom && m2.rom_type == m.rom_type
            &&& t == CpuView { memory: t.memory, ..s }
            &&& t.memory.len() == 0x10000
            &&& m.boot_finished ==> t.memory == s.memory
            &&& !m.boot_finished ==> forall|i: int| 0 <= i < 0x100 ==> t.memory[i] == m.cart[i]
            &&& forall|i: int| 0x100 <= i < 0x10000 ==> t.memory[i] == s.memory[i]
        }),
{
}

} // verus!
