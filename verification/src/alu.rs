use vstd::prelude::*;

use crate::sm83cpu::Flags;

verus! {

/// Result and flags of an 8-bit increment.
pub open spec fn inc8(v: u8, f: Flags) -> (u8, Flags) {
    let r = ((v + 1) % 256) as u8;
    (r, Flags { z: r == 0, n: false, h: v % 16 == 15, c: f.c })
}

/// Result and flags of an 8-bit decrement.
pub open spec fn dec8(v: u8, f: Flags) -> (u8, Flags) {
    let r = ((v - 1) % 256) as u8;
    (r, Flags { z: r == 0, n: true, h: v % 16 == 0, c: f.c })
}

/// Result and flags of a rotate left through the carry flag.
pub open spec fn rl8(v: u8, f: Flags) -> (u8, Flags) {
    let r = ((2 * v + (if f.c { 1int } else { 0int })) % 256) as u8;
    (r, Flags { z: r == 0, n: false, h: false, c: v >= 128 })
}

/// The carry flag as a number.
pub open spec fn carry_in(f: Flags) -> int {
    if f.c { 1 } else { 0 }
}

/// Result and flags of the accumulator operation numbered `kind`
/// (0 ADD, 1 ADC, 2 SUB, 3 SBC, 4 AND, 5 XOR, 6 OR, 7 CP) applied to the
/// accumulator `a` and the operand `x`; ADC and SBC take the carry flag in.
pub open spec fn alu8(kind: int, a: u8, x: u8, f: Flags) -> (u8, Flags) {
    let cin = if kind == 1 || kind == 3 { carry_in(f) } else { 0 };
    if kind == 0 || kind == 1 {
        let t = a + x + cin;
        let r = (t % 256) as u8;
        (r, Flags { z: r == 0, n: false, h: a % 16 + x % 16 + cin >= 16, c: t >= 256 })
    } else if kind == 2 || kind == 3 {
        let t = a - x - cin;
        let r = (t % 256) as u8;
        (r, Flags { z: r == 0, n: true, h: a % 16 < x % 16 + cin, c: a < x + cin })
    } else if kind == 4 {
        let r = a & x;
        (r, Flags { z: r == 0, n: false, h: true, c: false })
    } else if kind == 5 {
        let r = a ^ x;
        (r, Flags { z: r == 0, n: false, h: false, c: false })
    } else if kind == 6 {
        let r = a | x;
        (r, Flags { z: r == 0, n: false, h: false, c: false })
    } else {
        (a, Flags { z: a == x, n: true, h: a % 16 < x % 16, c: a < x })
    }
}

pub(crate) proof fn lemma_nibble(v: u8)
    by (bit_vector)
    ensures
        v & 0xf == v % 16,
        v & 0xf <= 15,
{
}

proof fn lemma_nibble_add(p: u8, q: u8)
    by (bit_vector)
    requires
        p <= 15,
        q <= 15,
    ensures
        (0x10u8 == ((p + q) as u8 & 0x10)) == (p + q >= 16),
{
}

proof fn lemma_nibble_sub(p: u8, q: u8)
    by (bit_vector)
    requires
        p <= 15,
        q <= 15,
    ensures
        p < q ==> 0x10u8 == ((p - q + 256) as u8 & 0x10),
        p >= q ==> 0x10u8 != ((p - q) as u8 & 0x10),
{
}

proof fn lemma_rotate(v: u8)
    by (bit_vector)
    ensures
        ((v as u16) << 1) | 1 == 2 * (v as u16) + 1,
        (v as u16) << 1 == 2 * (v as u16),
        ((2 * (v as u16) + 1) as u16 & 0xff) as u8 == ((2 * v + 1) % 256) as u8,
        ((2 * (v as u16)) as u16 & 0xff) as u8 == ((2 * v) % 256) as u8,
        (0x100u16 == ((2 * (v as u16) + 1) as u16 & 0x100)) == (v >= 128),
        (0x100u16 == ((2 * (v as u16)) as u16 & 0x100)) == (v >= 128),
{
}

pub(crate) fn inc_u8(v: u8, f: Flags) -> (res: (u8, Flags))
    ensures
        res == inc8(v, f),
{
    proof {
        lemma_nibble(v);
        lemma_nibble_add(v & 0xf, 1);
    }
    let h = 0x10 == (v & 0xf).wrapping_add(1) & 0x10;
    let r = v.wrapping_add(1);
    (r, Flags { z: r == 0, n: false, h, c: f.c })
}

pub(crate) fn dec_u8(v: u8, f: Flags) -> (res: (u8, Flags))
    ensures
        res == dec8(v, f),
{
    proof {
        lemma_nibble(v);
        lemma_nibble_sub(v & 0xf, 1);
    }
    let h = 0x10 == (v & 0xf).wrapping_sub(1) & 0x10;
    let r = v.wrapping_sub(1);
    (r, Flags { z: r == 0, n: true, h, c: f.c })
}

pub(crate) fn rl_u8(v: u8, f: Flags) -> (res: (u8, Flags))
    ensures
        res == rl8(v, f),
{
    proof {
        lemma_rotate(v);
    }
    let tmp: u16 = if f.c { ((v as u16) << 1) | 0x1 } else { (v as u16) << 1 };
    let r = (tmp & 0xff) as u8;
    let c = 0x100 == tmp & 0x100;
    (r, Flags { z: r == 0, n: false, h: false, c })
}

fn add_u8(a: u8, x: u8, cin: u8) -> (res: (u8, Flags))
    requires
        cin <= 1,
    ensures
        res.0 == (a + x + cin) % 256,
        res.1 == (Flags { z: res.0 == 0, n: false, h: a % 16 + x % 16 + cin >= 16, c: a + x + cin >= 256 }),
{
    proof {
        lemma_nibble(a);
        lemma_nibble(x);
    }
    let h = (a & 0xf) + (x & 0xf) + cin > 0xf;
    let tmp: u16 = a as u16 + x as u16 + cin as u16;
    let r = (tmp % 256) as u8;
    (r, Flags { z: r == 0, n: false, h, c: tmp > 0xff })
}

fn sub_u8(a: u8, x: u8, cin: u8) -> (res: (u8, Flags))
    requires
        cin <= 1,
    ensures
        res.0 == (a - x - cin) % 256,
        res.1 == (Flags { z: res.0 == 0, n: true, h: a % 16 < x % 16 + cin, c: a < x + cin }),
{
    proof {
        lemma_nibble(a);
        lemma_nibble(x);
    }
    let h = (a & 0xf) < (x & 0xf) + cin;
    let c = (a as u16) < x as u16 + cin as u16;
    let r = ((a as u16 + 512 - x as u16 - cin as u16) % 256) as u8;
    (r, Flags { z: r == 0, n: true, h, c })
}

pub(crate) fn alu_u8(kind: u8, a: u8, x: u8, f: Flags) -> (res: (u8, Flags))
    requires
        kind < 8,
    ensures
        res == alu8(kind as int, a, x, f),
{
    let cin: u8 = if (kind == 1 || kind == 3) && f.c { 1 } else { 0 };
    if kind == 0 || kind == 1 {
        add_u8(a, x, cin)
    } else if kind == 2 || kind == 3 {
        sub_u8(a, x, cin)
    } else if kind == 4 {
        let r = a & x;
        (r, Flags { z: 0 == r, n: false, h: true, c: false })
    } else if kind == 5 {
        let r = a ^ x;
        (r, Flags { z: 0 == r, n: false, h: false, c: false })
    } else if kind == 6 {
        let r = a | x;
        (r, Flags { z: 0 == r, n: false, h: false, c: false })
    } else {
        proof {
            lemma_nibble(a);
            lemma_nibble(x);
        }
        let h = (a & 0xf) < (x & 0xf);
        (a, Flags { z: a == x, n: true, h, c: a < x })
    }
}

} // verus!
