use vstd::prelude::*;

use crate::sm83cpu::StateSM83;
use vstd::string::StringSliceAdditionalSpecFns;

verus! {

/// The operand bytes that a disassembled instruction shows after its text,
/// in hexadecimal.
#[derive(Clone, Copy, PartialEq, Eq, Structural, Debug)]
pub enum Operand {
    /// No operand is shown.
    Absent,
    /// One byte is shown.
    Byte(u8),
    /// Two bytes are shown, the first one here first: the high byte of a
    /// little-endian 16-bit operand, then its low byte.
    Word(u8, u8),
}

/// One disassembled instruction: `text`, then the operand in hexadecimal,
/// then `suffix`; `opbytes` is how far the disassembler moves on.
#[derive(Clone, Copy, Debug)]
pub struct Disassembly {
    pub text: &'static str,
    pub operand: Operand,
    pub suffix: &'static str,
    pub opbytes: usize,
}

/// The text that the disassembler shows for each opcode, before its
/// operand. It names most opcodes in 8080 style.
pub const MNEMONICS: [&'static str; 256] = [
    "NOP",
    "LD     B,#$",
    "STAX   B",
    "INX    B",
    "INC    B",
    "DEC    B",
    "MVI    B,#$",
    "RLC",
    "NOP",
    "DAD    B",
    "LDAX   B",
    "DCX    B",
    "INC C",
    "DEC    C",
    "LD C,",
    "RRC",
    "NOP",
    "LD DE,",
    "STAX   D",
    "INX D",
    "INC D",
    "DEC D",
    "MVI    D,#$",
    "RAL",
    "NOP",
    "DAD    D",
    "LDAX   D",
    "DCX D",
    "INC E",
    "DEC E",
    "MVI    E,#$",
    "RAR",
    "JR NZ,",
    "LD HL,$",
    "SHLD   $",
    "INX    H",
    "INC    H",
    "DEC    H",
    "MVI    H,#$",
    "DAA",
    "NOP",
    "DAD    H",
    "LHLD   $",
    "DEC H",
    "INC L",
    "DEC L",
    "MVI    L,#$",
    "CMA",
    "NOP",
    "LD SP,$",
    "LD (HL-),A",
    "INX SP",
    "INC M",
    "DEC M",
    "MVI    M,#$",
    "STC",
    "NOP",
    "DAD    SP",
    "LDA    $",
    "DEC SP",
    "INC A",
    "DEC A",
    "LD A,",
    "CMC",
    "MOV B,B",
    "MOV B,C",
    "MOV B,D",
    "MOV B,E",
    "MOV B,H",
    "MOV B,L",
    "MOV B,M",
    "MOV B,A",
    "MOV C,B",
    "MOV C,C",
    "MOV C,D",
    "MOV C,E",
    "MOV C,H",
    "MOV C,L",
    "MOV C,M",
    "MOV C,A",
    "MOV D,B",
    "MOV D,C",
    "MOV D,D",
    "MOV D.E",
    "MOV D,H",
    "MOV D,L",
    "MOV D,M",
    "MOV D,A",
    "MOV E,B",
    "MOV E,C",
    "MOV E,D",
    "MOV E,E",
    "MOV E,H",
    "MOV E,L",
    "MOV E,M",
    "MOV E,A",
    "MOV H,B",
    "MOV H,C",
    "MOV H,D",
    "MOV H.E",
    "MOV H,H",
    "MOV H,L",
    "MOV H,M",
    "MOV H,A",
    "MOV L,B",
    "MOV L,C",
    "MOV L,D",
    "MOV L,E",
    "MOV L,H",
    "MOV L,L",
    "MOV L,M",
    "MOV L,A",
    "MOV M,B",
    "MOV M,C",
    "MOV M,D",
    "MOV M.E",
    "MOV M,H",
    "MOV M,L",
    "HLT",
    "MOV M,A",
    "MOV A,B",
    "MOV A,C",
    "MOV A,D",
    "MOV A,E",
    "MOV A,H",
    "MOV A,L",
    "MOV A,M",
    "MOV A,A",
    "ADD B",
    "ADD C",
    "ADD D",
    "ADD E",
    "ADD H",
    "ADD L",
    "ADD M",
    "ADD A",
    "ADC B",
    "ADC C",
    "ADC D",
    "ADC E",
    "ADC H",
    "ADC L",
    "ADC M",
    "ADC A",
    "SUB B",
    "SUB C",
    "SUB D",
    "SUB E",
    "SUB H",
    "SUB L",
    "SUB M",
    "SUB A",
    "SBB B",
    "SBB C",
    "SBB D",
    "SBB E",
    "SBB H",
    "SBB L",
    "SBB M",
    "SBB A",
    "ANA B",
    "ANA C",
    "ANA D",
    "ANA E",
    "ANA H",
    "ANA L",
    "ANA M",
    "ANA A",
    "XOR B",
    "XOR C",
    "XOR D",
    "XOR E",
    "XOR H",
    "XOR L",
    "XOR M",
    "XOR A",
    "ORA B",
    "ORA C",
    "ORA D",
    "ORA E",
    "ORA H",
    "ORA L",
    "ORA M",
    "ORA A",
    "CMP B",
    "CMP C",
    "CMP D",
    "CMP E",
    "CMP H",
    "CMP L",
    "CMP M",
    "CMP A",
    "RNZ",
    "POP    B",
    "JNZ    $",
    "JMP    $",
    "CNZ    $",
    "PUSH   B",
    "ADI    #$",
    "RST    0",
    "RZ",
    "RET",
    "JZ     $",
    "PREFIX ",
    "CZ     $",
    "CALL   $",
    "ACI    #$",
    "RST    1",
    "RNC",
    "POP    D",
    "JNC    $",
    "OUT    #$",
    "CNC    $",
    "PUSH   D",
    "SUI    #$",
    "RST    2",
    "RC",
    "RET",
    "JC     $",
    "IN     #$",
    "CC     $",
    "CALL   $",
    "SBI    #$",
    "RST    3",
    "LDH (0xff",
    "POP    H",
    "LD (C),A",
    "XTHL",
    "CPO    $",
    "PUSH   H",
    "ANI    #$",
    "RST    4",
    "RPE",
    "PCHL",
    "JPE    $",
    "XCHG",
    "CPE     $",
    "CALL   $",
    "XRI    #$",
    "RST    5",
    "RP",
    "POP    PSW",
    "JP     $",
    "DI",
    "CP     $",
    "PUSH   PSW",
    "ORI    #$",
    "RST    6",
    "RM",
    "SPHL",
    "JM     $",
    "EI",
    "CM     $",
    "CALL   $",
    "CPI    #$",
    "RST    7",
];

/// The opcodes shown with a two-byte operand.
pub open spec fn shows_word(op: u8) -> bool {
    op == 0x01 || op == 0x11 || op == 0x21 || op == 0x22 || op == 0x2a || op == 0x31
        || op == 0x3a || op == 0xc2 || op == 0xc3 || op == 0xc4 || op == 0xca || op == 0xcc
        || op == 0xcd || op == 0xd2 || op == 0xd4 || op == 0xda || op == 0xdc || op == 0xdd
        || op == 0xe4 || op == 0xea || op == 0xec || op == 0xed || op == 0xf2 || op == 0xf4
        || op == 0xfa || op == 0xfc || op == 0xfd
}

/// The opcodes shown with a one-byte operand.
pub open spec fn shows_byte(op: u8) -> bool {
    op == 0x06 || op == 0x0e || op == 0x16 || op == 0x1e || op == 0x20 || op == 0x26
        || op == 0x2e || op == 0x36 || op == 0x3e || op == 0xc6 || op == 0xce || op == 0xd3
        || op == 0xd6 || op == 0xdb || op == 0xde || op == 0xe0 || op == 0xe6 || op == 0xee
        || op == 0xf6 || op == 0xfe
}

/// How many bytes the disassembler moves past the opcode `op`: three after a
/// two-byte operand, two after a one-byte operand and after the CB prefix,
/// one otherwise; LDH (a8),A (0xe0) shows its operand but counts one byte.
pub open spec fn op_length(op: u8) -> usize {
    if shows_word(op) {
        3
    } else if (shows_byte(op) && op != 0xe0) || op == 0xcb {
        2
    } else {
        1
    }
}

/// The instruction at `pc` in `buffer` can be disassembled: its opcode and
/// the operand bytes that it shows lie within the buffer, and after a CB
/// prefix the second byte is not a multiple of 16, for which no text exists.
pub open spec fn disassembly_defined(buffer: Seq<u8>, pc: int) -> bool {
    &&& 0 <= pc < buffer.len()
    &&& shows_word(buffer[pc]) ==> pc + 2 < buffer.len()
    &&& shows_byte(buffer[pc]) ==> pc + 1 < buffer.len()
    &&& buffer[pc] == 0xcb ==> pc + 1 < buffer.len() && buffer[pc + 1] % 16 != 0
}

/// The disassembly of the instruction at `pc` in `buffer`. After the CB
/// prefix the second byte is shown in hexadecimal, except 0x7c, which is
/// shown as BIT 7,H.
pub open spec fn disassembly(buffer: Seq<u8>, pc: int) -> Disassembly {
    let op = buffer[pc];
    if op == 0xcb {
        if buffer[pc + 1] == 0x7c {
            Disassembly { text: "PREFIX BIT 7,H", operand: Operand::Absent, suffix: "", opbytes: 2 }
        } else {
            Disassembly {
                text: "PREFIX 0x",
                operand: Operand::Byte(buffer[pc + 1]),
                suffix: "",
                opbytes: 2,
            }
        }
    } else {
        Disassembly {
            text: MNEMONICS[op as int],
            operand: if shows_word(op) {
                Operand::Word(buffer[pc + 2], buffer[pc + 1])
            } else if shows_byte(op) {
                Operand::Byte(buffer[pc + 1])
            } else {
                Operand::Absent
            },
            suffix: if op == 0xe0 {
                "),A"
            } else {
                ""
            },
            opbytes: op_length(op),
        }
    }
}

fn shows_word_exec(op: u8) -> (b: bool)
    ensures
        b == shows_word(op),
{
    matches!(
        op,
        0x01 | 0x11 | 0x21 | 0x22 | 0x2a | 0x31 | 0x3a | 0xc2 | 0xc3 | 0xc4 | 0xca
            | 0xcc | 0xcd | 0xd2 | 0xd4 | 0xda | 0xdc | 0xdd | 0xe4 | 0xea | 0xec | 0xed
            | 0xf2 | 0xf4 | 0xfa | 0xfc | 0xfd
    )
}

fn shows_byte_exec(op: u8) -> (b: bool)
    ensures
        b == shows_byte(op),
{
    matches!(
        op,
        0x06 | 0x0e | 0x16 | 0x1e | 0x20 | 0x26 | 0x2e | 0x36 | 0x3e | 0xc6 | 0xce
            | 0xd3 | 0xd6 | 0xdb | 0xde | 0xe0 | 0xe6 | 0xee | 0xf6 | 0xfe
    )
}

/// Whether `disassemble_sm83_op` may be called on `buffer` and `pc`.
pub fn disassembly_is_defined(buffer: &Vec<u8>, pc: usize) -> (b: bool)
    ensures
        b == disassembly_defined(buffer@, pc as int),
{
    if pc >= buffer.len() {
        return false;
    }
    let op = buffer[pc];
    let room = buffer.len() - pc;
    if shows_word_exec(op) && room < 3 {
        return false;
    }
    if shows_byte_exec(op) && room < 2 {
        return false;
    }
    if op == 0xcb {
        if room < 2 {
            return false;
        }
        return buffer[pc + 1] % 16 != 0;
    }
    true
}

/// Disassembles the instruction at `pc` in `buffer`: the text to show for
/// it and how many bytes it takes.
pub fn disassemble_sm83_op(buffer: &Vec<u8>, pc: usize) -> (d: Disassembly)
    requires
        disassembly_defined(buffer@, pc as int),
    ensures
        d == disassembly(buffer@, pc as int),
        1 <= d.opbytes <= 3,
{
    let len = buffer.len();
    assert(buffer@.len() == len);
    let op = buffer[pc];
    if op == 0xcb {
        let sub = buffer[pc + 1];
        if sub == 0x7c {
            return Disassembly {
                text: "PREFIX BIT 7,H",
                operand: Operand::Absent,
                suffix: "",
                opbytes: 2,
            };
        }
        return Disassembly { text: "PREFIX 0x", operand: Operand::Byte(sub), suffix: "", opbytes: 2 };
    }
    let mut opbytes: usize = 1;
    let operand = if shows_word_exec(op) {
        opbytes = 3;
        Operand::Word(buffer[pc + 2], buffer[pc + 1])
    } else if shows_byte_exec(op) {
        if op != 0xe0 {
            opbytes = 2;
        }
        Operand::Byte(buffer[pc + 1])
    } else {
        Operand::Absent
    };
    let suffix = if op == 0xe0 {
        "),A"
    } else {
        ""
    };
    Disassembly { text: MNEMONICS[op as usize], operand, suffix, opbytes }
}

/// The ASCII code of the lowercase hexadecimal digit `d`.
pub open spec fn hex_digit(d: int) -> u8 {
    if d < 10 {
        (48 + d) as u8
    } else {
        (87 + d) as u8
    }
}

/// The lowercase hexadecimal digits of `n`, without leading zeros.
pub open spec fn hex_digits(n: nat) -> Seq<u8>
    decreases n,
{
    if n < 16 {
        seq![hex_digit(n as int)]
    } else {
        hex_digits(n / 16).push(hex_digit((n % 16) as int))
    }
}

/// `n` in lowercase hexadecimal, padded with zeros to four digits at least.
pub open spec fn hex_offset(n: nat) -> Seq<u8> {
    let pad: nat = if n < 0x10 {
        3
    } else if n < 0x100 {
        2
    } else if n < 0x1000 {
        1
    } else {
        0
    };
    Seq::new(pad, |i: int| 48u8) + hex_digits(n)
}

/// The byte `b` as two lowercase hexadecimal digits.
pub open spec fn hex_byte(b: u8) -> Seq<u8> {
    seq![hex_digit((b / 16) as int), hex_digit((b % 16) as int)]
}

/// What a hex dump shows for the byte `b` at offset `i`: each line of
/// sixteen bytes starts with its offset and a space, each byte is followed
/// by a space, and a line ends after its sixteenth byte.
pub open spec fn hexdump_cell(i: nat, b: u8) -> Seq<u8> {
    (if i % 16 == 0 {
        hex_offset(i).push(32u8)
    } else {
        Seq::empty()
    }) + hex_byte(b).push(32u8) + (if i % 16 == 15 {
        seq![10u8]
    } else {
        Seq::empty()
    })
}

/// The hex dump of `bytes` as ASCII text.
pub open spec fn hexdump_text(bytes: Seq<u8>) -> Seq<u8>
    decreases bytes.len(),
{
    if bytes.len() == 0 {
        Seq::empty()
    } else {
        hexdump_text(bytes.drop_last()) + hexdump_cell((bytes.len() - 1) as nat, bytes.last())
    }
}

fn hex_digit_exec(d: u8) -> (c: u8)
    requires
        d < 16,
    ensures
        c == hex_digit(d as int),
{
    if d < 10 {
        48 + d
    } else {
        87 + d
    }
}

fn push_hex_digits(out: &mut Vec<u8>, n: usize)
    ensures
        final(out)@ == old(out)@ + hex_digits(n as nat),
    decreases n,
{
    if n >= 16 {
        push_hex_digits(out, n / 16);
    }
    out.push(hex_digit_exec((n % 16) as u8));
    proof {
        if n >= 16 {
            assert(final(out)@ =~= old(out)@ + hex_digits(n as nat));
        } else {
            assert(final(out)@ =~= old(out)@ + hex_digits(n as nat));
        }
    }
}

fn push_hex_offset(out: &mut Vec<u8>, n: usize)
    ensures
        final(out)@ == old(out)@ + hex_offset(n as nat),
{
    let ghost start = out@;
    if n < 0x10 {
        out.push(48);
    }
    if n < 0x100 {
        out.push(48);
    }
    if n < 0x1000 {
        out.push(48);
    }
    proof {
        let pad: nat = if n < 0x10 { 3 } else if n < 0x100 { 2 } else if n < 0x1000 { 1 } else { 0 };
        assert(out@ =~= start + Seq::new(pad, |k: int| 48u8));
    }
    push_hex_digits(out, n);
    assert(out@ =~= start + hex_offset(n as nat));
}

fn push_hex_byte(out: &mut Vec<u8>, b: u8)
    ensures
        final(out)@ == old(out)@ + hex_byte(b),
{
    out.push(hex_digit_exec(b / 16));
    out.push(hex_digit_exec(b % 16));
    assert(out@ =~= old(out)@ + hex_byte(b));
}

fn push_cell(out: &mut Vec<u8>, i: usize, b: u8)
    ensures
        final(out)@ == old(out)@ + hexdump_cell(i as nat, b),
{
    let ghost start = out@;
    if i % 16 == 0 {
        push_hex_offset(out, i);
        out.push(32);
    }
    let ghost mid = out@;
    assert(mid =~= start + (if i % 16 == 0 { hex_offset(i as nat).push(32u8) } else { Seq::empty() }));
    push_hex_byte(out, b);
    out.push(32);
    if i % 16 == 15 {
        out.push(10);
    }
    assert(out@ =~= start + hexdump_cell(i as nat, b));
}

fn push_str(out: &mut Vec<u8>, text: &str)
    ensures
        final(out)@ == old(out)@ + text.spec_bytes(),
{
    let bytes = text.as_bytes();
    let n = bytes.len();
    for i in 0..n
        invariant
            n == bytes@.len(),
            bytes@ == text.spec_bytes(),
            out@ == old(out)@ + bytes@.subrange(0, i as int),
    {
        out.push(bytes[i]);
        assert(bytes@.subrange(0, i + 1) =~= bytes@.subrange(0, i as int).push(bytes@[i as int]));
    }
    assert(bytes@.subrange(0, n as int) =~= bytes@);
}

/// The operand of a disassembled instruction in lowercase hexadecimal, two
/// digits per byte.
pub open spec fn operand_hex(operand: Operand) -> Seq<u8> {
    match operand {
        Operand::Absent => Seq::empty(),
        Operand::Byte(b) => hex_byte(b),
        Operand::Word(hi, lo) => hex_byte(hi) + hex_byte(lo),
    }
}

/// The line that shows the instruction at `pc` in `buffer`: the address in
/// hexadecimal padded to four digits, a comma, the opcode byte in
/// hexadecimal, a colon and a space, then the disassembly's text, operand
/// and suffix, and a newline.
pub open spec fn disassembly_text(buffer: Seq<u8>, pc: int) -> Seq<u8> {
    let d = disassembly(buffer, pc);
    hex_offset(pc as nat) + seq![44u8] + hex_byte(buffer[pc]) + seq![58u8, 32u8] + d.text.spec_bytes()
        + operand_hex(d.operand) + d.suffix.spec_bytes() + seq![10u8]
}

/// The ASCII line that shows the instruction at `pc` in `buffer`, ending in
/// a newline.
pub fn disassembly_line(buffer: &Vec<u8>, pc: usize) -> (line: Vec<u8>)
    requires
        disassembly_defined(buffer@, pc as int),
    ensures
        line@ == disassembly_text(buffer@, pc as int),
{
    let d = disassemble_sm83_op(buffer, pc);
    let mut out: Vec<u8> = Vec::new();
    push_hex_offset(&mut out, pc);
    out.push(44);
    push_hex_byte(&mut out, buffer[pc]);
    out.push(58);
    out.push(32);
    push_str(&mut out, d.text);
    match d.operand {
        Operand::Absent => {},
        Operand::Byte(b) => push_hex_byte(&mut out, b),
        Operand::Word(hi, lo) => {
            push_hex_byte(&mut out, hi);
            push_hex_byte(&mut out, lo);
        },
    }
    push_str(&mut out, d.suffix);
    out.push(10);
    assert(out@ =~= disassembly_text(buffer@, pc as int));
    out
}

fn push_hexdump(out: &mut Vec<u8>, bytes: &[u8])
    ensures
        final(out)@ == old(out)@ + hexdump_text(bytes@),
{
    let n = bytes.len();
    for i in 0..n
        invariant
            n == bytes@.len(),
            out@ == old(out)@ + hexdump_text(bytes@.subrange(0, i as int)),
    {
        push_cell(out, i, bytes[i]);
        proof {
            let next = bytes@.subrange(0, i + 1);
            assert(next.drop_last() =~= bytes@.subrange(0, i as int));
            assert(out@ =~= old(out)@ + hexdump_text(next));
        }
    }
    assert(bytes@.subrange(0, n as int) =~= bytes@);
}

/// The hex dump of `buffer` as ASCII text.
pub fn hexdump(buffer: Vec<u8>) -> (text: Vec<u8>)
    ensures
        text@ == hexdump_text(buffer@),
{
    let mut out: Vec<u8> = Vec::new();
    push_hexdump(&mut out, buffer.as_slice());
    out
}

/// The hex dump of the whole memory of `state` as ASCII text, followed by
/// an empty line.
pub fn hexdump_memory(state: StateSM83) -> (text: Vec<u8>)
    ensures
        text@ == hexdump_text(state@.memory).push(10u8),
{
    let mut out: Vec<u8> = Vec::new();
    push_hexdump(&mut out, state.memory.as_slice());
    out.push(10);
    out
}

/// The number of operand bytes that `operand` shows.
pub open spec fn operand_bytes(operand: Operand) -> int {
    match operand {
        Operand::Absent => 0,
        Operand::Byte(_) => 1,
        Operand::Word(_, _) => 2,
    }
}

/// The length the disassembler returns covers the operand it shows, and the
/// operand it shows is the bytes that follow the opcode: a byte operand is
/// the next byte and a two-byte operand is the next two bytes, shown high
/// byte first. The exceptions are LDH (a8),A (0xe0), which shows its
/// operand but counts one byte, and the CB prefix, which always counts two.
pub proof fn law_length_covers_operand(buffer: Seq<u8>, pc: int)
    requires
        disassembly_defined(buffer, pc),
    ensures
        ({
            let op = buffer[pc];
            let d = disassembly(buffer, pc);
            &&& op != 0xe0 && op != 0xcb ==> d.opbytes == 1 + operand_bytes(d.operand)
            &&& op == 0xe0 ==> d.opbytes == 1 && d.operand == Operand::Byte(buffer[pc + 1])
            &&& op == 0xcb ==> d.opbytes == 2
            &&& pc + d.opbytes <= buffer.len()
            &&& (d.operand matches Operand::Byte(b) ==> b == buffer[pc + 1])
            &&& (d.operand matches Operand::Word(hi, lo) ==> hi == buffer[pc + 2] && lo == buffer[pc + 1])
        }),
{
}

/// The value of the lowercase hexadecimal digit `c`, or -1 if `c` is not
/// one.
pub open spec fn hex_value(c: u8) -> int {
    if 48 <= c <= 57 {
        c - 48
    } else if 97 <= c <= 102 {
        c - 87
    } else {
        -1
    }
}

/// The number that the lowercase hexadecimal digits `digits` spell.
pub open spec fn hex_number(digits: Seq<u8>) -> int
    decreases digits.len(),
{
    if digits.len() == 0 {
        0
    } else {
        16 * hex_number(digits.drop_last()) + hex_value(digits.last())
    }
}

/// Every element of `digits` is a lowercase hexadecimal digit.
pub open spec fn all_hex_digits(digits: Seq<u8>) -> bool {
    forall|i: int| 0 <= i < digits.len() ==> 0 <= #[trigger] hex_value(digits[i]) < 16
}

proof fn lemma_hex_digits_read_back(n: nat)
    ensures
        all_hex_digits(hex_digits(n)),
        hex_number(hex_digits(n)) == n,
        1 <= hex_digits(n).len(),
        hex_digits(n).len() > 1 ==> hex_value(hex_digits(n)[0]) != 0,
        n < 0x10 ==> hex_digits(n).len() == 1,
        0x10 <= n < 0x100 ==> hex_digits(n).len() == 2,
        0x100 <= n < 0x1000 ==> hex_digits(n).len() == 3,
        0x1000 <= n ==> hex_digits(n).len() >= 4,
    decreases n,
{
    if n >= 16 {
        lemma_hex_digits_read_back(n / 16);
        let d = hex_digits(n);
        assert(d.drop_last() =~= hex_digits(n / 16));
        assert(hex_value(hex_digit((n % 16) as int)) == n % 16);
        assert(hex_number(d) == 16 * hex_number(hex_digits(n / 16)) + n % 16);
    } else {
        assert(hex_value(hex_digit(n as int)) == n);
        assert(seq![hex_digit(n as int)].drop_last() =~= Seq::<u8>::empty());
        assert(hex_number(Seq::<u8>::empty()) == 0);
    }
}

proof fn lemma_zero_padding(pad: nat, digits: Seq<u8>)
    ensures
        hex_number(Seq::new(pad, |i: int| 48u8) + digits) == hex_number(digits),
    decreases digits.len(),
{
    let zeros = Seq::new(pad, |i: int| 48u8);
    if digits.len() == 0 {
        assert(zeros + digits =~= zeros);
        lemma_zeros(pad);
    } else {
        assert((zeros + digits).drop_last() =~= zeros + digits.drop_last());
        lemma_zero_padding(pad, digits.drop_last());
    }
}

proof fn lemma_zeros(pad: nat)
    ensures
        hex_number(Seq::new(pad, |i: int| 48u8)) == 0,
    decreases pad,
{
    if pad > 0 {
        assert(Seq::new(pad, |i: int| 48u8).drop_last() =~= Seq::new((pad - 1) as nat, |i: int| 48u8));
        lemma_zeros((pad - 1) as nat);
    }
}

/// The hexadecimal shown for a byte is two lowercase digits that spell the
/// byte, and the offset shown in a hex dump or a disassembly line is
/// lowercase digits that spell the offset, at least four of them, with no
/// leading zero beyond those four.
pub proof fn law_hex_text_reads_back(b: u8, n: nat)
    ensures
        hex_byte(b).len() == 2,
        all_hex_digits(hex_byte(b)),
        16 * hex_value(hex_byte(b)[0]) + hex_value(hex_byte(b)[1]) == b,
        all_hex_digits(hex_offset(n)),
        hex_number(hex_offset(n)) == n,
        hex_offset(n).len() >= 4,
        hex_offset(n).len() > 4 ==> hex_value(hex_offset(n)[0]) != 0,
{
    lemma_hex_digits_read_back(n);
    let pad: nat = if n < 0x10 { 3 } else if n < 0x100 { 2 } else if n < 0x1000 { 1 } else { 0 };
    lemma_zero_padding(pad, hex_digits(n));
    let z = Seq::new(pad, |i: int| 48u8);
    assert forall|i: int| 0 <= i < hex_offset(n).len() implies 0 <= #[trigger] hex_value(hex_offset(n)[i]) < 16 by {
        if i >= pad {
            assert(hex_offset(n)[i] == hex_digits(n)[i - pad]);
        }
    }
    if pad > 0 {
        assert(hex_offset(n).len() == 4);
    } else {
        assert(hex_offset(n) =~= hex_digits(n));
    }
}

} // verus!
