use gameboy_emu::disassembler::{
    disassemble_sm83_op, disassembly_is_defined, disassembly_line, hexdump, hexdump_memory, Operand,
    MNEMONICS,
};
use gameboy_emu::sm83cpu::StateSM83;

#[test]
fn one_byte_instruction() {
    let d = disassemble_sm83_op(&vec![0x00], 0);
    assert_eq!(d.text, "NOP");
    assert_eq!(d.operand, Operand::Absent);
    assert_eq!(d.suffix, "");
    assert_eq!(d.opbytes, 1);
    let d = disassemble_sm83_op(&vec![0x00, 0xaf], 1);
    assert_eq!(d.text, "XOR A");
    assert_eq!(d.opbytes, 1);
}

#[test]
fn word_operand_shows_high_byte_first() {
    let d = disassemble_sm83_op(&vec![0x31, 0xfe, 0xff], 0);
    assert_eq!(d.text, "LD SP,$");
    assert_eq!(d.operand, Operand::Word(0xff, 0xfe));
    assert_eq!(d.opbytes, 3);
    let d = disassemble_sm83_op(&vec![0xcd, 0x34, 0x12], 0);
    assert_eq!(d.text, "CALL   $");
    assert_eq!(d.operand, Operand::Word(0x12, 0x34));
    assert_eq!(d.opbytes, 3);
}

#[test]
fn byte_operand() {
    let d = disassemble_sm83_op(&vec![0x20, 0xfb], 0);
    assert_eq!(d.text, "JR NZ,");
    assert_eq!(d.operand, Operand::Byte(0xfb));
    assert_eq!(d.opbytes, 2);
    let d = disassemble_sm83_op(&vec![0x06, 0x12], 0);
    assert_eq!(d.text, "MVI    B,#$");
    assert_eq!(d.operand, Operand::Byte(0x12));
}

#[test]
fn ldh_shows_its_operand_but_counts_one_byte() {
    let d = disassemble_sm83_op(&vec![0xe0, 0x40], 0);
    assert_eq!(d.text, "LDH (0xff");
    assert_eq!(d.operand, Operand::Byte(0x40));
    assert_eq!(d.suffix, "),A");
    assert_eq!(d.opbytes, 1);
}

#[test]
fn cb_prefix() {
    let d = disassemble_sm83_op(&vec![0xcb, 0x7c], 0);
    assert_eq!(d.text, "PREFIX BIT 7,H");
    assert_eq!(d.operand, Operand::Absent);
    assert_eq!(d.opbytes, 2);
    let d = disassemble_sm83_op(&vec![0xcb, 0x11], 0);
    assert_eq!(d.text, "PREFIX 0x");
    assert_eq!(d.operand, Operand::Byte(0x11));
    assert_eq!(d.opbytes, 2);
}

#[test]
fn table_entries() {
    assert_eq!(MNEMONICS[0x76], "HLT");
    assert_eq!(MNEMONICS[0xff], "RST    7");
    assert_eq!(MNEMONICS[0x53], "MOV D.E");
}

#[test]
fn definedness() {
    assert!(!disassembly_is_defined(&vec![0x00], 1));
    assert!(!disassembly_is_defined(&vec![0x01, 0x00], 0));
    assert!(disassembly_is_defined(&vec![0x01, 0x00, 0x00], 0));
    assert!(!disassembly_is_defined(&vec![0x06], 0));
    assert!(!disassembly_is_defined(&vec![0xcb], 0));
    assert!(!disassembly_is_defined(&vec![0xcb, 0x10], 0));
    assert!(disassembly_is_defined(&vec![0xcb, 0x11], 0));
    assert!(!disassembly_is_defined(&vec![0xe0], 0));
}

#[test]
fn walking_a_program() {
    let program = vec![0x31, 0xfe, 0xff, 0xaf, 0x21, 0xff, 0x9f, 0x32, 0xcb, 0x7c, 0x20, 0xfb];
    let mut pc = 0;
    let mut lengths = Vec::new();
    while pc < program.len() {
        let d = disassemble_sm83_op(&program, pc);
        lengths.push(d.opbytes);
        pc += d.opbytes;
    }
    assert_eq!(lengths, vec![3, 1, 3, 1, 2, 2]);
    assert_eq!(pc, program.len());
}

#[test]
fn hexdump_lines() {
    let bytes: Vec<u8> = (0..17u8).collect();
    let text = String::from_utf8(hexdump(bytes)).unwrap();
    assert_eq!(
        text,
        "0000 00 01 02 03 04 05 06 07 08 09 0a 0b 0c 0d 0e 0f \n0010 10 "
    );
}

#[test]
fn hexdump_empty() {
    assert!(hexdump(Vec::new()).is_empty());
}

#[test]
fn hexdump_wide_offsets() {
    let bytes = vec![0xabu8; 0x10010];
    let text = String::from_utf8(hexdump(bytes)).unwrap();
    assert!(text.starts_with("0000 ab ab "));
    assert!(text.contains("\nfff0 ab "));
    assert!(text.ends_with("\n10000 ab ab ab ab ab ab ab ab ab ab ab ab ab ab ab ab \n"));
}

#[test]
fn hexdump_extends_prefix() {
    let bytes: Vec<u8> = (0..40u8).map(|i| i.wrapping_mul(37)).collect();
    let all = hexdump(bytes.clone());
    for k in 0..bytes.len() {
        let part = hexdump(bytes[..k].to_vec());
        assert!(all.starts_with(&part));
    }
}

#[test]
fn hexdump_memory_covers_all_memory() {
    let mut s = StateSM83::new();
    s.memory[0xffff] = 0xc3;
    let text = String::from_utf8(hexdump_memory(s)).unwrap();
    assert_eq!(text.lines().count(), 0x1000 + 1);
    assert!(text.starts_with("0000 00 00"));
    assert!(text.ends_with("fff0 00 00 00 00 00 00 00 00 00 00 00 00 00 00 00 c3 \n\n"));
}

fn line(buffer: &Vec<u8>, pc: usize) -> String {
    String::from_utf8(disassembly_line(buffer, pc)).unwrap()
}

#[test]
fn printed_line_with_word_operand() {
    let buffer = vec![0x00, 0x21, 0xff, 0x9f];
    assert_eq!(line(&buffer, 1), "0001,21: LD HL,$9fff\n");
    assert_eq!(line(&buffer, 0), "0000,00: NOP\n");
}

#[test]
fn printed_line_after_cb_prefix() {
    assert_eq!(line(&vec![0xcb, 0x7c, 0x00], 0), "0000,cb: PREFIX BIT 7,H\n");
    assert_eq!(line(&vec![0xcb, 0x11], 0), "0000,cb: PREFIX 0x11\n");
}

#[test]
fn printed_line_with_suffix_and_byte_operand() {
    assert_eq!(line(&vec![0xe0, 0x40], 0), "0000,e0: LDH (0xff40),A\n");
    assert_eq!(line(&vec![0x06, 0x0a], 0), "0000,06: MVI    B,#$0a\n");
}

#[test]
fn printed_line_at_wide_address() {
    let mut buffer = vec![0u8; 0x12346];
    buffer[0x12345] = 0xaf;
    assert_eq!(line(&buffer, 0x12345), "12345,af: XOR A\n");
}

#[test]
fn printed_line_is_one_line() {
    let program = vec![0x31, 0xfe, 0xff, 0xaf, 0x21, 0xff, 0x9f, 0x32, 0xcb, 0x7c, 0x20, 0xfb];
    let mut pc = 0;
    while pc < program.len() {
        let text = line(&program, pc);
        assert!(text.starts_with(&format!("{:04x},{:02x}: ", pc, program[pc])));
        assert!(text.ends_with('\n'));
        assert_eq!(text.matches('\n').count(), 1);
        pc += disassemble_sm83_op(&program, pc).opbytes;
    }
}
