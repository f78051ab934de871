# gameboy_emu

A small emulator of the Game Boy's SM83 core, with a disassembler and a hex
dumper; each library function carries a proved contract.

- `src/sm83cpu.rs`: the core's state, its mathematical view (`CpuView`), the
  meaning of one step (`step`, built from the opcode groups `low_op`,
  `load_op`, `alu_op`, `high_op`, `cb_op`) and `emulate_sm83_op`, which is
  proved to carry it out.
- `src/alu.rs`: the 8-bit increment, decrement, rotate and accumulator
  operations with their flags.
- `src/mmu.rs`: the boot ROM and cartridge ROM and the copies between them
  and the core's memory.
- `src/disassembler.rs`: the disassembly table, the printed disassembly line
  and the hex dump text.
- `src/laws.rs`: properties that span several steps or functions, such as
  POP giving back what PUSH pushed and RET coming back from CALL.
- `app/main.rs`: the command-line program: reading files, printing, and the
  emulation loop.
