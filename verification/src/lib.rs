pub mod alu;
pub mod disassembler;
pub mod instruction_laws;
pub mod laws;
pub mod mmu;
pub mod sm83cpu;
