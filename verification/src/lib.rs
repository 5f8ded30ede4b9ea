//! A verified CHIP-8 emulation core: a memory bus with a monochrome
//! framebuffer and keypad, a pure opcode decoder, and the CPU state machine
//! that fetches, decodes and executes instructions.
pub mod cpu;
pub mod decoder;
pub mod instruction;
pub mod memory;
pub mod sprite;

pub use cpu::Cpu;
pub use instruction::Instruction;
pub use memory::Bus;
