//! Core of a cycle-driven emulator for the Sharp LR35902: register file,
//! interrupt controller, timer, memory router and the instruction
//! fetch/decode/execute engine, each with a machine-checked contract.

pub mod alu;
pub mod cpu;
pub mod gpu;
pub mod instruction;
pub mod interrupt;
pub mod machine;
pub mod memory;
pub mod register;
pub mod timer;
pub mod utils;
