//! A reversible-computing virtual machine: a 16-register CPU whose
//! instruction set is dominated by invertible logic gates (controlled-not,
//! controlled add/sub, Toffoli, Fredkin), together with an assembler that
//! compiles mnemonic text into the machine's fixed-width binary encoding.

pub mod assembler;
pub mod codec;
pub mod cpu;
pub mod device;
pub mod isa;
