//! A 32-bit toy computer: an assembler that turns assembly text into a byte
//! image, and the machine that runs such images.
pub mod text;
pub mod number;
pub mod isa;
pub mod encode;
pub mod assembler;
pub mod laws;
pub mod project;
pub mod machine;
pub mod cpu;
pub mod cpu_laws;
pub mod devices;
pub mod screen;
