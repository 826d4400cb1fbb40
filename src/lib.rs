//! A small virtual machine for integer programs: a growable memory, three
//! addressing modes, and instances that suspend to ask for input or to hand
//! over output, so that callers can drive several of them at once.
pub mod amplifiers;
pub mod computer;
pub mod laws;
pub mod machine;
pub mod text;
