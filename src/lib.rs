//! A CHIP-8 interpreter engine: machine state, the fetch-decode-execute
//! cycle, timer decay and the pseudo-random source used by the `CXNN`
//! instruction.
pub mod engine;
pub mod laws;
pub mod lfsr;
pub mod machine;
