//! A gateway for chaotic-sponge block operations and cut-and-choose proofs:
//! it decodes untrusted proof bytes, runs the trace check on what decoded,
//! and applies one block of the chaotic cipher under a fresh state per call.
pub mod cipher;
pub mod codec;
pub mod gateway;
pub mod trace_check;
