//! Folds a chronologically ordered stream of probe enter/exit events into
//! folded call-stack lines annotated with elapsed duration, as consumed by
//! flame-graph style tools.
//!
//! The two components are the event decoder ([`decode`]), which turns one raw
//! text line into a structured [`event::Event`], and the stack folder
//! ([`folder`]), which maintains the logical call stack, matches enter/exit
//! pairs by activation identity, computes per-frame durations, and emits one
//! folded line per completed non-outermost activation.

pub mod decode;
pub mod event;
pub mod folder;
pub mod laws;
pub mod parse;
pub mod probes;
pub mod render;
