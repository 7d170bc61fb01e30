//! Core of an interactive, ptrace-based debugger for native executables.
//!
//! The crate owns the logic of the debugger: tracking one traced child
//! process, installing and re-arming software breakpoints by patching the
//! target's memory byte by byte, stepping over an armed breakpoint without
//! losing the displaced instruction, walking the frame-pointer chain to
//! produce a backtrace, and resolving the operator's location specs.
//! The blocking kernel calls themselves are made through `nix` behind a
//! narrow trusted boundary; everything that decides or computes is verified.

pub mod breakpoints;
pub mod guessing;
pub mod image;
pub mod inferior;
pub mod location;
pub mod parmap;
pub mod session;
pub mod status;
pub mod symbols;
pub mod trace;
pub mod unwind;
pub mod vecops;
pub mod words;
