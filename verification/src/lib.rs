//! A CHIP-8 virtual machine: a fixed register file, a flat 4096-byte address
//! space, a 64x32 monochrome framebuffer, a 16-key keypad, and a
//! fetch-decode-execute engine, together with a line-oriented debug control
//! plane (start / stop / step / cpu / mem) over which an external process can
//! pause, resume, single-step and inspect a running machine.
//!
//! The execution engine and the control-plane decisions are verified; the
//! windowing, networking and threading that drive them live outside the
//! library and talk to it through plain values.

use vstd::prelude::*;

pub mod chip8;
pub mod commands;
pub mod cpu;
pub mod debug;
pub mod disasm;
pub mod display;
pub mod keypad;
pub mod mem;
pub mod protocol;
pub mod text;

verus! {

/// A fatal engine fault. The owning machine halts on any of these; none is
/// silently ignored or retried.
#[derive(Clone, Copy, Debug, PartialEq, Eq, Structural)]
pub enum Fault {
    /// The instruction word at `addr` matches no recognized opcode pattern,
    /// or names an operation this engine cannot perform (a machine-code
    /// call into the host).
    Decode { addr: u16, word: u16 },
    /// A subroutine call arrived with the call stack already full.
    StackOverflow { addr: u16 },
    /// A return arrived with the call stack empty.
    StackUnderflow { addr: u16 },
    /// An instruction at `addr` touched memory outside the address space.
    Address { addr: u16 },
}

} // verus!
