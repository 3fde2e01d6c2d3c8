//! The mathematical model of the machine: the ghost view of the whole
//! state block, the run/wait mode, and the error kinds every failure is
//! reported through.

use vstd::prelude::*;

verus! {

/// Why a `load` or a `tick` failed. Every failure is terminal for the
/// current run and is surfaced to the caller; nothing is retried and
/// nothing wraps silently.
#[derive(Clone, Copy, Debug, PartialEq, Eq, Structural)]
pub enum EmuError {
    /// The ROM does not fit between the load address and the end of memory.
    RomTooLarge,
    /// A call instruction ran with the call stack already holding 16 entries.
    StackOverflow,
    /// A return instruction ran with the call stack empty.
    StackUnderflow,
    /// The fetched word matches no instruction family; carries that word.
    UnimplementedOpcode(u16),
}

/// Whether the machine is fetching instructions or suspended by the
/// wait-for-key instruction. While waiting, a step performs no fetch and
/// only polls the pad; the first pressed key is stored into the carried
/// register index and the machine resumes.
#[derive(Clone, Copy, Debug, PartialEq, Eq, Structural)]
pub enum RunMode {
    Running,
    WaitingForKey(u8),
}

/// The view of the whole machine state: 4096 bytes of memory, the 64x32
/// framebuffer in row-major order, 16 registers, the index register, the
/// 16-entry call stack with its pointer, the two countdown timers, the
/// 16 key states, and the run mode.
pub ghost struct VmView {
    pub pc: u16,
    pub ram: Seq<u8>,
    pub screen: Seq<bool>,
    pub regs: Seq<u8>,
    pub ireg: u16,
    pub stack: Seq<u16>,
    pub sp: u16,
    pub delay: u8,
    pub sound: u8,
    pub keys: Seq<bool>,
    pub mode: RunMode,
}

/// What one step produces: the state after it and the outcome reported to
/// the caller.
pub ghost struct StepOut {
    pub st: VmView,
    pub res: Result<(), EmuError>,
}

impl VmView {
    /// Well-formedness: the fixed sizes of every state component, a stack
    /// pointer that never leaves [0, 16], and a wait mode that only ever
    /// names a register that exists.
    pub open spec fn wf(self) -> bool {
        &&& self.ram.len() == 4096
        &&& self.screen.len() == 2048
        &&& self.regs.len() == 16
        &&& self.stack.len() == 16
        &&& self.sp <= 16
        &&& self.keys.len() == 16
        &&& (match self.mode {
            RunMode::WaitingForKey(x) => x < 16,
            RunMode::Running => true,
        })
    }
}

} // verus!
