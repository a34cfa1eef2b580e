//! What the kernel says about a status request over the diagnostic port.

use vstd::prelude::*;

use crate::abi::{FaultInfo, SchedState, TaskState};
use crate::umem::Window;

verus! {

/// The number that stands for what a healthy task is doing.
pub open spec fn sched_tag(sched: SchedState) -> int {
    match sched {
        SchedState::Stopped => 0,
        SchedState::Runnable => 1,
        SchedState::InSend(_) => 2,
        SchedState::InReply(_) => 3,
        SchedState::InRecv(_) => 4,
    }
}

/// The number that stands for what went wrong in a faulted task.
pub open spec fn fault_tag(fault: FaultInfo) -> int {
    match fault {
        FaultInfo::MemoryAccess { .. } => 0,
        FaultInfo::StackOverflow { .. } => 1,
        FaultInfo::BusError { .. } => 2,
        FaultInfo::DivideByZero => 3,
        FaultInfo::IllegalText => 4,
        FaultInfo::IllegalInstruction => 5,
        FaultInfo::InvalidOperation(_) => 6,
        FaultInfo::SyscallUsage(_) => 7,
        FaultInfo::Panic => 8,
        FaultInfo::Injected(_) => 9,
        FaultInfo::FromServer(_, _) => 10,
    }
}

/// The number that is printed for a task state: what is wrong with the task, from
/// 0x100 on, or what it is doing if nothing is.
pub fn status_tag(state: &TaskState) -> (r: u32)
    ensures
        r == match *state {
            TaskState::Healthy(sched) => sched_tag(sched),
            TaskState::Faulted { fault, .. } => 0x100 + fault_tag(fault),
        },
        r >= 0x100 <==> *state is Faulted,
        *state matches TaskState::Faulted { fault, .. } ==> r as int - 0x100 == fault_tag(fault),
        *state matches TaskState::Healthy(sched) ==> r as int == sched_tag(sched),
{
    match state {
        TaskState::Healthy(SchedState::Stopped) => 0,
        TaskState::Healthy(SchedState::Runnable) => 1,
        TaskState::Healthy(SchedState::InSend(_)) => 2,
        TaskState::Healthy(SchedState::InReply(_)) => 3,
        TaskState::Healthy(SchedState::InRecv(_)) => 4,
        TaskState::Faulted { fault, .. } => 0x100 + match fault {
            FaultInfo::MemoryAccess { .. } => 0u32,
            FaultInfo::StackOverflow { .. } => 1u32,
            FaultInfo::BusError { .. } => 2u32,
            FaultInfo::DivideByZero => 3u32,
            FaultInfo::IllegalText => 4u32,
            FaultInfo::IllegalInstruction => 5u32,
            FaultInfo::InvalidOperation(_) => 6u32,
            FaultInfo::SyscallUsage(_) => 7u32,
            FaultInfo::Panic => 8u32,
            FaultInfo::Injected(_) => 9u32,
            FaultInfo::FromServer(_, _) => 10u32,
        },
    }
}

/// The word that is printed for the byte `byte` at position `i`: the byte in the
/// low eight bits, the position above it, as far as it goes.
pub open spec fn readback_word(i: int, byte: u8) -> u32 {
    ((i % 0x100_0000) * 0x100 + byte) as u32
}

/// The words that are printed for the response once it has been written: one for
/// each byte of it that is in the buffer. `None` where the buffer cannot be read.
pub fn readback_words(response: &Window, response_len: usize) -> (r: Option<Vec<u32>>)
    ensures
        match (r, response@) {
            (None, Err(_)) => true,
            (Some(words), Ok(bytes)) => {
                &&& words@.len() == if response_len < bytes.len() {
                    response_len as int
                } else {
                    bytes.len() as int
                }
                &&& forall|i: int|
                    0 <= i < words@.len() ==> #[trigger] words@[i] == readback_word(i, bytes[i])
            },
            _ => false,
        },
        r is Some <==> response@ is Ok,
        r matches Some(words) ==> {
            &&& words@.len() <= response_len
            &&& words@.len() <= response@->Ok_0.len()
            &&& words@.len() == response_len || words@.len() == response@->Ok_0.len()
            &&& forall|i: int|
                0 <= i < words@.len() ==> (#[trigger] words@[i]) as int % 0x100
                    == response@->Ok_0[i] && words@[i] as int / 0x100 == i % 0x100_0000
        },
{
    match response {
        Window::Denied(_) => None,
        Window::Granted(bytes) => {
            let n: usize = if response_len < bytes.len() {
                response_len
            } else {
                bytes.len()
            };
            let mut words: Vec<u32> = Vec::new();
            let mut i: usize = 0;
            while i < n
                invariant
                    i <= n,
                    n <= bytes@.len(),
                    words@.len() == i,
                    forall|j: int|
                        0 <= j < i ==> #[trigger] words@[j] == readback_word(j, bytes@[j]),
                decreases n - i,
            {
                let low: u32 = (i % 0x100_0000) as u32;
                let byte: u8 = bytes[i];
                assert((low << 8) | (byte as u32) == low * 0x100 + byte) by (bit_vector)
                    requires
                        low < 0x100_0000,
                ;
                words.push((low << 8) | (byte as u32));
                i = i + 1;
            }
            Some(words)
        },
    }
}

} // verus!
