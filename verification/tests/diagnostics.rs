//! What is said over the diagnostic port.

use kipc::abi::{
    FaultInfo, FaultSource, ReplyFaultReason, SchedState, TaskId, TaskState, UsageError,
};
use kipc::diag::{readback_words, status_tag};
use kipc::umem::Window;

#[test]
fn tags_of_healthy_tasks() {
    let scheds = [
        SchedState::Stopped,
        SchedState::Runnable,
        SchedState::InSend(TaskId(1)),
        SchedState::InReply(TaskId(1)),
        SchedState::InRecv(None),
    ];
    for (i, sched) in scheds.into_iter().enumerate() {
        assert_eq!(status_tag(&TaskState::Healthy(sched)), i as u32);
    }
    let picky = SchedState::InRecv(Some(TaskId(1)));
    assert_eq!(status_tag(&TaskState::Healthy(picky)), 4);
}

#[test]
fn tags_of_faulted_tasks() {
    let source = FaultSource::User;
    let faults = [
        FaultInfo::MemoryAccess { address: None, source },
        FaultInfo::StackOverflow { address: 0 },
        FaultInfo::BusError { address: None, source },
        FaultInfo::DivideByZero,
        FaultInfo::IllegalText,
        FaultInfo::IllegalInstruction,
        FaultInfo::InvalidOperation(0),
        FaultInfo::SyscallUsage(UsageError::NoIrq),
        FaultInfo::Panic,
        FaultInfo::Injected(TaskId(1)),
        FaultInfo::FromServer(TaskId(1), ReplyFaultReason::BadLeases),
    ];
    for (i, fault) in faults.into_iter().enumerate() {
        let state = TaskState::Faulted { fault, original_state: SchedState::Stopped };
        assert_eq!(status_tag(&state), 0x100 + i as u32);
    }
}

#[test]
fn readback() {
    let window = Window::Granted(vec![0xaa, 0xbb, 0xcc]);
    assert_eq!(readback_words(&window, 2), Some(vec![0x0aa, 0x1bb]));
    assert_eq!(readback_words(&window, 12), Some(vec![0x0aa, 0x1bb, 0x2cc]));
    assert_eq!(readback_words(&window, 0), Some(vec![]));
    assert_eq!(readback_words(&Window::Denied(FaultInfo::Panic), 2), None);
}
