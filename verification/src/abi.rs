//! The vocabulary that the kernel shares with its tasks: task identities, task
//! states, fault records, and the numbers that name kernel operations.

use vstd::prelude::*;

verus! {

/// How many task indices a `TaskId` can tell apart.
pub const INDEX_SPAN: usize = 1024;

/// How many generations a `TaskId` can tell apart.
pub const GENERATION_SPAN: u8 = 64;

/// The identity under which the kernel itself sends messages.
pub const KERNEL_ID: u16 = 0xffff;

/// The first of the response codes that tell a client that its peer has died.
pub const FIRST_DEAD_CODE: u32 = 0xffff_ff00;

/// Counts how often a task has been restarted, modulo `GENERATION_SPAN`.
#[derive(Clone, Copy, Debug, PartialEq, Eq, Structural)]
pub struct Generation(pub u8);

impl Generation {
    /// The generation of the same task after one more restart.
    pub open spec fn spec_next(self) -> Generation {
        Generation(((self.0 + 1) % 64) as u8)
    }

    pub fn next(self) -> (r: Generation)
        ensures
            r == self.spec_next(),
    {
        Generation((self.0 % GENERATION_SPAN + 1) % GENERATION_SPAN)
    }
}

/// Names one incarnation of a task: the index of the task in the low ten bits,
/// the generation above it.
#[derive(Clone, Copy, Debug, PartialEq, Eq, Structural)]
pub struct TaskId(pub u16);

impl TaskId {
    /// The identity that `index` has in generation `generation`.
    pub open spec fn spec_for_index_and_gen(index: nat, generation: Generation) -> TaskId {
        TaskId((index % 1024 + 1024 * (generation.0 % 64)) as u16)
    }

    pub fn for_index_and_gen(index: usize, generation: Generation) -> (r: TaskId)
        ensures
            r == TaskId::spec_for_index_and_gen(index as nat, generation),
    {
        let low: u16 = (index % INDEX_SPAN) as u16;
        let high: u16 = (generation.0 % GENERATION_SPAN) as u16;
        TaskId(low + 1024 * high)
    }

    /// The generation that this identity belongs to.
    pub open spec fn spec_generation(self) -> Generation {
        Generation((self.0 / 1024) as u8)
    }

    pub fn generation(&self) -> (r: Generation)
        ensures
            r == self.spec_generation(),
    {
        Generation((self.0 / 1024) as u8)
    }
}

/// The response code that tells a client that the peer it was waiting for, of
/// generation `generation`, is gone.
pub open spec fn spec_dead_response_code(generation: Generation) -> u32 {
    (FIRST_DEAD_CODE + generation.0) as u32
}

pub fn dead_response_code(generation: Generation) -> (r: u32)
    ensures
        r == spec_dead_response_code(generation),
        r == FIRST_DEAD_CODE + generation.0,
{
    FIRST_DEAD_CODE + generation.0 as u32
}

/// Ways in which a task can misuse a system call.
#[derive(Clone, Copy, Debug, PartialEq, Eq, Structural)]
pub enum UsageError {
    BadSyscallNumber,
    InvalidSlice,
    TaskOutOfRange,
    IllegalTask,
    LeaseOutOfRange,
    OffsetOutOfRange,
    NoIrq,
    BadKernelMessage,
    BadReplyFaultReason,
    NotSupervisor,
    ReplyTooBig,
}

/// Who made the access that faulted.
#[derive(Clone, Copy, Debug, PartialEq, Eq, Structural)]
pub enum FaultSource {
    User,
    Kernel,
}

/// Why a server faulted its client instead of replying.
#[derive(Clone, Copy, Debug, PartialEq, Eq, Structural)]
pub enum ReplyFaultReason {
    UndefinedOperation,
    BadMessageSize,
    BadMessageContents,
    BadLeases,
    ReplyBufferTooSmall,
    AccessViolation,
}

/// What went wrong in a task that has faulted.
#[allow(inconsistent_fields)]
#[derive(Clone, Copy, Debug, PartialEq, Eq)]
pub enum FaultInfo {
    MemoryAccess { address: Option<u32>, source: FaultSource },
    StackOverflow { address: u32 },
    BusError { address: Option<u32>, source: FaultSource },
    DivideByZero,
    IllegalText,
    IllegalInstruction,
    InvalidOperation(u32),
    SyscallUsage(UsageError),
    Panic,
    Injected(TaskId),
    FromServer(TaskId, ReplyFaultReason),
}

/// What a healthy task is doing.
#[derive(Clone, Copy, Debug, PartialEq, Eq)]
pub enum SchedState {
    /// Not started.
    Stopped,
    /// Ready to run.
    Runnable,
    /// Waiting for the named task to receive a message.
    InSend(TaskId),
    /// Waiting for the named task to reply.
    InReply(TaskId),
    /// Waiting for a message: from the named task alone, or from anyone.
    InRecv(Option<TaskId>),
}

/// The state of a task as the kernel reports it.
#[derive(Clone, Copy, Debug, PartialEq, Eq)]
pub enum TaskState {
    Healthy(SchedState),
    Faulted { fault: FaultInfo, original_state: SchedState },
}

impl TaskState {
    /// The scheduling state, or the one that the fault interrupted.
    pub open spec fn sched(self) -> SchedState {
        match self {
            TaskState::Healthy(sched) => sched,
            TaskState::Faulted { original_state, .. } => original_state,
        }
    }

    /// Whether this is the state of a healthy task that cannot go on before
    /// the task named `peer` acts.
    pub open spec fn waits_for(self, peer: TaskId) -> bool {
        ||| self == TaskState::Healthy(SchedState::InRecv(Some(peer)))
        ||| self == TaskState::Healthy(SchedState::InSend(peer))
        ||| self == TaskState::Healthy(SchedState::InReply(peer))
    }
}

/// Operations that tasks can ask of the kernel.
#[derive(Clone, Copy, Debug, PartialEq, Eq, Structural)]
pub enum Kipcnum {
    ReadTaskStatus,
    RestartTask,
    FaultTask,
    ReadImageId,
    Reset,
    GetTaskDumpRegion,
    ReadTaskDumpRegion,
    SoftwareIrq,
    FindFaultedTask,
}

impl Kipcnum {
    /// The operation that goes by `number`, if there is one.
    pub open spec fn spec_from_number(number: u16) -> Option<Kipcnum> {
        match number {
            1 => Some(Kipcnum::ReadTaskStatus),
            2 => Some(Kipcnum::RestartTask),
            3 => Some(Kipcnum::FaultTask),
            4 => Some(Kipcnum::ReadImageId),
            5 => Some(Kipcnum::Reset),
            6 => Some(Kipcnum::GetTaskDumpRegion),
            7 => Some(Kipcnum::ReadTaskDumpRegion),
            8 => Some(Kipcnum::SoftwareIrq),
            9 => Some(Kipcnum::FindFaultedTask),
            _ => None,
        }
    }

    pub fn from_number(number: u16) -> (r: Option<Kipcnum>)
        ensures
            r == Kipcnum::spec_from_number(number),
    {
        match number {
            1 => Some(Kipcnum::ReadTaskStatus),
            2 => Some(Kipcnum::RestartTask),
            3 => Some(Kipcnum::FaultTask),
            4 => Some(Kipcnum::ReadImageId),
            5 => Some(Kipcnum::Reset),
            6 => Some(Kipcnum::GetTaskDumpRegion),
            7 => Some(Kipcnum::ReadTaskDumpRegion),
            8 => Some(Kipcnum::SoftwareIrq),
            9 => Some(Kipcnum::FindFaultedTask),
            _ => None,
        }
    }
}

/// A range of memory that a debugger wants to see.
#[derive(Clone, Copy, Debug, PartialEq, Eq, Structural)]
pub struct TaskDumpRegion {
    pub base: u32,
    pub size: u32,
}

/// A notification of a task, as the owner of interrupts.
#[derive(Clone, Copy, Debug, PartialEq, Eq, Structural)]
pub struct InterruptOwner {
    pub task: u32,
    pub notification: u32,
}

/// What the kernel may do after serving a request.
#[derive(Clone, Copy, Debug, PartialEq, Eq, Structural)]
pub enum NextTask {
    /// Run the task at this index.
    Specific(usize),
    /// Run any task but the current one.
    Other,
    /// Go on with the current task.
    Same,
}

/// Why a request is refused. The task that made it is to be faulted with the
/// record inside.
#[derive(Clone, Copy, Debug, PartialEq, Eq)]
pub enum UserError {
    Unrecoverable(FaultInfo),
}

/// The refusal of a request that misuses the kernel's interface.
pub open spec fn usage(error: UsageError) -> UserError {
    UserError::Unrecoverable(FaultInfo::SyscallUsage(error))
}

/// The faults found on the two sides of a copy between tasks.
#[derive(Clone, Copy, Debug, PartialEq, Eq)]
pub struct InteractFault {
    pub src: Option<FaultInfo>,
    pub dst: Option<FaultInfo>,
}

} // verus!
