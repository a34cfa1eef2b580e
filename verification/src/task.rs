//! Tasks, and what the kernel can do to them.

use vstd::prelude::*;

use crate::abi::{
    FaultInfo, Generation, InteractFault, NextTask, SchedState, TaskId, TaskState, UsageError,
    UserError, KERNEL_ID,
};
use crate::umem::{TcbImage, USlice};

verus! {

/// What a task passed to the kernel when it sent a message: the operation, the
/// message, and the buffer for the response. A range is refused right here if it
/// cannot be one.
#[derive(Clone, Copy, Debug, PartialEq, Eq)]
pub struct SendArgs {
    pub operation: u16,
    pub message: Result<USlice, UsageError>,
    pub response: Result<USlice, UsageError>,
}

/// What a task will find in its registers when it next runs.
#[derive(Clone, Copy, Debug, PartialEq, Eq)]
pub enum Delivery {
    /// What it left there.
    Nothing,
    /// The start of its program.
    Entry,
    /// The failure of the call that it made.
    Error { code: u32 },
    /// The response to a message that it sent, and how long the response is.
    Response { code: u32, length: usize },
    /// Notifications that it had been waiting for.
    Notifications { bits: u32 },
}

/// The part of a task's saved registers that matters for messages to the kernel.
#[derive(Clone, Copy, Debug, PartialEq, Eq)]
pub struct SavedState {
    pub args: SendArgs,
    /// The notifications that the task listens for when it receives.
    pub notification_mask: u32,
    pub delivery: Delivery,
}

impl SavedState {
    /// The registers of a task that has not run yet.
    pub open spec fn spec_initial() -> SavedState {
        SavedState {
            args: SendArgs {
                operation: 0,
                message: Ok(USlice { base: 0, length: 0 }),
                response: Ok(USlice { base: 0, length: 0 }),
            },
            notification_mask: 0,
            delivery: Delivery::Entry,
        }
    }

    pub fn initial() -> (r: SavedState)
        ensures
            r == SavedState::spec_initial(),
    {
        SavedState {
            args: SendArgs {
                operation: 0,
                message: Ok(USlice { base: 0, length: 0 }),
                response: Ok(USlice { base: 0, length: 0 }),
            },
            notification_mask: 0,
            delivery: Delivery::Entry,
        }
    }
}

/// A range of memory that a task has access to.
#[derive(Clone, Copy, Debug, PartialEq, Eq, Structural)]
pub struct RegionDesc {
    pub base: u32,
    pub size: u32,
    /// Whether the region holds something that a debugger can make use of.
    pub dumpable: bool,
}

/// A task.
#[derive(Debug, PartialEq, Eq)]
pub struct Task {
    pub generation: Generation,
    pub state: TaskState,
    /// Notifications that have been posted and not yet taken.
    pub notifications: u32,
    pub saved: SavedState,
    pub regions: Vec<RegionDesc>,
    pub tcb: TcbImage,
}

impl Task {
    /// The task, with `delivery` waiting in its registers.
    pub open spec fn delivered(self, delivery: Delivery) -> Task {
        Task { saved: SavedState { delivery, ..self.saved }, ..self }
    }

    /// The task, after it has been told that its message was served with code
    /// zero and a response of `length` bytes.
    pub open spec fn answered(self, length: usize) -> Task {
        self.delivered(Delivery::Response { code: 0, length })
    }

    /// The task, stopped at the start of its program, one generation on.
    pub open spec fn reinitialized(self) -> Task {
        Task {
            generation: self.generation.spec_next(),
            state: TaskState::Healthy(SchedState::Stopped),
            notifications: 0,
            saved: SavedState::spec_initial(),
            ..self
        }
    }

    /// The task, in scheduling state `sched`.
    pub open spec fn healthy(self, sched: SchedState) -> Task {
        Task { state: TaskState::Healthy(sched), ..self }
    }

    /// The task, with `fault` on record. The latest fault is the one that is
    /// kept; the scheduling state is that of the time before the first.
    pub open spec fn faulted(self, fault: FaultInfo) -> Task {
        Task { state: TaskState::Faulted { fault, original_state: self.state.sched() }, ..self }
    }

    /// Whether the task is waiting for messages and would take one from the
    /// kernel.
    pub open spec fn hears_kernel(self) -> bool {
        ||| self.state == TaskState::Healthy(SchedState::InRecv(None))
        ||| self.state == TaskState::Healthy(SchedState::InRecv(Some(TaskId(KERNEL_ID))))
    }

    /// The notifications that would wake the task if `bits` were posted to it.
    pub open spec fn firing(self, bits: u32) -> u32 {
        (self.notifications | bits) & self.saved.notification_mask
    }

    /// Whether the task wakes if `bits` are posted to it.
    pub open spec fn wakes(self, bits: u32) -> bool {
        self.hears_kernel() && self.firing(bits) != 0
    }

    /// The task, after `bits` were posted to it.
    pub open spec fn posted(self, bits: u32) -> Task {
        if self.wakes(bits) {
            Task {
                notifications: (self.notifications | bits) & !self.firing(bits),
                ..self.healthy(SchedState::Runnable).delivered(
                    Delivery::Notifications { bits: self.firing(bits) },
                )
            }
        } else {
            Task { notifications: self.notifications | bits, ..self }
        }
    }

    pub fn set_error_response(&mut self, code: u32)
        ensures
            *final(self) == old(self).delivered(Delivery::Error { code }),
    {
        self.saved.delivery = Delivery::Error { code };
    }

    pub fn set_send_response_and_length(&mut self, code: u32, length: usize)
        ensures
            *final(self) == old(self).delivered(Delivery::Response { code, length }),
    {
        self.saved.delivery = Delivery::Response { code, length };
    }

    pub fn set_healthy_state(&mut self, sched: SchedState)
        ensures
            *final(self) == old(self).healthy(sched),
    {
        self.state = TaskState::Healthy(sched);
    }

    /// Puts the task back to where it was before it first ran, under a new
    /// generation, and leaves it stopped.
    pub fn reinitialize(&mut self)
        ensures
            *final(self) == old(self).reinitialized(),
    {
        self.generation = self.generation.next();
        self.state = TaskState::Healthy(SchedState::Stopped);
        self.notifications = 0;
        self.saved = SavedState::initial();
    }

    /// Records `fault`, over the record of any fault before it.
    pub fn record_fault(&mut self, fault: FaultInfo)
        ensures
            *final(self) == old(self).faulted(fault),
    {
        let original_state = match self.state {
            TaskState::Healthy(sched) => sched,
            TaskState::Faulted { original_state, .. } => original_state,
        };
        self.state = TaskState::Faulted { fault, original_state };
    }

    /// Posts `bits` to the task, and wakes it if it has been waiting for any
    /// notification that is now posted. Returns whether it woke.
    pub fn post(&mut self, bits: u32) -> (woke: bool)
        ensures
            *final(self) == old(self).posted(bits),
            woke == old(self).wakes(bits),
    {
        self.notifications = self.notifications | bits;
        let hears: bool = match self.state {
            TaskState::Healthy(SchedState::InRecv(None)) => true,
            TaskState::Healthy(SchedState::InRecv(Some(peer))) => peer.0 == KERNEL_ID,
            _ => false,
        };
        let firing: u32 = self.notifications & self.saved.notification_mask;
        if hears && firing != 0 {
            self.notifications = self.notifications & !firing;
            self.saved.delivery = Delivery::Notifications { bits: firing };
            self.state = TaskState::Healthy(SchedState::Runnable);
            true
        } else {
            false
        }
    }
}

/// The identity that the task at `index` goes by.
pub open spec fn id_of(tasks: Seq<Task>, index: int) -> TaskId {
    TaskId::spec_for_index_and_gen(index as nat, tasks[index].generation)
}

pub fn current_id(tasks: &[Task], index: usize) -> (r: TaskId)
    requires
        index < tasks@.len(),
    ensures
        r == id_of(tasks@, index as int),
{
    TaskId::for_index_and_gen(index, tasks[index].generation)
}

/// The task table after `fault` struck the task at `index`: the fault is on
/// record there, and `bits` have been posted to the supervisor, the task at 0.
pub open spec fn after_fault(tasks: Seq<Task>, index: int, fault: FaultInfo, bits: u32) -> Seq<
    Task,
> {
    let struck = tasks.update(index, tasks[index].faulted(fault));
    struck.update(0, struck[0].posted(bits))
}

/// What may run next after `fault` struck the task at `index`.
pub open spec fn hint_after_fault(
    tasks: Seq<Task>,
    index: int,
    fault: FaultInfo,
    bits: u32,
) -> NextTask {
    let struck = tasks.update(index, tasks[index].faulted(fault));
    if struck[0].wakes(bits) {
        NextTask::Specific(0)
    } else {
        NextTask::Other
    }
}

/// Faults the task at `index`, and lets the supervisor know by posting `bits` to
/// it.
pub fn force_fault(tasks: &mut [Task], index: usize, fault: FaultInfo, bits: u32) -> (r: NextTask)
    requires
        index < old(tasks)@.len(),
    ensures
        final(tasks)@ == after_fault(old(tasks)@, index as int, fault, bits),
        r == hint_after_fault(old(tasks)@, index as int, fault, bits),
{
    tasks[index].record_fault(fault);
    if tasks[0].post(bits) {
        NextTask::Specific(0)
    } else {
        NextTask::Other
    }
}

/// The task table after the faults of a copy were charged to the task at
/// `charged`, as far as this does it: a fault at the source is recorded there.
pub open spec fn after_interact(
    tasks: Seq<Task>,
    charged: int,
    interact: InteractFault,
    bits: u32,
) -> Seq<Task> {
    match interact.src {
        Some(fault) => after_fault(tasks, charged, fault, bits),
        None => tasks,
    }
}

/// What is left to be done about the faults of a copy once `after_interact`
/// holds: a fault at the destination is still to be dealt with; else there is
/// only something to run next.
pub open spec fn left_of_interact(
    tasks: Seq<Task>,
    charged: int,
    interact: InteractFault,
    bits: u32,
) -> Result<NextTask, UserError> {
    match (interact.dst, interact.src) {
        (Some(fault), _) => Err(UserError::Unrecoverable(fault)),
        (None, Some(fault)) => Ok(hint_after_fault(tasks, charged, fault, bits)),
        (None, None) => Ok(NextTask::Same),
    }
}

impl InteractFault {
    /// Charges the fault at the source, if there is one, to the task at
    /// `charged`, and hands back the fault at the destination, if there is one.
    pub fn apply_to_src(self, tasks: &mut [Task], charged: usize, bits: u32) -> (r: Result<
        NextTask,
        UserError,
    >)
        requires
            charged < old(tasks)@.len(),
        ensures
            final(tasks)@ == after_interact(old(tasks)@, charged as int, self, bits),
            r == left_of_interact(old(tasks)@, charged as int, self, bits),
    {
        let hint = match self.src {
            Some(fault) => force_fault(tasks, charged, fault, bits),
            None => NextTask::Same,
        };
        match self.dst {
            Some(fault) => Err(UserError::Unrecoverable(fault)),
            None => Ok(hint),
        }
    }
}

} // verus!
