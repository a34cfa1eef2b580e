//! Requests that tasks make of the kernel, and how the kernel serves them.
//!
//! The kernel's own memory and the registers of the tasks are in the task table.
//! What lies outside of it comes in as an argument: the memory that the caller
//! named for its message and for the response, and the `Board`. What has to
//! happen outside of it is handed back as a `Directive`.

use vstd::prelude::*;

use crate::abi::{
    dead_response_code, spec_dead_response_code, usage, FaultInfo, InteractFault, InterruptOwner,
    Kipcnum, NextTask, SchedState, TaskDumpRegion, TaskId, TaskState, UsageError, UserError,
};
use crate::marshal::{encoded, longest_fit, marshal, overlay, MarshalError};
use crate::task::{
    after_fault, after_interact, current_id, force_fault, id_of, left_of_interact, Delivery,
    RegionDesc, Task,
};
use crate::umem::{TcbImage, USlice, Window};
use crate::wire::{Request, Response};

verus! {

/// The interrupts that one notification of one task stands for.
#[derive(Debug, PartialEq, Eq)]
pub struct IrqEntry {
    pub owner: InterruptOwner,
    pub irqs: Vec<u32>,
}

/// What the kernel was built for and with.
#[derive(Debug, PartialEq, Eq)]
pub struct Board {
    /// Identifies the firmware image.
    pub image_id: u64,
    /// The notifications that tell the supervisor of a fault.
    pub fault_notification: u32,
    /// Whether the kernel lets the supervisor dump tasks.
    pub dump: bool,
    /// Which interrupts belong to whom.
    pub irqs: Vec<IrqEntry>,
}

/// What is to happen once a request has been served as far as the task table
/// goes.
#[derive(Debug, PartialEq, Eq)]
pub enum Directive {
    /// Go on with this hint.
    Resume(NextTask),
    /// Pend these interrupts one after the other, and go on with this hint.
    Pend { irqs: Vec<u32>, next: NextTask },
    /// Reset the processor.
    Reset,
    /// Copy `from` in the memory of the task at `source` to `to` in the memory of
    /// the caller, as far as both reach, and pass what came of it to
    /// `complete_dump_copy`.
    Copy { source: usize, from: USlice, to: USlice },
}

/// The request of type `T` in what the caller's message turned out to be.
pub open spec fn received<T: Request>(message: Result<Seq<u8>, FaultInfo>) -> Result<
    T,
    UserError,
> {
    match message {
        Err(fault) => Err(UserError::Unrecoverable(fault)),
        Ok(bytes) => match T::decode(bytes) {
            Some(request) => Ok(request),
            None => Err(usage(UsageError::BadKernelMessage)),
        },
    }
}

/// Reads a request of type `T` out of the caller's message.
pub fn deserialize_message<T: Request>(message: &Window) -> (r: Result<T, UserError>)
    ensures
        r == received::<T>(message@),
{
    match message {
        Window::Denied(fault) => Err(UserError::Unrecoverable(*fault)),
        Window::Granted(bytes) => match T::read(bytes.as_slice()) {
            Some(request) => Ok(request),
            None => Err(
                UserError::Unrecoverable(FaultInfo::SyscallUsage(UsageError::BadKernelMessage)),
            ),
        },
    }
}

/// The length that the caller is told when `value` is the answer and there are
/// `room` bytes for it: that of the answer or, where it does not fit, what a value
/// of its type takes in the kernel's own memory.
pub open spec fn reported_length<T: Response>(value: T, room: nat) -> nat {
    if encoded(value.fields()).len() <= room {
        encoded(value.fields()).len()
    } else {
        vstd::layout::size_of::<T>()
    }
}

/// What is in a response buffer that held `buffer`, after `value` was written to
/// it: the fields that fit, and then what there was before.
pub open spec fn filled<T: Response>(value: T, buffer: Seq<u8>) -> Seq<u8> {
    overlay(buffer, 0, encoded(longest_fit(value.fields(), buffer.len())))
}

/// Writes `value` to the caller's response buffer. A buffer that is too small is
/// no error: the length that comes back then is meant for the caller to try again
/// with.
pub fn serialize_response<T: Response>(response: &mut Window, value: &T) -> (r: Result<
    usize,
    UserError,
>)
    ensures
        match old(response)@ {
            Err(fault) => final(response)@ == old(response)@ && r == Err::<usize, _>(
                UserError::Unrecoverable(fault),
            ),
            Ok(buffer) => {
                &&& final(response)@ == Ok::<Seq<u8>, FaultInfo>(filled(*value, buffer))
                &&& r is Ok
                &&& r->Ok_0 == reported_length(*value, buffer.len())
            },
        },
{
    match response {
        Window::Denied(fault) => Err(UserError::Unrecoverable(*fault)),
        Window::Granted(buffer) => {
            let fields = value.to_fields();
            match marshal(buffer, &fields) {
                Ok(length) => Ok(length),
                Err(MarshalError::EndOfStream) => Ok(core::mem::size_of::<T>()),
                Err(MarshalError::Unsupported) => Err(
                    UserError::Unrecoverable(FaultInfo::SyscallUsage(UsageError::BadKernelMessage)),
                ),
            }
        },
    }
}

/// The request was refused with `error`, and nothing has changed.
pub open spec fn refused(
    before: Seq<Task>,
    after: Seq<Task>,
    r: Result<Directive, UserError>,
    error: UserError,
) -> bool {
    &&& after == before
    &&& r == Err::<Directive, _>(error)
}

/// The request was served with `value` for an answer, as far as there was a
/// buffer for it.
pub open spec fn answered<T: Response>(
    before: Seq<Task>,
    after: Seq<Task>,
    caller: int,
    response_before: Result<Seq<u8>, FaultInfo>,
    response_after: Result<Seq<u8>, FaultInfo>,
    r: Result<Directive, UserError>,
    value: T,
) -> bool {
    match response_before {
        Err(fault) => {
            &&& refused(before, after, r, UserError::Unrecoverable(fault))
            &&& response_after == response_before
        },
        Ok(buffer) => {
            let length = reported_length(value, buffer.len()) as usize;
            &&& after == before.update(caller, before[caller].answered(length))
            &&& response_after == Ok::<Seq<u8>, FaultInfo>(filled(value, buffer))
            &&& r == Ok::<_, UserError>(Directive::Resume(NextTask::Same))
        },
    }
}

/// Answers the caller's request with `value`.
fn answer<T: Response>(
    tasks: &mut [Task],
    caller: usize,
    response: &mut Window,
    value: &T,
) -> (r: Result<Directive, UserError>)
    requires
        caller < old(tasks)@.len(),
    ensures
        answered(
            old(tasks)@,
            final(tasks)@,
            caller as int,
            old(response)@,
            final(response)@,
            r,
            *value,
        ),
{
    match serialize_response(response, value) {
        Err(error) => Err(error),
        Ok(length) => {
            tasks[caller].set_send_response_and_length(0, length);
            Ok(Directive::Resume(NextTask::Same))
        },
    }
}

/// What `read_task_status` promises.
pub open spec fn read_task_status_post(
    before: Seq<Task>,
    after: Seq<Task>,
    caller: int,
    message: Result<Seq<u8>, FaultInfo>,
    response_before: Result<Seq<u8>, FaultInfo>,
    response_after: Result<Seq<u8>, FaultInfo>,
    r: Result<Directive, UserError>,
) -> bool {
    match received::<u32>(message) {
        Err(error) => refused(before, after, r, error) && response_after == response_before,
        Ok(index) => if index >= before.len() {
            &&& refused(before, after, r, usage(UsageError::TaskOutOfRange))
            &&& response_after == response_before
        } else {
            answered(
                before,
                after,
                caller,
                response_before,
                response_after,
                r,
                before[index as int].state,
            )
        },
    }
}

/// Tells the caller in what state the task is that it asks about.
pub fn read_task_status(
    tasks: &mut [Task],
    caller: usize,
    message: &Window,
    response: &mut Window,
) -> (r: Result<Directive, UserError>)
    requires
        caller < old(tasks)@.len(),
    ensures
        read_task_status_post(
            old(tasks)@,
            final(tasks)@,
            caller as int,
            message@,
            old(response)@,
            final(response)@,
            r,
        ),
{
    let index: u32 = match deserialize_message::<u32>(message) {
        Ok(index) => index,
        Err(error) => return Err(error),
    };
    if index as usize >= tasks.len() {
        return Err(UserError::Unrecoverable(FaultInfo::SyscallUsage(UsageError::TaskOutOfRange)));
    }
    let other_state = tasks[index as usize].state;
    answer(tasks, caller, response, &other_state)
}

/// What becomes of a task that has no part in a restart, when the task that went
/// by `dead` is restarted: if it waited for that one, it is told that it waits in
/// vain and may run on.
pub open spec fn bereaved(task: Task, dead: TaskId) -> Task {
    if task.state.waits_for(dead) {
        task.delivered(
            Delivery::Error { code: spec_dead_response_code(dead.spec_generation()) },
        ).healthy(SchedState::Runnable)
    } else {
        task
    }
}

/// The task at `index` has been restarted at the request of `caller`.
pub open spec fn restarted(
    before: Seq<Task>,
    after: Seq<Task>,
    caller: int,
    index: int,
    start: bool,
) -> bool {
    &&& after.len() == before.len()
    &&& after[index] == if start {
        before[index].reinitialized().healthy(SchedState::Runnable)
    } else {
        before[index].reinitialized()
    }
    &&& caller != index ==> after[caller] == before[caller].answered(0)
    &&& forall|j: int|
        0 <= j < before.len() && j != index && j != caller ==> #[trigger] after[j] == bereaved(
            before[j],
            id_of(before, index),
        )
}

/// What `restart_task` promises.
pub open spec fn restart_task_post(
    before: Seq<Task>,
    after: Seq<Task>,
    caller: int,
    message: Result<Seq<u8>, FaultInfo>,
    r: Result<Directive, UserError>,
) -> bool {
    match received::<(u32, bool)>(message) {
        Err(error) => refused(before, after, r, error),
        Ok((index, start)) => if index >= before.len() {
            refused(before, after, r, usage(UsageError::TaskOutOfRange))
        } else {
            &&& restarted(before, after, caller, index as int, start)
            &&& r == Ok::<_, UserError>(
                Directive::Resume(
                    if index == caller && !start {
                        NextTask::Other
                    } else {
                        NextTask::Same
                    },
                ),
            )
        },
    }
}

/// Restarts a task, and unblocks those who were waiting for it.
pub fn restart_task(tasks: &mut [Task], caller: usize, message: &Window) -> (r: Result<
    Directive,
    UserError,
>)
    requires
        caller < old(tasks)@.len(),
    ensures
        restart_task_post(old(tasks)@, final(tasks)@, caller as int, message@, r),
{
    let (index, start): (u32, bool) = match deserialize_message::<(u32, bool)>(message) {
        Ok(request) => request,
        Err(error) => return Err(error),
    };
    let index: usize = index as usize;
    if index >= tasks.len() {
        return Err(UserError::Unrecoverable(FaultInfo::SyscallUsage(UsageError::TaskOutOfRange)));
    }
    let old_id = current_id(tasks, index);
    tasks[index].reinitialize();
    if start {
        tasks[index].set_healthy_state(SchedState::Runnable);
    }
    let ghost before = old(tasks)@;
    let ghost reset = tasks@;
    let count: usize = tasks.len();
    let mut i: usize = 0;
    // Nobody is to be left waiting for a task that will never answer.
    while i < count
        invariant
            i <= count,
            count == before.len(),
            tasks@.len() == count,
            reset.len() == count,
            caller < count,
            index < count,
            old_id == id_of(before, index as int),
            before == old(tasks)@,
            forall|j: int| 0 <= j < count && j != index ==> reset[j] == before[j],
            tasks@[index as int] == reset[index as int],
            tasks@[caller as int] == reset[caller as int],
            forall|j: int|
                0 <= j < i && j != index && j != caller ==> #[trigger] tasks@[j] == bereaved(
                    before[j],
                    old_id,
                ),
            forall|j: int| i <= j < count ==> #[trigger] tasks@[j] == reset[j],
        decreases count - i,
    {
        // The records of faulted tasks stay as they are.
        if i != caller && i != index {
            let waiting: bool = match tasks[i].state {
                TaskState::Healthy(SchedState::InRecv(Some(peer))) => peer == old_id,
                TaskState::Healthy(SchedState::InSend(peer)) => peer == old_id,
                TaskState::Healthy(SchedState::InReply(peer)) => peer == old_id,
                _ => false,
            };
            if waiting {
                let code: u32 = dead_response_code(old_id.generation());
                tasks[i].set_error_response(code);
                tasks[i].set_healthy_state(SchedState::Runnable);
            }
        }
        i = i + 1;
    }
    if index == caller {
        if !start {
            return Ok(Directive::Resume(NextTask::Other));
        }
    } else {
        tasks[caller].set_send_response_and_length(0, 0);
    }
    Ok(Directive::Resume(NextTask::Same))
}

/// What `fault_task` promises.
pub open spec fn fault_task_post(
    before: Seq<Task>,
    after: Seq<Task>,
    caller: int,
    message: Result<Seq<u8>, FaultInfo>,
    bits: u32,
    r: Result<Directive, UserError>,
) -> bool {
    match received::<u32>(message) {
        Err(error) => refused(before, after, r, error),
        Ok(index) => if index == 0 || index == caller {
            refused(before, after, r, usage(UsageError::IllegalTask))
        } else if index >= before.len() {
            refused(before, after, r, usage(UsageError::TaskOutOfRange))
        } else {
            let struck = after_fault(
                before,
                index as int,
                FaultInfo::Injected(id_of(before, caller)),
                bits,
            );
            &&& after == struck.update(caller, struck[caller].answered(0))
            &&& r == Ok::<_, UserError>(Directive::Resume(NextTask::Same))
        },
    }
}

/// Injects a fault into a task. The record names the caller. Neither the
/// supervisor nor the caller itself can be faulted like that.
pub fn fault_task(tasks: &mut [Task], caller: usize, message: &Window, board: &Board) -> (r: Result<
    Directive,
    UserError,
>)
    requires
        caller < old(tasks)@.len(),
    ensures
        fault_task_post(
            old(tasks)@,
            final(tasks)@,
            caller as int,
            message@,
            board.fault_notification,
            r,
        ),
{
    let index: usize = match deserialize_message::<u32>(message) {
        Ok(index) => index as usize,
        Err(error) => return Err(error),
    };
    if index == 0 || index == caller {
        return Err(UserError::Unrecoverable(FaultInfo::SyscallUsage(UsageError::IllegalTask)));
    }
    if index >= tasks.len() {
        return Err(UserError::Unrecoverable(FaultInfo::SyscallUsage(UsageError::TaskOutOfRange)));
    }
    let id = current_id(tasks, caller);
    let _ = force_fault(tasks, index, FaultInfo::Injected(id), board.fault_notification);
    tasks[caller].set_send_response_and_length(0, 0);
    Ok(Directive::Resume(NextTask::Same))
}

/// Tells the caller which firmware image is running.
pub fn read_image_id(tasks: &mut [Task], caller: usize, response: &mut Window, board: &Board) -> (r:
    Result<Directive, UserError>)
    requires
        caller < old(tasks)@.len(),
    ensures
        answered(
            old(tasks)@,
            final(tasks)@,
            caller as int,
            old(response)@,
            final(response)@,
            r,
            board.image_id,
        ),
{
    answer(tasks, caller, response, &board.image_id)
}

/// Asks for the processor to be reset.
pub fn reset(tasks: &mut [Task], _caller: usize, _message: &Window) -> (r: Result<
    Directive,
    UserError,
>)
    ensures
        final(tasks)@ == old(tasks)@,
        r == Ok::<_, UserError>(Directive::Reset),
{
    Ok(Directive::Reset)
}

/// The regions of `task` that a debugger can make use of, in the order of the
/// region table.
pub open spec fn dumpable(regions: Seq<RegionDesc>) -> Seq<RegionDesc> {
    regions.filter(|region: RegionDesc| region.dumpable)
}

/// The region of `task` that goes by the number `rindex`: first its control
/// block, then the regions that can be dumped.
pub open spec fn dump_region(task: Task, rindex: u32) -> Option<TaskDumpRegion> {
    if rindex == 0 {
        Some(
            TaskDumpRegion {
                base: task.tcb.spec_base(),
                size: task.tcb.spec_bytes().len() as u32,
            },
        )
    } else {
        let regions = dumpable(task.regions@);
        let n = rindex - 1;
        if n < regions.len() {
            Some(TaskDumpRegion { base: regions[n].base, size: regions[n].size })
        } else {
            None
        }
    }
}

/// The `n`th of the regions in `regions` that can be dumped.
fn nth_dumpable(regions: &Vec<RegionDesc>, n: usize) -> (r: Option<TaskDumpRegion>)
    ensures
        r == if n < dumpable(regions@).len() {
            Some(
                TaskDumpRegion {
                    base: dumpable(regions@)[n as int].base,
                    size: dumpable(regions@)[n as int].size,
                },
            )
        } else {
            None
        },
{
    let mut seen: usize = 0;
    let mut i: usize = 0;
    proof {
        reveal(Seq::filter);
        assert(regions@.take(0) == Seq::<RegionDesc>::empty());
    }
    while i < regions.len()
        invariant
            i <= regions@.len(),
            seen <= i,
            seen <= n,
            seen == dumpable(regions@.take(i as int)).len(),
        decreases regions@.len() - i,
    {
        proof {
            reveal(Seq::filter);
            assert(regions@.take(i + 1).drop_last() == regions@.take(i as int));
        }
        if regions[i].dumpable {
            if seen == n {
                proof {
                    let upto = regions@.take(i + 1);
                    upto.lemma_filter_monotone(regions@, |region: RegionDesc| region.dumpable);
                    assert(dumpable(upto)[n as int] == regions@[i as int]);
                    assert(dumpable(regions@).subrange(0, dumpable(upto).len() as int)[n as int]
                        == regions@[i as int]);
                }
                return Some(TaskDumpRegion { base: regions[i].base, size: regions[i].size });
            }
            seen = seen + 1;
        }
        i = i + 1;
    }
    assert(regions@.take(i as int) == regions@);
    None
}

/// What `get_task_dump_region` promises.
pub open spec fn get_task_dump_region_post(
    before: Seq<Task>,
    after: Seq<Task>,
    caller: int,
    message: Result<Seq<u8>, FaultInfo>,
    response_before: Result<Seq<u8>, FaultInfo>,
    response_after: Result<Seq<u8>, FaultInfo>,
    r: Result<Directive, UserError>,
) -> bool {
    match received::<(u32, u32)>(message) {
        Err(error) => refused(before, after, r, error) && response_after == response_before,
        Ok((index, rindex)) => if index >= before.len() {
            &&& refused(before, after, r, usage(UsageError::TaskOutOfRange))
            &&& response_after == response_before
        } else {
            answered(
                before,
                after,
                caller,
                response_before,
                response_after,
                r,
                dump_region(before[index as int], rindex),
            )
        },
    }
}

/// Tells the caller where to find one of the regions of a task that are worth a
/// dump, if the task has that many.
pub fn get_task_dump_region(
    tasks: &mut [Task],
    caller: usize,
    message: &Window,
    response: &mut Window,
) -> (r: Result<Directive, UserError>)
    requires
        caller < old(tasks)@.len(),
    ensures
        get_task_dump_region_post(
            old(tasks)@,
            final(tasks)@,
            caller as int,
            message@,
            old(response)@,
            final(response)@,
            r,
        ),
{
    let (index, rindex): (u32, u32) = match deserialize_message::<(u32, u32)>(message) {
        Ok(request) => request,
        Err(error) => return Err(error),
    };
    if index as usize >= tasks.len() {
        return Err(UserError::Unrecoverable(FaultInfo::SyscallUsage(UsageError::TaskOutOfRange)));
    }
    let value = if rindex == 0 {
        let tcb: &TcbImage = &tasks[index as usize].tcb;
        Some(TaskDumpRegion { base: tcb.base_addr(), size: tcb.size() })
    } else {
        nth_dumpable(&tasks[index as usize].regions, rindex as usize - 1)
    };
    answer(tasks, caller, response, &value)
}

/// Whether all of `from` lies within the control block `tcb`.
pub open spec fn within_tcb(from: USlice, tcb: TcbImage) -> bool {
    &&& from.base >= tcb.spec_base()
    &&& from.base + from.length <= tcb.spec_base() + tcb.spec_bytes().len()
}

/// The bytes of the control block `tcb` that lie in `from`.
pub open spec fn tcb_excerpt(from: USlice, tcb: TcbImage) -> Seq<u8> {
    let offset = from.base - tcb.spec_base();
    tcb.spec_bytes().subrange(offset, offset + from.length)
}

/// As many of `bytes` as fit into `room`.
pub open spec fn clipped(bytes: Seq<u8>, room: nat) -> Seq<u8> {
    if bytes.len() <= room {
        bytes
    } else {
        bytes.take(room as int)
    }
}

/// What `read_task_dump_region` promises.
pub open spec fn read_task_dump_region_post(
    before: Seq<Task>,
    after: Seq<Task>,
    caller: int,
    message: Result<Seq<u8>, FaultInfo>,
    to: USlice,
    response_before: Result<Seq<u8>, FaultInfo>,
    response_after: Result<Seq<u8>, FaultInfo>,
    r: Result<Directive, UserError>,
) -> bool {
    if caller != 0 {
        &&& refused(before, after, r, usage(UsageError::NotSupervisor))
        &&& response_after == response_before
    } else {
        match received::<(u32, TaskDumpRegion)>(message) {
            Err(error) => refused(before, after, r, error) && response_after == response_before,
            Ok((index, region)) => {
                let from = USlice { base: region.base, length: region.size };
                if index == caller || index >= before.len() {
                    &&& refused(before, after, r, usage(UsageError::TaskOutOfRange))
                    &&& response_after == response_before
                } else if region.base + region.size > u32::MAX {
                    &&& refused(before, after, r, usage(UsageError::InvalidSlice))
                    &&& response_after == response_before
                } else if within_tcb(from, before[index as int].tcb) {
                    match response_before {
                        Err(fault) => {
                            &&& refused(before, after, r, UserError::Unrecoverable(fault))
                            &&& response_after == response_before
                        },
                        Ok(buffer) => {
                            let bytes = clipped(
                                tcb_excerpt(from, before[index as int].tcb),
                                buffer.len(),
                            );
                            &&& after == before.update(
                                caller,
                                before[caller].answered(bytes.len() as usize),
                            )
                            &&& response_after == Ok::<Seq<u8>, FaultInfo>(
                                overlay(buffer, 0, bytes),
                            )
                            &&& r == Ok::<_, UserError>(Directive::Resume(NextTask::Same))
                        },
                    }
                } else {
                    &&& after == before
                    &&& response_after == response_before
                    &&& r == Ok::<_, UserError>(
                        Directive::Copy { source: index as usize, from, to },
                    )
                }
            },
        }
    }
}

/// Writes `bytes` from `offset` on, `length` of them or as many as fit, to the
/// start of `buffer`. Returns how many there were.
fn copy_excerpt(buffer: &mut Vec<u8>, bytes: &Vec<u8>, offset: usize, length: usize) -> (r: usize)
    requires
        offset + length <= bytes@.len(),
    ensures
        ({
            let data = clipped(
                bytes@.subrange(offset as int, offset + length),
                old(buffer)@.len(),
            );
            &&& r == data.len()
            &&& final(buffer)@ == overlay(old(buffer)@, 0, data)
        }),
{
    let room: usize = buffer.len();
    let available: usize = bytes.len();
    let copy_len: usize = if room < length {
        room
    } else {
        length
    };
    let ghost start = buffer@;
    let ghost data = clipped(bytes@.subrange(offset as int, offset + length), start.len());
    let mut i: usize = 0;
    while i < copy_len
        invariant
            i <= copy_len,
            copy_len <= length,
            copy_len <= start.len(),
            offset + length <= available,
            available == bytes@.len(),
            data.len() == copy_len,
            forall|j: int| 0 <= j < copy_len ==> data[j] == bytes@[offset + j],
            buffer@ == overlay(start, 0, data.take(i as int)),
        decreases copy_len - i,
    {
        buffer[i] = bytes[offset + i];
        i = i + 1;
        assert(buffer@ =~= overlay(start, 0, data.take(i as int)));
    }
    assert(data.take(copy_len as int) == data);
    copy_len
}

/// Gives the supervisor a look into another task: into its control block, if that
/// is where the region lies as a whole, or else, by way of a copy that is yet to
/// be made, into its memory. Whether that is memory of the task shows then.
pub fn read_task_dump_region(
    tasks: &mut [Task],
    caller: usize,
    message: &Window,
    to: USlice,
    response: &mut Window,
) -> (r: Result<Directive, UserError>)
    requires
        caller < old(tasks)@.len(),
    ensures
        read_task_dump_region_post(
            old(tasks)@,
            final(tasks)@,
            caller as int,
            message@,
            to,
            old(response)@,
            final(response)@,
            r,
        ),
{
    if caller != 0 {
        return Err(UserError::Unrecoverable(FaultInfo::SyscallUsage(UsageError::NotSupervisor)));
    }
    let (index, region): (u32, TaskDumpRegion) = match deserialize_message::<
        (u32, TaskDumpRegion),
    >(message) {
        Ok(request) => request,
        Err(error) => return Err(error),
    };
    let index: usize = index as usize;
    if index == caller || index >= tasks.len() {
        return Err(UserError::Unrecoverable(FaultInfo::SyscallUsage(UsageError::TaskOutOfRange)));
    }
    let from = match USlice::from_raw(region.base, region.size) {
        Ok(from) => from,
        Err(error) => return Err(UserError::Unrecoverable(FaultInfo::SyscallUsage(error))),
    };
    let tcb: &TcbImage = &tasks[index].tcb;
    if from.base >= tcb.base_addr() && from.end_addr() <= tcb.end_addr() {
        let offset: u32 = from.base - tcb.base_addr();
        let copied: usize = match response {
            Window::Denied(fault) => return Err(UserError::Unrecoverable(*fault)),
            Window::Granted(buffer) => copy_excerpt(
                buffer,
                tcb.bytes(),
                offset as usize,
                from.length as usize,
            ),
        };
        tasks[caller].set_send_response_and_length(0, copied);
        Ok(Directive::Resume(NextTask::Same))
    } else {
        Ok(Directive::Copy { source: index, from, to })
    }
}

/// What `complete_dump_copy` promises.
pub open spec fn complete_dump_copy_post(
    before: Seq<Task>,
    after: Seq<Task>,
    caller: int,
    outcome: Result<usize, InteractFault>,
    bits: u32,
    r: Result<NextTask, UserError>,
) -> bool {
    match outcome {
        Ok(length) => {
            &&& after == before.update(caller, before[caller].answered(length))
            &&& r == Ok::<_, UserError>(NextTask::Same)
        },
        Err(interact) => {
            &&& after == after_interact(before, caller, interact, bits)
            &&& r == left_of_interact(before, caller, interact, bits)
        },
    }
}

/// Finishes a dump once the copy that it takes has been tried. The caller named
/// the memory on both sides of it, so both faults are the caller's.
pub fn complete_dump_copy(
    tasks: &mut [Task],
    caller: usize,
    outcome: Result<usize, InteractFault>,
    board: &Board,
) -> (r: Result<NextTask, UserError>)
    requires
        caller < old(tasks)@.len(),
    ensures
        complete_dump_copy_post(
            old(tasks)@,
            final(tasks)@,
            caller as int,
            outcome,
            board.fault_notification,
            r,
        ),
        outcome matches Ok(length) ==> final(tasks)@[caller as int].saved.delivery
            == (Delivery::Response { code: 0, length }),
        outcome is Err && outcome->Err_0.src is Some ==> final(tasks)@ == after_fault(
            old(tasks)@,
            caller as int,
            outcome->Err_0.src->Some_0,
            board.fault_notification,
        ),
{
    match outcome {
        Err(interact) => interact.apply_to_src(tasks, caller, board.fault_notification),
        Ok(length) => {
            tasks[caller].set_send_response_and_length(0, length);
            Ok(NextTask::Same)
        },
    }
}

/// The interrupts that belong to `owner`, if any do.
pub open spec fn irqs_of(entries: Seq<IrqEntry>, owner: InterruptOwner) -> Option<Seq<u32>>
    decreases entries.len(),
{
    if entries.len() == 0 {
        None
    } else if entries[0].owner == owner {
        Some(entries[0].irqs@)
    } else {
        irqs_of(entries.drop_first(), owner)
    }
}

fn copy_irqs(irqs: &Vec<u32>) -> (r: Vec<u32>)
    ensures
        r@ == irqs@,
{
    let mut out: Vec<u32> = Vec::new();
    let mut i: usize = 0;
    while i < irqs.len()
        invariant
            i <= irqs@.len(),
            out@ == irqs@.take(i as int),
        decreases irqs@.len() - i,
    {
        out.push(irqs[i]);
        i = i + 1;
        assert(out@ =~= irqs@.take(i as int));
    }
    assert(irqs@.take(i as int) == irqs@);
    out
}

/// Looks up the interrupts that belong to `owner`.
pub fn lookup_irqs(board: &Board, owner: InterruptOwner) -> (r: Option<Vec<u32>>)
    ensures
        match (r, irqs_of(board.irqs@, owner)) {
            (Some(irqs), Some(expected)) => irqs@ == expected,
            (None, None) => true,
            _ => false,
        },
{
    let mut i: usize = 0;
    assert(board.irqs@.skip(0) == board.irqs@);
    while i < board.irqs.len()
        invariant
            i <= board.irqs@.len(),
            irqs_of(board.irqs@, owner) == irqs_of(board.irqs@.skip(i as int), owner),
        decreases board.irqs@.len() - i,
    {
        assert(board.irqs@.skip(i as int).drop_first() == board.irqs@.skip(i + 1));
        if board.irqs[i].owner == owner {
            return Some(copy_irqs(&board.irqs[i].irqs));
        }
        i = i + 1;
    }
    None
}

/// What `software_irq` promises.
pub open spec fn software_irq_post(
    before: Seq<Task>,
    after: Seq<Task>,
    caller: int,
    message: Result<Seq<u8>, FaultInfo>,
    entries: Seq<IrqEntry>,
    r: Result<Directive, UserError>,
) -> bool {
    if caller != 0 {
        refused(before, after, r, usage(UsageError::NotSupervisor))
    } else {
        match received::<(u32, u32)>(message) {
            Err(error) => refused(before, after, r, error),
            Ok((index, notification)) => if index >= before.len() {
                refused(before, after, r, usage(UsageError::TaskOutOfRange))
            } else {
                match irqs_of(entries, InterruptOwner { task: index, notification }) {
                    None => refused(before, after, r, usage(UsageError::NoIrq)),
                    Some(expected) => {
                        &&& after == before.update(caller, before[caller].answered(0))
                        &&& r matches Ok(Directive::Pend { irqs, next }) && irqs@ == expected
                            && next == NextTask::Same
                    },
                }
            },
        }
    }
}

/// Lets the supervisor trigger the interrupts behind a notification of a task.
pub fn software_irq(tasks: &mut [Task], caller: usize, message: &Window, board: &Board) -> (r:
    Result<Directive, UserError>)
    requires
        caller < old(tasks)@.len(),
    ensures
        software_irq_post(
            old(tasks)@,
            final(tasks)@,
            caller as int,
            message@,
            board.irqs@,
            r,
        ),
{
    if caller != 0 {
        return Err(UserError::Unrecoverable(FaultInfo::SyscallUsage(UsageError::NotSupervisor)));
    }
    let (index, notification): (u32, u32) = match deserialize_message::<(u32, u32)>(message) {
        Ok(request) => request,
        Err(error) => return Err(error),
    };
    if index as usize >= tasks.len() {
        return Err(UserError::Unrecoverable(FaultInfo::SyscallUsage(UsageError::TaskOutOfRange)));
    }
    let irqs = match lookup_irqs(board, InterruptOwner { task: index, notification }) {
        Some(irqs) => irqs,
        None => return Err(
            UserError::Unrecoverable(FaultInfo::SyscallUsage(UsageError::NoIrq)),
        ),
    };
    tasks[caller].set_send_response_and_length(0, 0);
    Ok(Directive::Pend { irqs, next: NextTask::Same })
}

/// The index of the first faulted task from `from` on, or 0 if there is none.
pub open spec fn first_faulted(tasks: Seq<Task>, from: int) -> int
    decreases tasks.len() - from,
{
    if from >= tasks.len() {
        0
    } else if tasks[from].state is Faulted {
        from
    } else {
        first_faulted(tasks, from + 1)
    }
}

/// What `find_faulted_task` promises.
pub open spec fn find_faulted_task_post(
    before: Seq<Task>,
    after: Seq<Task>,
    caller: int,
    message: Result<Seq<u8>, FaultInfo>,
    response_before: Result<Seq<u8>, FaultInfo>,
    response_after: Result<Seq<u8>, FaultInfo>,
    r: Result<Directive, UserError>,
) -> bool {
    if caller != 0 {
        &&& refused(before, after, r, usage(UsageError::NotSupervisor))
        &&& response_after == response_before
    } else {
        match received::<u32>(message) {
            Err(error) => refused(before, after, r, error) && response_after == response_before,
            Ok(index) => if index > before.len() {
                &&& refused(before, after, r, usage(UsageError::TaskOutOfRange))
                &&& response_after == response_before
            } else {
                answered(
                    before,
                    after,
                    caller,
                    response_before,
                    response_after,
                    r,
                    first_faulted(before, index as int) as u32,
                )
            },
        }
    }
}

/// Tells the supervisor which task is the next that has faulted. A search from
/// the end of the table is in order, and finds nothing.
pub fn find_faulted_task(
    tasks: &mut [Task],
    caller: usize,
    message: &Window,
    response: &mut Window,
) -> (r: Result<Directive, UserError>)
    requires
        caller < old(tasks)@.len(),
    ensures
        find_faulted_task_post(
            old(tasks)@,
            final(tasks)@,
            caller as int,
            message@,
            old(response)@,
            final(response)@,
            r,
        ),
{
    if caller != 0 {
        return Err(UserError::Unrecoverable(FaultInfo::SyscallUsage(UsageError::NotSupervisor)));
    }
    let index: usize = match deserialize_message::<u32>(message) {
        Ok(index) => index as usize,
        Err(error) => return Err(error),
    };
    if index > tasks.len() {
        return Err(UserError::Unrecoverable(FaultInfo::SyscallUsage(UsageError::TaskOutOfRange)));
    }
    let mut found: usize = 0;
    let mut i: usize = index;
    while i < tasks.len()
        invariant_except_break
            found == 0,
            first_faulted(tasks@, index as int) == first_faulted(tasks@, i as int),
        invariant
            index <= i <= tasks@.len(),
            tasks@ == old(tasks)@,
        ensures
            found == first_faulted(tasks@, index as int),
        decreases tasks@.len() - i,
    {
        if matches!(tasks[i].state, TaskState::Faulted { .. }) {
            found = i;
            break;
        }
        i = i + 1;
    }
    answer(tasks, caller, response, &(found as u32))
}

/// The error that the first of these ranges has that is none, if one has.
pub open spec fn bad_slice(
    first: Result<USlice, UsageError>,
    second: Result<USlice, UsageError>,
) -> Option<UsageError> {
    match (first, second) {
        (Err(error), _) => Some(error),
        (Ok(_), Err(error)) => Some(error),
        (Ok(_), Ok(_)) => None,
    }
}

/// What `handle_kernel_message` promises: the operation that the caller's
/// registers ask for is carried out if the ranges that it takes are ranges; else
/// nothing is.
pub open spec fn handle_kernel_message_post(
    before: Seq<Task>,
    after: Seq<Task>,
    caller: int,
    message: Result<Seq<u8>, FaultInfo>,
    response_before: Result<Seq<u8>, FaultInfo>,
    response_after: Result<Seq<u8>, FaultInfo>,
    board: Board,
    r: Result<Directive, UserError>,
) -> bool {
    let args = before[caller].saved.args;
    let refuses = |error: UsageError|
        {
            &&& refused(before, after, r, usage(error))
            &&& response_after == response_before
        };
    match Kipcnum::spec_from_number(args.operation) {
        None => refuses(UsageError::BadKernelMessage),
        Some(operation) => match operation {
            Kipcnum::ReadTaskStatus => match bad_slice(args.message, args.response) {
                Some(error) => refuses(error),
                None => read_task_status_post(
                    before,
                    after,
                    caller,
                    message,
                    response_before,
                    response_after,
                    r,
                ),
            },
            Kipcnum::RestartTask => match args.message {
                Err(error) => refuses(error),
                Ok(_) => {
                    &&& restart_task_post(before, after, caller, message, r)
                    &&& response_after == response_before
                },
            },
            Kipcnum::FaultTask => match args.message {
                Err(error) => refuses(error),
                Ok(_) => {
                    &&& fault_task_post(
                        before,
                        after,
                        caller,
                        message,
                        board.fault_notification,
                        r,
                    )
                    &&& response_after == response_before
                },
            },
            Kipcnum::ReadImageId => match args.response {
                Err(error) => refuses(error),
                Ok(_) => answered(
                    before,
                    after,
                    caller,
                    response_before,
                    response_after,
                    r,
                    board.image_id,
                ),
            },
            Kipcnum::Reset => match args.message {
                Err(error) => refuses(error),
                Ok(_) => {
                    &&& after == before
                    &&& response_after == response_before
                    &&& r == Ok::<_, UserError>(Directive::Reset)
                },
            },
            Kipcnum::GetTaskDumpRegion => if !board.dump {
                refuses(UsageError::BadKernelMessage)
            } else {
                match bad_slice(args.message, args.response) {
                    Some(error) => refuses(error),
                    None => get_task_dump_region_post(
                        before,
                        after,
                        caller,
                        message,
                        response_before,
                        response_after,
                        r,
                    ),
                }
            },
            Kipcnum::ReadTaskDumpRegion => if !board.dump {
                refuses(UsageError::BadKernelMessage)
            } else {
                match bad_slice(args.message, args.response) {
                    Some(error) => refuses(error),
                    None => read_task_dump_region_post(
                        before,
                        after,
                        caller,
                        message,
                        args.response->Ok_0,
                        response_before,
                        response_after,
                        r,
                    ),
                }
            },
            Kipcnum::SoftwareIrq => match args.message {
                Err(error) => refuses(error),
                Ok(_) => {
                    &&& software_irq_post(before, after, caller, message, board.irqs@, r)
                    &&& response_after == response_before
                },
            },
            Kipcnum::FindFaultedTask => match bad_slice(args.message, args.response) {
                Some(error) => refuses(error),
                None => find_faulted_task_post(
                    before,
                    after,
                    caller,
                    message,
                    response_before,
                    response_after,
                    r,
                ),
            },
        },
    }
}

/// The refusal of a range that is none, in the words of the task's registers.
fn check_slice(slice: Result<USlice, UsageError>) -> (r: Result<USlice, UserError>)
    ensures
        match slice {
            Ok(range) => r == Ok::<_, UserError>(range),
            Err(error) => r == Err::<USlice, _>(usage(error)),
        },
{
    match slice {
        Ok(range) => Ok(range),
        Err(error) => Err(UserError::Unrecoverable(FaultInfo::SyscallUsage(error))),
    }
}

/// Serves a message that the task at `caller` has sent to the kernel. `message`
/// and `response` are what the ranges in the caller's registers stand for in the
/// caller's memory; where a register holds no range, what is passed for it is
/// not looked at.
pub fn handle_kernel_message(
    tasks: &mut [Task],
    caller: usize,
    message: &Window,
    response: &mut Window,
    board: &Board,
) -> (r: Result<Directive, UserError>)
    requires
        caller < old(tasks)@.len(),
    ensures
        handle_kernel_message_post(
            old(tasks)@,
            final(tasks)@,
            caller as int,
            message@,
            old(response)@,
            final(response)@,
            *board,
            r,
        ),
{
    let args = tasks[caller].saved.args;
    match Kipcnum::from_number(args.operation) {
        Some(Kipcnum::ReadTaskStatus) => {
            check_slice(args.message)?;
            check_slice(args.response)?;
            read_task_status(tasks, caller, message, response)
        },
        Some(Kipcnum::RestartTask) => {
            check_slice(args.message)?;
            restart_task(tasks, caller, message)
        },
        Some(Kipcnum::FaultTask) => {
            check_slice(args.message)?;
            fault_task(tasks, caller, message, board)
        },
        Some(Kipcnum::ReadImageId) => {
            check_slice(args.response)?;
            read_image_id(tasks, caller, response, board)
        },
        Some(Kipcnum::Reset) => {
            check_slice(args.message)?;
            reset(tasks, caller, message)
        },
        Some(Kipcnum::GetTaskDumpRegion) if board.dump => {
            check_slice(args.message)?;
            check_slice(args.response)?;
            get_task_dump_region(tasks, caller, message, response)
        },
        Some(Kipcnum::ReadTaskDumpRegion) if board.dump => {
            check_slice(args.message)?;
            let to = check_slice(args.response)?;
            read_task_dump_region(tasks, caller, message, to, response)
        },
        Some(Kipcnum::SoftwareIrq) => {
            check_slice(args.message)?;
            software_irq(tasks, caller, message, board)
        },
        Some(Kipcnum::FindFaultedTask) => {
            check_slice(args.message)?;
            check_slice(args.response)?;
            find_faulted_task(tasks, caller, message, response)
        },
        // Nothing that the kernel knows.
        _ => Err(UserError::Unrecoverable(FaultInfo::SyscallUsage(UsageError::BadKernelMessage))),
    }
}

} // verus!
