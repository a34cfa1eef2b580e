//! What each operation does: when it is served and when it is refused, what the
//! caller is told, and what becomes of the tasks.

use vstd::prelude::*;

use crate::abi::{
    spec_dead_response_code, FaultInfo, FaultSource, Generation, InteractFault, InterruptOwner,
    Kipcnum, NextTask, ReplyFaultReason, SchedState, TaskDumpRegion, TaskId, TaskState, UsageError,
    UserError,
};
use crate::byte_laws::{
    law_answers_as_bytes, law_messages_are_numbers, law_scalars_are_little_endian, number_at,
    region_bytes, status_bytes, word_bytes,
};
use crate::diag::{fault_tag, readback_word, sched_tag};
use crate::kipc::{
    answered, complete_dump_copy_post, dump_region, dumpable, fault_task_post, filled,
    find_faulted_task_post, first_faulted, get_task_dump_region_post, handle_kernel_message_post,
    irqs_of, read_task_dump_region_post, read_task_status_post, reported_length, restart_task_post,
    software_irq_post, Board, Directive, IrqEntry,
};
use crate::laws::{law_search_finds_the_first, lemma_entry_has_number, region_number};
use crate::marshal::{encoded, lemma_longest_fit, longest_fit, Field};
use crate::task::{
    after_fault, hint_after_fault, id_of, Delivery, RegionDesc, SavedState, SendArgs, Task,
};
use crate::umem::{USlice, Window};
use crate::wire::{Response, Wire};
use crate::wire_laws::{law_answer_stays_in_buffer, law_answer_widths};

verus! {

/// The refusal of a request that misuses the kernel's interface.
pub open spec fn misuse(error: UsageError) -> UserError {
    UserError::Unrecoverable(FaultInfo::SyscallUsage(error))
}

/// A task whose registers tell it that its message was served, and how long the
/// response is. Nothing else about it is different.
pub open spec fn told(task: Task, length: usize) -> Task {
    Task {
        saved: SavedState { delivery: Delivery::Response { code: 0, length }, ..task.saved },
        ..task
    }
}

/// Nothing has happened but that the caller was told a length.
pub open spec fn told_only(
    before: Seq<Task>,
    after: Seq<Task>,
    caller: int,
    length: usize,
) -> bool {
    &&& after.len() == before.len()
    &&& after[caller] == told(before[caller], length)
    &&& forall|j: int| 0 <= j < before.len() && j != caller ==> #[trigger] after[j] == before[j]
}

/// The request was served with an answer that looks like `form`, or takes `short`
/// bytes of memory in the kernel: it is in the response buffer, and the rest of the
/// buffer is as it was; or the buffer is too small, holds at most the start of it,
/// and the caller was told the other length.
pub open spec fn served_with(
    before: Seq<Task>,
    after: Seq<Task>,
    caller: int,
    buffer: Seq<u8>,
    response_after: Result<Seq<u8>, FaultInfo>,
    r: Result<Directive, UserError>,
    form: Seq<u8>,
    short: nat,
) -> bool {
    &&& r == Ok::<_, UserError>(Directive::Resume(NextTask::Same))
    &&& response_after is Ok
    &&& form.len() <= buffer.len() ==> {
        &&& response_after->Ok_0 == form + buffer.skip(form.len() as int)
        &&& told_only(before, after, caller, form.len() as usize)
    }
    &&& form.len() > buffer.len() ==> {
        &&& exists|n: int|
            0 <= n <= buffer.len() && #[trigger] (form.take(n) + buffer.skip(n))
                == response_after->Ok_0
        &&& told_only(before, after, caller, short as usize)
    }
}

/// The request was refused with `error`, and nothing else has happened.
pub open spec fn nothing_but(
    before: Seq<Task>,
    after: Seq<Task>,
    response_before: Result<Seq<u8>, FaultInfo>,
    response_after: Result<Seq<u8>, FaultInfo>,
    r: Result<Directive, UserError>,
    error: UserError,
) -> bool {
    &&& r == Err::<Directive, _>(error)
    &&& after == before
    &&& response_after == response_before
}

proof fn lemma_served_with<T: Response>(
    before: Seq<Task>,
    after: Seq<Task>,
    caller: int,
    buffer: Seq<u8>,
    response_after: Result<Seq<u8>, FaultInfo>,
    r: Result<Directive, UserError>,
    value: T,
)
    requires
        0 <= caller < before.len(),
        answered(before, after, caller, Ok(buffer), response_after, r, value),
    ensures
        served_with(
            before,
            after,
            caller,
            buffer,
            response_after,
            r,
            encoded(value.fields()),
            vstd::layout::size_of::<T>(),
        ),
{
    law_answer_stays_in_buffer(value, buffer);
}

/// Of an answer that does not fit into its buffer, as many fields are there as fit
/// whole, from the first on, and behind them is what was there before. The caller
/// is told how much memory such a value takes in the kernel.
pub proof fn law_short_buffer_takes_whole_fields<T: Response>(value: T, buffer: Seq<u8>)
    requires
        encoded(value.fields()).len() > buffer.len(),
    ensures
        exists|k: int|
            {
                &&& 0 <= k < value.fields().len()
                &&& (#[trigger] encoded(value.fields().take(k))).len() <= buffer.len()
                &&& encoded(value.fields().take(k + 1)).len() > buffer.len()
                &&& filled(value, buffer) == encoded(value.fields().take(k)) + buffer.skip(
                    encoded(value.fields().take(k)).len() as int,
                )
            },
        reported_length(value, buffer.len()) == vstd::layout::size_of::<T>(),
{
    let fields = value.fields();
    let k = lemma_longest_fit_count(fields, buffer.len());
    lemma_longest_fit(fields, buffer.len());
    let form = encoded(fields.take(k));
    assert(filled(value, buffer) =~= form + buffer.skip(form.len() as int));
}

proof fn lemma_longest_fit_count(fields: Seq<Field>, room: nat) -> (k: int)
    requires
        encoded(fields).len() > room,
    ensures
        0 <= k < fields.len(),
        longest_fit(fields, room) == fields.take(k),
        encoded(fields.take(k)).len() <= room,
        encoded(fields.take(k + 1)).len() > room,
    decreases fields.len(),
{
    let shorter = fields.drop_last();
    assert(shorter == fields.take(fields.len() - 1));
    if encoded(shorter).len() <= room {
        assert(fields.take(fields.len() as int) == fields);
        assert(longest_fit(shorter, room) == shorter);
        fields.len() - 1
    } else {
        let k = lemma_longest_fit_count(shorter, room);
        assert(shorter.take(k) == fields.take(k));
        assert(shorter.take(k + 1) == fields.take(k + 1));
        k
    }
}

/// A caller that names a task that there is, and has a response buffer, is told the
/// state of that task. That goes for every task, the first and the last, and the
/// caller itself.
pub proof fn law_status_is_served(
    before: Seq<Task>,
    after: Seq<Task>,
    caller: int,
    message: Seq<u8>,
    buffer: Seq<u8>,
    response_after: Result<Seq<u8>, FaultInfo>,
    r: Result<Directive, UserError>,
)
    requires
        0 <= caller < before.len(),
        read_task_status_post(before, after, caller, Ok(message), Ok(buffer), response_after, r),
        message.len() >= 4,
        number_at(message, 0) < before.len(),
    ensures
        r == Ok::<_, UserError>(Directive::Resume(NextTask::Same)),
        served_with(
            before,
            after,
            caller,
            buffer,
            response_after,
            r,
            status_bytes(before[number_at(message, 0)].state),
            vstd::layout::size_of::<TaskState>(),
        ),
{
    law_messages_are_numbers(message, FaultInfo::Panic);
    let state = before[number_at(message, 0)].state;
    law_answers_as_bytes(0, None, state);
    lemma_served_with(before, after, caller, buffer, response_after, r, state);
}

/// A status request is refused for a message that cannot be read, one that is too
/// short, a task that there is not, or a response buffer that is not the caller's;
/// and for nothing else.
pub proof fn law_status_is_refused(
    before: Seq<Task>,
    after: Seq<Task>,
    caller: int,
    message: Result<Seq<u8>, FaultInfo>,
    response_before: Result<Seq<u8>, FaultInfo>,
    response_after: Result<Seq<u8>, FaultInfo>,
    r: Result<Directive, UserError>,
)
    requires
        0 <= caller < before.len(),
        read_task_status_post(before, after, caller, message, response_before, response_after, r),
    ensures
        ({
            let no = |error: UserError|
                nothing_but(before, after, response_before, response_after, r, error);
            match message {
                Err(fault) => no(UserError::Unrecoverable(fault)),
                Ok(bytes) => {
                    &&& bytes.len() < 4 ==> no(misuse(UsageError::BadKernelMessage))
                    &&& bytes.len() >= 4 && number_at(bytes, 0) >= before.len() ==> no(
                        misuse(UsageError::TaskOutOfRange),
                    )
                    &&& bytes.len() >= 4 && number_at(bytes, 0) < before.len() ==> (
                    response_before matches Err(fault) ==> no(UserError::Unrecoverable(fault)))
                    &&& bytes.len() >= 4 && number_at(bytes, 0) < before.len()
                        && response_before is Ok ==> r is Ok
                },
            }
        }),
{
    law_messages_are_numbers(
        match message {
            Ok(bytes) => bytes,
            Err(_) => Seq::empty(),
        },
        match message {
            Ok(_) => FaultInfo::Panic,
            Err(fault) => fault,
        },
    );
}

/// The number by which the task at `index` goes: the index in the low ten bits, its
/// generation in the six above.
pub open spec fn name_of(tasks: Seq<Task>, index: int) -> int {
    index % 1024 + 1024 * (tasks[index].generation.0 as int % 64)
}

/// Names are made of an index and a generation, from which both can be told again.
/// A restart takes a task to the next of sixty-four generations. The code that
/// tells of a death holds the generation in its low byte.
pub proof fn law_names(tasks: Seq<Task>, index: int, generation: Generation)
    requires
        0 <= index < tasks.len(),
    ensures
        id_of(tasks, index).0 == name_of(tasks, index),
        index < 1024 ==> id_of(tasks, index).0 as int % 1024 == index,
        tasks[index].generation.0 < 64 ==> id_of(tasks, index).spec_generation()
            == tasks[index].generation,
        generation.0 < 63 ==> generation.spec_next().0 == generation.0 + 1,
        generation.0 == 63 ==> generation.spec_next().0 == 0,
        generation.spec_next().0 as int == (generation.0 + 1) % 64,
        spec_dead_response_code(generation) == 0xffff_ff00 + generation.0,
{
}

/// Whether a task in this state is healthy and waits to send to, to hear from, or
/// for the reply of the task that goes by the number `name`.
pub open spec fn waits_on(state: TaskState, name: int) -> bool {
    match state {
        TaskState::Healthy(SchedState::InSend(peer)) => peer.0 == name,
        TaskState::Healthy(SchedState::InReply(peer)) => peer.0 == name,
        TaskState::Healthy(SchedState::InRecv(Some(peer))) => peer.0 == name,
        _ => false,
    }
}

/// A caller that names a task that there is gets it restarted. That task is one
/// generation on, at the start of its program, and runs if that was asked for.
/// Whoever else waited for it runs on with a code that holds the generation which
/// is gone, and everyone else is left alone. The caller is told that it was done,
/// unless it is the one that was restarted.
pub proof fn law_restart_is_served(
    before: Seq<Task>,
    after: Seq<Task>,
    caller: int,
    message: Seq<u8>,
    r: Result<Directive, UserError>,
)
    requires
        0 <= caller < before.len(),
        restart_task_post(before, after, caller, Ok(message), r),
        message.len() >= 5,
        message[4] <= 1,
        number_at(message, 0) < before.len(),
    ensures
        ({
            let index = number_at(message, 0);
            let start = message[4] == 1;
            &&& r == Ok::<_, UserError>(
                Directive::Resume(
                    if index == caller && !start {
                        NextTask::Other
                    } else {
                        NextTask::Same
                    },
                ),
            )
            &&& after.len() == before.len()
            &&& after[index].generation.0 as int == (before[index].generation.0 + 1) % 64
            &&& after[index].state == TaskState::Healthy(
                if start {
                    SchedState::Runnable
                } else {
                    SchedState::Stopped
                },
            )
            &&& after[index].notifications == 0
            &&& after[index].saved == SavedState {
                args: SendArgs {
                    operation: 0,
                    message: Ok(USlice { base: 0, length: 0 }),
                    response: Ok(USlice { base: 0, length: 0 }),
                },
                notification_mask: 0,
                delivery: Delivery::Entry,
            }
            &&& after[index].regions == before[index].regions
            &&& after[index].tcb == before[index].tcb
            &&& caller != index ==> after[caller] == told(before[caller], 0)
            &&& forall|j: int|
                0 <= j < before.len() && j != index && j != caller && waits_on(
                    before[j].state,
                    name_of(before, index),
                ) ==> (#[trigger] after[j]) == (Task {
                    state: TaskState::Healthy(SchedState::Runnable),
                    saved: SavedState {
                        delivery: Delivery::Error {
                            code: (0xffff_ff00 + before[index].generation.0 as int % 64) as u32,
                        },
                        ..before[j].saved
                    },
                    ..before[j]
                })
            &&& forall|j: int|
                0 <= j < before.len() && j != index && j != caller && !waits_on(
                    before[j].state,
                    name_of(before, index),
                ) ==> #[trigger] after[j] == before[j]
        }),
{
    law_messages_are_numbers(message, FaultInfo::Panic);
    law_names(before, number_at(message, 0), Generation(0));
}

/// A task that waits for a task other than the one which is restarted goes on
/// waiting, with its registers untouched, whether or not the two have been
/// restarted equally often.
pub proof fn law_restart_leaves_other_waiters_alone(
    before: Seq<Task>,
    after: Seq<Task>,
    caller: int,
    message: Seq<u8>,
    r: Result<Directive, UserError>,
    i: int,
    peer: u16,
)
    requires
        0 <= caller < before.len(),
        restart_task_post(before, after, caller, Ok(message), r),
        r is Ok,
        0 <= i < before.len(),
        i != number_at(message, 0),
        i != caller,
        before[i].state == TaskState::Healthy(SchedState::InSend(TaskId(peer)))
            || before[i].state == TaskState::Healthy(SchedState::InReply(TaskId(peer)))
            || before[i].state == TaskState::Healthy(SchedState::InRecv(Some(TaskId(peer)))),
    ensures
        ({
            let index = number_at(message, 0);
            &&& peer != id_of(before, index).0 ==> after[i] == before[i]
            &&& peer != name_of(before, index) ==> after[i] == before[i]
            &&& forall|k: int|
                before.len() <= 1024 && 0 <= k < before.len() && k != index && peer
                    == #[trigger] name_of(before, k) ==> after[i] == before[i]
            &&& peer == name_of(before, index) ==> after[i].state == TaskState::Healthy(
                SchedState::Runnable,
            )
        }),
{
    let index = number_at(message, 0);
    law_messages_are_numbers(message, FaultInfo::Panic);
    law_restart_is_served(before, after, caller, message, r);
    law_names(before, index, Generation(0));
}

/// A restart is refused for a message that cannot be read, one that is too short or
/// spells no truth value, or a task that there is not; and for nothing else.
pub proof fn law_restart_is_refused(
    before: Seq<Task>,
    after: Seq<Task>,
    caller: int,
    message: Result<Seq<u8>, FaultInfo>,
    r: Result<Directive, UserError>,
)
    requires
        0 <= caller < before.len(),
        restart_task_post(before, after, caller, message, r),
    ensures
        ({
            let no = |error: UserError| r == Err::<Directive, _>(error) && after == before;
            match message {
                Err(fault) => no(UserError::Unrecoverable(fault)),
                Ok(bytes) => {
                    &&& bytes.len() < 5 || bytes[4] > 1 ==> no(misuse(UsageError::BadKernelMessage))
                    &&& bytes.len() >= 5 && bytes[4] <= 1 && number_at(bytes, 0) >= before.len()
                        ==> no(misuse(UsageError::TaskOutOfRange))
                    &&& bytes.len() >= 5 && bytes[4] <= 1 && number_at(bytes, 0) < before.len()
                        ==> r is Ok
                },
            }
        }),
{
    law_messages_are_numbers(
        match message {
            Ok(bytes) => bytes,
            Err(_) => Seq::empty(),
        },
        match message {
            Ok(_) => FaultInfo::Panic,
            Err(fault) => fault,
        },
    );
}

/// A task with `fault` on record, over any record that there was, together with what
/// it was doing when it was last healthy. Nothing else about it is different.
pub open spec fn hit(task: Task, fault: FaultInfo) -> Task {
    Task {
        state: TaskState::Faulted {
            fault,
            original_state: match task.state {
                TaskState::Healthy(sched) => sched,
                TaskState::Faulted { fault: _, original_state } => original_state,
            },
        },
        ..task
    }
}

/// Whether a task that waits for a message would take one from the kernel, and one
/// of the notifications that it listens for is posted once `bits` are.
pub open spec fn heeds(task: Task, bits: u32) -> bool {
    &&& task.state == TaskState::Healthy(SchedState::InRecv(None)) || task.state
        == TaskState::Healthy(SchedState::InRecv(Some(TaskId(0xffff))))
    &&& (task.notifications | bits) & task.saved.notification_mask != 0
}

/// A task to which `bits` were posted. If it heeds them, it runs on with those that
/// it listens for, and they are no longer posted; if not, they are kept.
pub open spec fn notified(task: Task, bits: u32) -> Task {
    let pending = task.notifications | bits;
    let taken = pending & task.saved.notification_mask;
    if heeds(task, bits) {
        Task {
            state: TaskState::Healthy(SchedState::Runnable),
            notifications: pending & !taken,
            saved: SavedState {
                delivery: Delivery::Notifications { bits: taken },
                ..task.saved
            },
            ..task
        }
    } else {
        Task { notifications: pending, ..task }
    }
}

/// What may be done to a task leaves it as it was but for what is meant.
pub proof fn law_tasks(task: Task, fault: FaultInfo, bits: u32, sched: SchedState, length: usize)
    ensures
        task.answered(length) == told(task, length),
        task.healthy(sched) == (Task { state: TaskState::Healthy(sched), ..task }),
        task.faulted(fault) == hit(task, fault),
        task.posted(bits) == notified(task, bits),
        task.wakes(bits) == heeds(task, bits),
        forall|delivery: Delivery| #[trigger]
            task.delivered(delivery) == (Task {
                saved: SavedState { delivery, ..task.saved },
                ..task
            }),
        task.reinitialized().generation.0 as int == (task.generation.0 + 1) % 64,
        task.reinitialized() == (Task {
            generation: task.reinitialized().generation,
            state: TaskState::Healthy(SchedState::Stopped),
            notifications: 0,
            saved: SavedState {
                args: SendArgs {
                    operation: 0,
                    message: Ok(USlice { base: 0, length: 0 }),
                    response: Ok(USlice { base: 0, length: 0 }),
                },
                notification_mask: 0,
                delivery: Delivery::Entry,
            },
            ..task
        }),
{
}

/// No notification is lost: what was posted, or is posted now, is either delivered
/// or still posted, and nothing is delivered that the task does not listen for.
pub proof fn law_notifications_are_kept(task: Task, bits: u32)
    ensures
        task.wakes(bits) ==> {
            &&& task.posted(bits).saved.delivery is Notifications
            &&& task.posted(bits).notifications | task.posted(
                bits,
            ).saved.delivery->Notifications_bits == task.notifications | bits
            &&& task.posted(bits).notifications & task.saved.notification_mask == 0
            &&& task.posted(bits).saved.delivery->Notifications_bits
                & !task.saved.notification_mask == 0
        },
        !task.wakes(bits) ==> {
            &&& task.posted(bits).notifications == task.notifications | bits
            &&& task.posted(bits).saved == task.saved
            &&& task.posted(bits).state == task.state
        },
{
    let (n, m) = (task.notifications, task.saved.notification_mask);
    assert((((n | bits) & !((n | bits) & m)) | ((n | bits) & m)) == n | bits) by (bit_vector);
    assert(((n | bits) & !((n | bits) & m)) & m == 0) by (bit_vector);
    assert(((n | bits) & m) & !m == 0) by (bit_vector);
}

/// The task at `index` was hit by `fault`, and `bits` were posted to the supervisor.
pub open spec fn struck(
    before: Seq<Task>,
    after: Seq<Task>,
    index: int,
    fault: FaultInfo,
    bits: u32,
) -> bool {
    &&& after.len() == before.len()
    &&& index != 0 ==> after[index] == hit(before[index], fault) && after[0] == notified(
        before[0],
        bits,
    )
    &&& index == 0 ==> after[0] == notified(hit(before[0], fault), bits)
    &&& forall|j: int|
        0 < j < before.len() && j != index ==> #[trigger] after[j] == before[j]
}

/// A fault hits one task and is told to the supervisor, which may run next if it
/// wakes; else it is the turn of any task but the one that runs.
pub proof fn law_fault_strikes(tasks: Seq<Task>, index: int, fault: FaultInfo, bits: u32)
    requires
        0 <= index < tasks.len(),
    ensures
        struck(tasks, after_fault(tasks, index, fault, bits), index, fault, bits),
        hint_after_fault(tasks, index, fault, bits) == if index != 0 && heeds(tasks[0], bits) {
            NextTask::Specific(0)
        } else {
            NextTask::Other
        },
{
}

/// A caller that names a task that there is, and that is neither the supervisor nor
/// the caller, gets it faulted under the caller's own name, whichever of the two
/// comes first in the table. The supervisor is notified and the caller told that it
/// was done.
pub proof fn law_fault_is_served(
    before: Seq<Task>,
    after: Seq<Task>,
    caller: int,
    message: Seq<u8>,
    bits: u32,
    r: Result<Directive, UserError>,
)
    requires
        0 <= caller < before.len(),
        fault_task_post(before, after, caller, Ok(message), bits, r),
        message.len() >= 4,
        0 < number_at(message, 0) < before.len(),
        number_at(message, 0) != caller,
    ensures
        ({
            let index = number_at(message, 0);
            let by = TaskId(name_of(before, caller) as u16);
            &&& r == Ok::<_, UserError>(Directive::Resume(NextTask::Same))
            &&& by == id_of(before, caller)
            &&& after.len() == before.len()
            &&& after[index] == hit(before[index], FaultInfo::Injected(by))
            &&& after[index].state is Faulted
            &&& after[index].state->fault == FaultInfo::Injected(id_of(before, caller))
            &&& caller != 0 ==> after[caller] == told(before[caller], 0)
            &&& caller != 0 ==> after[0] == notified(before[0], bits)
            &&& caller == 0 ==> after[0] == told(notified(before[0], bits), 0)
            &&& forall|j: int|
                0 < j < before.len() && j != index && j != caller ==> #[trigger] after[j]
                    == before[j]
        }),
{
    law_messages_are_numbers(message, FaultInfo::Panic);
    law_names(before, caller, Generation(0));
}

/// To inject a fault is refused for a message that cannot be read, one that is too
/// short, the supervisor and the caller itself, or a task that there is not; and
/// for nothing else.
pub proof fn law_fault_is_refused(
    before: Seq<Task>,
    after: Seq<Task>,
    caller: int,
    message: Result<Seq<u8>, FaultInfo>,
    bits: u32,
    r: Result<Directive, UserError>,
)
    requires
        0 <= caller < before.len(),
        fault_task_post(before, after, caller, message, bits, r),
    ensures
        ({
            let no = |error: UserError| r == Err::<Directive, _>(error) && after == before;
            match message {
                Err(fault) => no(UserError::Unrecoverable(fault)),
                Ok(bytes) => {
                    let index = number_at(bytes, 0);
                    &&& bytes.len() < 4 ==> no(misuse(UsageError::BadKernelMessage))
                    &&& bytes.len() >= 4 && (index == 0 || index == caller) ==> no(
                        misuse(UsageError::IllegalTask),
                    )
                    &&& bytes.len() >= 4 && index != 0 && index >= before.len() ==> no(
                        misuse(UsageError::TaskOutOfRange),
                    )
                    &&& bytes.len() >= 4 && 0 < index < before.len() && index != caller ==> r is Ok
                },
            }
        }),
{
    law_messages_are_numbers(
        match message {
            Ok(bytes) => bytes,
            Err(_) => Seq::empty(),
        },
        match message {
            Ok(_) => FaultInfo::Panic,
            Err(fault) => fault,
        },
    );
}

/// A caller with a response buffer of eight bytes gets the identity of the image in
/// it, lowest byte first; one with a smaller buffer keeps it as it was. Either is
/// told eight.
pub proof fn law_image_id_is_served(
    before: Seq<Task>,
    after: Seq<Task>,
    caller: int,
    response_before: Result<Seq<u8>, FaultInfo>,
    response_after: Result<Seq<u8>, FaultInfo>,
    r: Result<Directive, UserError>,
    image_id: u64,
)
    requires
        0 <= caller < before.len(),
        answered(before, after, caller, response_before, response_after, r, image_id),
    ensures
        match response_before {
            Err(fault) => nothing_but(
                before,
                after,
                response_before,
                response_after,
                r,
                UserError::Unrecoverable(fault),
            ),
            Ok(buffer) => {
                let shown = response_after->Ok_0;
                &&& r == Ok::<_, UserError>(Directive::Resume(NextTask::Same))
                &&& told_only(before, after, caller, 8)
                &&& response_after is Ok
                &&& shown.len() == buffer.len()
                &&& buffer.len() >= 8 ==> {
                    &&& number_at(shown, 0) + 0x1_0000_0000 * number_at(shown, 4) == image_id
                    &&& forall|i: int| 8 <= i < buffer.len() ==> #[trigger] shown[i] == buffer[i]
                }
                &&& buffer.len() < 8 ==> shown == buffer
            },
        },
{
    broadcast use vstd::layout::layout_of_primitives;

    if let Ok(buffer) = response_before {
        law_answer_widths(0, image_id, None, TaskState::Healthy(SchedState::Stopped));
        lemma_single_field(image_id, Field::U64(image_id), buffer);
        law_scalars_are_little_endian(0, TaskId(0), 0, image_id);
    }
}

/// An answer of one field is there as a whole or not at all.
proof fn lemma_single_field<T: Response>(value: T, field: Field, buffer: Seq<u8>)
    requires
        value.fields() == seq![field],
    ensures
        encoded(value.fields()) == field.bytes(),
        encoded(value.fields()).len() <= buffer.len() ==> filled(value, buffer) == field.bytes()
            + buffer.skip(field.bytes().len() as int),
        encoded(value.fields()).len() > buffer.len() ==> filled(value, buffer) == buffer,
{
    reveal_with_fuel(encoded, 2);
    law_answer_stays_in_buffer(value, buffer);
    assert(value.fields().drop_last() == Seq::<Field>::empty());
    assert(encoded(value.fields()) =~= field.bytes());
    if encoded(value.fields()).len() > buffer.len() {
        law_short_buffer_takes_whole_fields(value, buffer);
        let k = choose|k: int|
            {
                &&& 0 <= k < value.fields().len()
                &&& (#[trigger] encoded(value.fields().take(k))).len() <= buffer.len()
                &&& encoded(value.fields().take(k + 1)).len() > buffer.len()
                &&& filled(value, buffer) == encoded(value.fields().take(k)) + buffer.skip(
                    encoded(value.fields().take(k)).len() as int,
                )
            };
        assert(k == 0);
        assert(value.fields().take(0) == Seq::<Field>::empty());
        assert(filled(value, buffer) =~= buffer);
    }
}

/// How many of the first `i` entries of a region table can be dumped.
pub open spec fn dumpable_before(regions: Seq<RegionDesc>, i: int) -> nat
    decreases i,
{
    if i <= 0 {
        0
    } else if regions[i - 1].dumpable {
        dumpable_before(regions, i - 1) + 1
    } else {
        dumpable_before(regions, i - 1)
    }
}

proof fn lemma_dumpable_before(regions: Seq<RegionDesc>, i: int)
    requires
        0 <= i <= regions.len(),
    ensures
        dumpable(regions.take(i)).len() == dumpable_before(regions, i),
    decreases i,
{
    reveal(Seq::filter);
    if i > 0 {
        assert(regions.take(i).drop_last() == regions.take(i - 1));
        lemma_dumpable_before(regions, i - 1);
    }
}

/// A caller that names a task that there is, and a number, is told a region: for 0
/// where the control block is, and how long; for each number after that the next
/// entry of the region table that can be dumped; and none once there are no more.
pub proof fn law_dump_region_is_served(
    before: Seq<Task>,
    after: Seq<Task>,
    caller: int,
    message: Seq<u8>,
    buffer: Seq<u8>,
    response_after: Result<Seq<u8>, FaultInfo>,
    r: Result<Directive, UserError>,
)
    requires
        0 <= caller < before.len(),
        get_task_dump_region_post(
            before,
            after,
            caller,
            Ok(message),
            Ok(buffer),
            response_after,
            r,
        ),
        message.len() >= 8,
        number_at(message, 0) < before.len(),
    ensures
        ({
            let task = before[number_at(message, 0)];
            let regions = task.regions@;
            let number = number_at(message, 4);
            let yields = |region: Option<TaskDumpRegion>|
                served_with(
                    before,
                    after,
                    caller,
                    buffer,
                    response_after,
                    r,
                    region_bytes(region),
                    vstd::layout::size_of::<Option<TaskDumpRegion>>(),
                );
            &&& r == Ok::<_, UserError>(Directive::Resume(NextTask::Same))
            &&& number == 0 ==> yields(
                Some(
                    TaskDumpRegion {
                        base: task.tcb.spec_base(),
                        size: task.tcb.spec_bytes().len() as u32,
                    },
                ),
            )
            &&& forall|i: int|
                0 <= i < regions.len() && (#[trigger] regions[i]).dumpable && dumpable_before(
                    regions,
                    i,
                ) + 1 == number ==> yields(
                    Some(TaskDumpRegion { base: regions[i].base, size: regions[i].size }),
                )
            &&& number > dumpable_before(regions, regions.len() as int) ==> yields(None)
        }),
{
    let task = before[number_at(message, 0)];
    let regions = task.regions@;
    let number = number_at(message, 4);
    law_messages_are_numbers(message, FaultInfo::Panic);
    let value = dump_region(task, number as u32);
    law_answers_as_bytes(0, value, task.state);
    lemma_served_with(before, after, caller, buffer, response_after, r, value);
    lemma_dumpable_before(regions, regions.len() as int);
    assert(regions.take(regions.len() as int) == regions);
    assert forall|i: int|
        0 <= i < regions.len() && (#[trigger] regions[i]).dumpable && dumpable_before(regions, i)
            + 1 == number implies value == Some(
        TaskDumpRegion { base: regions[i].base, size: regions[i].size },
    ) by {
        lemma_dumpable_before(regions, i);
        lemma_entry_has_number(regions, i);
        assert(region_number(regions, i) == number);
    }
}

/// A question for a region is refused for a message that cannot be read, one that
/// is too short, a task that there is not, or a response buffer that is not the
/// caller's; and for nothing else.
pub proof fn law_dump_region_is_refused(
    before: Seq<Task>,
    after: Seq<Task>,
    caller: int,
    message: Result<Seq<u8>, FaultInfo>,
    response_before: Result<Seq<u8>, FaultInfo>,
    response_after: Result<Seq<u8>, FaultInfo>,
    r: Result<Directive, UserError>,
)
    requires
        0 <= caller < before.len(),
        get_task_dump_region_post(
            before,
            after,
            caller,
            message,
            response_before,
            response_after,
            r,
        ),
    ensures
        ({
            let no = |error: UserError|
                nothing_but(before, after, response_before, response_after, r, error);
            match message {
                Err(fault) => no(UserError::Unrecoverable(fault)),
                Ok(bytes) => {
                    &&& bytes.len() < 8 ==> no(misuse(UsageError::BadKernelMessage))
                    &&& bytes.len() >= 8 && number_at(bytes, 0) >= before.len() ==> no(
                        misuse(UsageError::TaskOutOfRange),
                    )
                    &&& bytes.len() >= 8 && number_at(bytes, 0) < before.len() ==> (
                    response_before matches Err(fault) ==> no(UserError::Unrecoverable(fault)))
                    &&& bytes.len() >= 8 && number_at(bytes, 0) < before.len()
                        && response_before is Ok ==> r is Ok
                },
            }
        }),
{
    law_messages_are_numbers(
        match message {
            Ok(bytes) => bytes,
            Err(_) => Seq::empty(),
        },
        match message {
            Ok(_) => FaultInfo::Panic,
            Err(fault) => fault,
        },
    );
}

/// What comes of a request for a look into another task. Whoever is not the
/// supervisor is refused, and so is a message that cannot be read or is too short,
/// a look at the supervisor itself or at a task that there is not, and a region
/// that runs over the end of the address space. A region in the control block is
/// shown from its start on, as far as the buffer goes, and the length of what is
/// shown is told. Every other region is left to a copy.
pub proof fn law_dump_read_is_decided(
    before: Seq<Task>,
    after: Seq<Task>,
    caller: int,
    message: Result<Seq<u8>, FaultInfo>,
    to: USlice,
    response_before: Result<Seq<u8>, FaultInfo>,
    response_after: Result<Seq<u8>, FaultInfo>,
    r: Result<Directive, UserError>,
)
    requires
        0 <= caller < before.len(),
        forall|j: int| 0 <= j < before.len() ==> (#[trigger] before[j]).tcb.wf(),
        read_task_dump_region_post(
            before,
            after,
            caller,
            message,
            to,
            response_before,
            response_after,
            r,
        ),
    ensures
        ({
            let no = |error: UserError|
                nothing_but(before, after, response_before, response_after, r, error);
            if caller != 0 {
                no(misuse(UsageError::NotSupervisor))
            } else {
                match message {
                    Err(fault) => no(UserError::Unrecoverable(fault)),
                    Ok(bytes) => if bytes.len() < 12 {
                        no(misuse(UsageError::BadKernelMessage))
                    } else {
                        let index = number_at(bytes, 0);
                        let base = number_at(bytes, 4);
                        let size = number_at(bytes, 8);
                        let block = before[index].tcb.spec_bytes();
                        let start = before[index].tcb.spec_base();
                        if index == 0 || index >= before.len() {
                            no(misuse(UsageError::TaskOutOfRange))
                        } else if base + size > 0xffff_ffff {
                            no(misuse(UsageError::InvalidSlice))
                        } else if start <= base && base + size <= start + block.len() {
                            match response_before {
                                Err(fault) => no(UserError::Unrecoverable(fault)),
                                Ok(buffer) => {
                                    let n = if size <= buffer.len() {
                                        size
                                    } else {
                                        buffer.len() as int
                                    };
                                    let shown = response_after->Ok_0;
                                    &&& r == Ok::<_, UserError>(Directive::Resume(NextTask::Same))
                                    &&& told_only(before, after, 0, n as usize)
                                    &&& after[0].saved.delivery->Response_length == n
                                    &&& response_after is Ok
                                    &&& shown.len() == buffer.len()
                                    &&& forall|i: int|
                                        0 <= i < n ==> #[trigger] shown[i] == block[base - start
                                            + i]
                                    &&& forall|i: int|
                                        n <= i < buffer.len() ==> #[trigger] shown[i] == buffer[i]
                                },
                            }
                        } else {
                            &&& after == before
                            &&& response_after == response_before
                            &&& r is Ok
                            &&& r->Ok_0 is Copy
                            &&& r->Ok_0->source == index
                            &&& r->Ok_0->from.base == base
                            &&& r->Ok_0->from.length == size
                            &&& r->Ok_0->to == to
                        }
                    },
                }
            }
        }),
{
    law_messages_are_numbers(
        match message {
            Ok(bytes) => bytes,
            Err(_) => Seq::empty(),
        },
        match message {
            Ok(_) => FaultInfo::Panic,
            Err(fault) => fault,
        },
    );
    if let Ok(bytes) = message {
        if bytes.len() >= 12 && 0 < number_at(bytes, 0) < before.len() {
            assert(before[number_at(bytes, 0)].tcb.wf());
        }
    }
}

/// What comes of the end of a copy. One that went well is told the caller by the
/// number of bytes that were copied, whatever number that is. A fault at the
/// source hits the caller, and the supervisor is notified; a fault at the
/// destination is handed back; and what may run next is said only if there is none.
pub proof fn law_copy_is_completed(
    before: Seq<Task>,
    after: Seq<Task>,
    caller: int,
    outcome: Result<usize, InteractFault>,
    bits: u32,
    r: Result<NextTask, UserError>,
)
    requires
        0 <= caller < before.len(),
        complete_dump_copy_post(before, after, caller, outcome, bits, r),
    ensures
        match outcome {
            Ok(n) => {
                &&& r == Ok::<_, UserError>(NextTask::Same)
                &&& told_only(before, after, caller, n)
                &&& after[caller].saved.delivery == (Delivery::Response { code: 0, length: n })
            },
            Err(interact) => {
                &&& interact.src is None ==> after == before
                &&& interact.src matches Some(fault) ==> struck(before, after, caller, fault, bits)
                &&& interact.dst matches Some(fault) ==> r == Err::<NextTask, _>(
                    UserError::Unrecoverable(fault),
                )
                &&& interact.dst is None && interact.src is None ==> r == Ok::<_, UserError>(
                    NextTask::Same,
                )
                &&& interact.dst is None && interact.src is Some ==> r == Ok::<_, UserError>(
                    if caller != 0 && heeds(before[0], bits) {
                        NextTask::Specific(0)
                    } else {
                        NextTask::Other
                    },
                )
            },
        },
{
}

/// The interrupts that belong to an owner are those of the first entry that names
/// it; where no owner is named twice, those of the entry that names it. Only an
/// owner that no entry names has none.
pub proof fn law_irqs_are_found(entries: Seq<IrqEntry>, owner: InterruptOwner)
    ensures
        irqs_of(entries, owner) is None <==> forall|i: int|
            0 <= i < entries.len() ==> (#[trigger] entries[i]).owner.task != owner.task
                || entries[i].owner.notification != owner.notification,
        forall|i: int|
            #![trigger entries[i]]
            0 <= i < entries.len() && entries[i].owner.task == owner.task
                && entries[i].owner.notification == owner.notification && (forall|j: int|
                0 <= j < i ==> (#[trigger] entries[j]).owner.task != owner.task
                    || entries[j].owner.notification != owner.notification) ==> irqs_of(
                entries,
                owner,
            ) == Some(entries[i].irqs@),
        (forall|i: int, j: int|
            0 <= i < j < entries.len() ==> (#[trigger] entries[i]).owner != (
            #[trigger] entries[j]).owner) ==> forall|i: int|
            0 <= i < entries.len() && (#[trigger] entries[i]).owner == owner ==> irqs_of(
                entries,
                owner,
            ) == Some(entries[i].irqs@),
    decreases entries.len(),
{
    if entries.len() > 0 {
        let rest = entries.drop_first();
        law_irqs_are_found(rest, owner);
        assert(forall|i: int| 0 <= i < rest.len() ==> #[trigger] rest[i] == entries[i + 1]);
        assert(forall|i: int| 1 <= i < entries.len() ==> #[trigger] entries[i] == rest[i - 1]);
        if entries[0].owner != owner {
            assert forall|i: int|
                #![trigger entries[i]]
                0 <= i < entries.len() && entries[i].owner.task == owner.task
                    && entries[i].owner.notification == owner.notification && (forall|j: int|
                    0 <= j < i ==> (#[trigger] entries[j]).owner.task != owner.task
                        || entries[j].owner.notification != owner.notification) implies irqs_of(
                entries,
                owner,
            ) == Some(entries[i].irqs@) by {
                assert(i > 0);
                assert(rest[i - 1] == entries[i]);
                assert forall|j: int| 0 <= j < i - 1 implies (#[trigger] rest[j]).owner.task
                    != owner.task || rest[j].owner.notification != owner.notification by {
                    assert(entries[j + 1] == rest[j]);
                }
            }
        }
        if forall|i: int, j: int|
            0 <= i < j < entries.len() ==> (#[trigger] entries[i]).owner != (
            #[trigger] entries[j]).owner {
            assert forall|i: int, j: int| 0 <= i < j < rest.len() implies (
            #[trigger] rest[i]).owner != (#[trigger] rest[j]).owner by {
                assert(entries[i + 1].owner != entries[j + 1].owner);
            }
            assert forall|i: int|
                0 <= i < entries.len() && (#[trigger] entries[i]).owner == owner implies irqs_of(
                entries,
                owner,
            ) == Some(entries[i].irqs@) by {
                if i > 0 {
                    assert(entries[0].owner != entries[i].owner);
                    assert(rest[i - 1] == entries[i]);
                }
            }
        }
    }
}

/// Every notification finds its own interrupts, where no owner is named twice.
pub proof fn law_irqs_of_every_entry(entries: Seq<IrqEntry>, i: int)
    requires
        0 <= i < entries.len(),
        forall|j: int, k: int|
            0 <= j < k < entries.len() ==> (#[trigger] entries[j]).owner != (
            #[trigger] entries[k]).owner,
    ensures
        irqs_of(entries, entries[i].owner) == Some(entries[i].irqs@),
{
    law_irqs_are_found(entries, entries[i].owner);
}

/// What comes of a request to trigger interrupts. Whoever is not the supervisor is
/// refused, and so is a message that cannot be read or is too short, a task that
/// there is not, and a notification that has no interrupts. Else the interrupts of
/// the entry that names the task and the notification are to be pended, all of them
/// and in order, and the caller is told that it was done.
pub proof fn law_software_irq_is_decided(
    before: Seq<Task>,
    after: Seq<Task>,
    caller: int,
    message: Result<Seq<u8>, FaultInfo>,
    entries: Seq<IrqEntry>,
    r: Result<Directive, UserError>,
)
    requires
        0 <= caller < before.len(),
        software_irq_post(before, after, caller, message, entries, r),
    ensures
        ({
            let no = |error: UserError| r == Err::<Directive, _>(error) && after == before;
            if caller != 0 {
                no(misuse(UsageError::NotSupervisor))
            } else {
                match message {
                    Err(fault) => no(UserError::Unrecoverable(fault)),
                    Ok(bytes) => if bytes.len() < 8 {
                        no(misuse(UsageError::BadKernelMessage))
                    } else {
                        let index = number_at(bytes, 0);
                        let notification = number_at(bytes, 4);
                        let named = |i: int|
                            entries[i].owner.task == index && entries[i].owner.notification
                                == notification;
                        &&& index >= before.len() ==> no(misuse(UsageError::TaskOutOfRange))
                        &&& index < before.len() && (forall|i: int|
                            0 <= i < entries.len() ==> !#[trigger] named(i)) ==> no(
                            misuse(UsageError::NoIrq),
                        )
                        &&& forall|i: int|
                            index < before.len() && 0 <= i < entries.len() && #[trigger] named(i)
                                && (forall|j: int| 0 <= j < i ==> !#[trigger] named(j)) ==> {
                                &&& told_only(before, after, 0, 0)
                                &&& r is Ok
                                &&& r->Ok_0 is Pend
                                &&& r->Ok_0->irqs@ == entries[i].irqs@
                                &&& r->Ok_0->next == NextTask::Same
                            }
                    },
                }
            }
        }),
{
    law_messages_are_numbers(
        match message {
            Ok(bytes) => bytes,
            Err(_) => Seq::empty(),
        },
        match message {
            Ok(_) => FaultInfo::Panic,
            Err(fault) => fault,
        },
    );
    if let Ok(bytes) = message {
        if bytes.len() >= 8 {
            let index = number_at(bytes, 0);
            let notification = number_at(bytes, 4);
            let owner = InterruptOwner { task: index as u32, notification: notification as u32 };
            let named = |i: int|
                entries[i].owner.task == index && entries[i].owner.notification == notification;
            law_irqs_are_found(entries, owner);
            if forall|i: int| 0 <= i < entries.len() ==> !#[trigger] named(i) {
                assert forall|i: int| 0 <= i < entries.len() implies (
                #[trigger] entries[i]).owner.task != owner.task || entries[i].owner.notification
                    != owner.notification by {
                    assert(!named(i));
                }
            }
            assert forall|i: int|
                0 <= i < entries.len() && #[trigger] named(i) && (forall|j: int|
                    0 <= j < i ==> !#[trigger] named(j)) implies irqs_of(entries, owner) == Some(
                entries[i].irqs@,
            ) by {
                assert forall|j: int| 0 <= j < i implies (#[trigger] entries[j]).owner.task
                    != owner.task || entries[j].owner.notification != owner.notification by {
                    assert(!named(j));
                }
                assert(entries[i].owner.task == owner.task);
            }
        }
    }
}

/// What comes of a search. Whoever is not the supervisor is refused, and so is a
/// message that cannot be read or is too short, and a search from behind the end of
/// the table. Else the answer is the first task from the one named that has faulted,
/// or 0 if none has; it is in the buffer if there are four bytes for it, and four is
/// what the caller is told.
pub proof fn law_search_is_decided(
    before: Seq<Task>,
    after: Seq<Task>,
    caller: int,
    message: Result<Seq<u8>, FaultInfo>,
    response_before: Result<Seq<u8>, FaultInfo>,
    response_after: Result<Seq<u8>, FaultInfo>,
    r: Result<Directive, UserError>,
)
    requires
        0 <= caller < before.len() <= u32::MAX,
        find_faulted_task_post(before, after, caller, message, response_before, response_after, r),
    ensures
        ({
            let no = |error: UserError|
                nothing_but(before, after, response_before, response_after, r, error);
            if caller != 0 {
                no(misuse(UsageError::NotSupervisor))
            } else {
                match (message, response_before) {
                    (Err(fault), _) => no(UserError::Unrecoverable(fault)),
                    (Ok(bytes), _) if bytes.len() < 4 => no(misuse(UsageError::BadKernelMessage)),
                    (Ok(bytes), _) if number_at(bytes, 0) > before.len() => no(
                        misuse(UsageError::TaskOutOfRange),
                    ),
                    (Ok(_), Err(fault)) => no(UserError::Unrecoverable(fault)),
                    (Ok(bytes), Ok(buffer)) => {
                        let from = number_at(bytes, 0);
                        let shown = response_after->Ok_0;
                        let found = number_at(shown, 0);
                        &&& r == Ok::<_, UserError>(Directive::Resume(NextTask::Same))
                        &&& told_only(before, after, 0, 4)
                        &&& response_after is Ok
                        &&& shown.len() == buffer.len()
                        &&& buffer.len() < 4 ==> shown == buffer
                        &&& buffer.len() >= 4 ==> {
                            &&& forall|i: int|
                                4 <= i < buffer.len() ==> #[trigger] shown[i] == buffer[i]
                            &&& (forall|j: int|
                                from <= j < before.len() ==> !((
                                #[trigger] before[j]).state is Faulted)) ==> found == 0
                            &&& forall|k: int|
                                from <= k < before.len() && (#[trigger] before[k]).state is Faulted
                                    ==> {
                                    &&& from <= found <= k
                                    &&& before[found].state is Faulted
                                }
                        }
                    },
                }
            }
        }),
{
    broadcast use vstd::layout::layout_of_primitives;

    law_messages_are_numbers(
        match message {
            Ok(bytes) => bytes,
            Err(_) => Seq::empty(),
        },
        match message {
            Ok(_) => FaultInfo::Panic,
            Err(fault) => fault,
        },
    );
    if let (Ok(bytes), Ok(buffer)) = (message, response_before) {
        if caller == 0 && bytes.len() >= 4 && number_at(bytes, 0) <= before.len() {
            let from = number_at(bytes, 0);
            law_search_finds_the_first(before, from);
            let found = first_faulted(before, from) as u32;
            law_answer_widths(found, 0, None, before[0].state);
            law_scalars_are_little_endian(0, TaskId(0), found, 0);
            lemma_single_field(found, Field::U32(found), buffer);
            if buffer.len() >= 4 {
                let shown = response_after->Ok_0;
                assert(shown == word_bytes(found) + buffer.skip(4));
                assert(number_at(shown, 0) == number_at(word_bytes(found), 0));
            }
        }
    }
}

/// Whether the operation that goes by this number takes a message.
pub open spec fn takes_message(operation: u16) -> bool {
    1 <= operation <= 9 && operation != 4
}

/// Whether the operation that goes by this number takes a response buffer.
pub open spec fn takes_response(operation: u16) -> bool {
    operation == 1 || operation == 4 || operation == 6 || operation == 7 || operation == 9
}

/// What comes of a message by the number of its operation. One that the kernel does
/// not know is refused, and so is one that takes a range where the registers hold
/// none, the message before the response. Every other is served by the operation
/// that goes by the number.
pub proof fn law_dispatch(
    before: Seq<Task>,
    after: Seq<Task>,
    caller: int,
    message: Result<Seq<u8>, FaultInfo>,
    response_before: Result<Seq<u8>, FaultInfo>,
    response_after: Result<Seq<u8>, FaultInfo>,
    board: Board,
    r: Result<Directive, UserError>,
)
    requires
        0 <= caller < before.len(),
        handle_kernel_message_post(
            before,
            after,
            caller,
            message,
            response_before,
            response_after,
            board,
            r,
        ),
    ensures
        ({
            let args = before[caller].saved.args;
            let op = args.operation;
            let known = 1 <= op <= 9 && (op == 6 || op == 7 ==> board.dump);
            let no = |error: UsageError|
                nothing_but(before, after, response_before, response_after, r, misuse(error));
            let same = response_after == response_before;
            if !known {
                no(UsageError::BadKernelMessage)
            } else if takes_message(op) && args.message is Err {
                no(args.message->Err_0)
            } else if takes_response(op) && args.response is Err {
                no(args.response->Err_0)
            } else {
                &&& op == 1 ==> read_task_status_post(
                    before,
                    after,
                    caller,
                    message,
                    response_before,
                    response_after,
                    r,
                )
                &&& op == 2 ==> restart_task_post(before, after, caller, message, r) && same
                &&& op == 3 ==> fault_task_post(
                    before,
                    after,
                    caller,
                    message,
                    board.fault_notification,
                    r,
                ) && same
                &&& op == 4 ==> answered(
                    before,
                    after,
                    caller,
                    response_before,
                    response_after,
                    r,
                    board.image_id,
                )
                &&& op == 5 ==> r == Ok::<_, UserError>(Directive::Reset) && after == before && same
                &&& op == 6 ==> get_task_dump_region_post(
                    before,
                    after,
                    caller,
                    message,
                    response_before,
                    response_after,
                    r,
                )
                &&& op == 7 ==> read_task_dump_region_post(
                    before,
                    after,
                    caller,
                    message,
                    args.response->Ok_0,
                    response_before,
                    response_after,
                    r,
                )
                &&& op == 8 ==> software_irq_post(before, after, caller, message, board.irqs@, r)
                    && same
                &&& op == 9 ==> find_faulted_task_post(
                    before,
                    after,
                    caller,
                    message,
                    response_before,
                    response_after,
                    r,
                )
            }
        }),
{
}

/// The operations go by these numbers, and no number but these names one.
pub proof fn law_operation_numbers(number: u16)
    ensures
        Kipcnum::spec_from_number(1) == Some(Kipcnum::ReadTaskStatus),
        Kipcnum::spec_from_number(2) == Some(Kipcnum::RestartTask),
        Kipcnum::spec_from_number(3) == Some(Kipcnum::FaultTask),
        Kipcnum::spec_from_number(4) == Some(Kipcnum::ReadImageId),
        Kipcnum::spec_from_number(5) == Some(Kipcnum::Reset),
        Kipcnum::spec_from_number(6) == Some(Kipcnum::GetTaskDumpRegion),
        Kipcnum::spec_from_number(7) == Some(Kipcnum::ReadTaskDumpRegion),
        Kipcnum::spec_from_number(8) == Some(Kipcnum::SoftwareIrq),
        Kipcnum::spec_from_number(9) == Some(Kipcnum::FindFaultedTask),
        Kipcnum::spec_from_number(number) is Some <==> 1 <= number <= 9,
{
}

/// A window shows all of the memory that was asked for, or the fault.
pub proof fn law_windows_show_all(bytes: Vec<u8>, fault: FaultInfo)
    ensures
        Window::Granted(bytes)@ == Ok::<Seq<u8>, FaultInfo>(bytes@),
        Window::Denied(fault)@ == Err::<Seq<u8>, FaultInfo>(fault),
{
}

/// A word that is printed for a byte of a response holds the byte in its low eight
/// bits and the position above them. Tags tell apart what a task can be doing, and
/// what can be wrong with it, and nothing else.
pub proof fn law_diagnostics(i: int, byte: u8, a: TaskId, b: TaskId, word: u32)
    requires
        0 <= i,
    ensures
        readback_word(i, byte) as int % 0x100 == byte,
        readback_word(i, byte) as int / 0x100 == i % 0x100_0000,
        i < 0x100_0000 ==> readback_word(i, byte) == 0x100 * i + byte,
        sched_tag(SchedState::Stopped) == 0,
        sched_tag(SchedState::Runnable) == 1,
        sched_tag(SchedState::InSend(a)) == 2,
        sched_tag(SchedState::InReply(a)) == 3,
        sched_tag(SchedState::InRecv(None)) == 4,
        sched_tag(SchedState::InRecv(Some(a))) == 4,
        forall|address: Option<u32>, source: FaultSource|
            #[trigger] fault_tag(FaultInfo::MemoryAccess { address, source }) == 0,
        fault_tag(FaultInfo::StackOverflow { address: word }) == 1,
        forall|address: Option<u32>, source: FaultSource|
            #[trigger] fault_tag(FaultInfo::BusError { address, source }) == 2,
        fault_tag(FaultInfo::DivideByZero) == 3,
        fault_tag(FaultInfo::IllegalText) == 4,
        fault_tag(FaultInfo::IllegalInstruction) == 5,
        fault_tag(FaultInfo::InvalidOperation(word)) == 6,
        forall|error: UsageError| #[trigger] fault_tag(FaultInfo::SyscallUsage(error)) == 7,
        fault_tag(FaultInfo::Panic) == 8,
        fault_tag(FaultInfo::Injected(b)) == 9,
        forall|reason: ReplyFaultReason|
            #[trigger] fault_tag(FaultInfo::FromServer(b, reason)) == 10,
{
}

} // verus!
