//! What holds of the kernel's operations as a whole.

use vstd::prelude::*;

use crate::abi::{
    usage, FaultInfo, InteractFault, Kipcnum, NextTask, SchedState, TaskDumpRegion, TaskState,
    UsageError, UserError, FIRST_DEAD_CODE,
};
use crate::kipc::{
    bereaved, complete_dump_copy_post, dump_region, dumpable, fault_task_post,
    find_faulted_task_post, first_faulted, handle_kernel_message_post, read_task_dump_region_post,
    read_task_status_post, received, restart_task_post, restarted, tcb_excerpt, within_tcb, Board,
    Directive,
};
use crate::marshal::encoded;
use crate::task::{id_of, Delivery, RegionDesc, Task};
use crate::umem::USlice;
use crate::wire::Wire;
use crate::wire_laws::{law_answer_widths, law_response_reads_back, law_response_tells_value};

verus! {

/// After a restart nobody waits for the incarnation that is gone. This is said of
/// a caller that is running, as a caller is: of its state the restart of another
/// task changes nothing.
pub proof fn law_restart_leaves_nobody_waiting(
    before: Seq<Task>,
    after: Seq<Task>,
    caller: int,
    index: int,
    start: bool,
)
    requires
        0 <= caller < before.len(),
        0 <= index < before.len(),
        restarted(before, after, caller, index, start),
        !before[caller].state.waits_for(id_of(before, index)),
    ensures
        forall|j: int|
            0 <= j < after.len() ==> !(#[trigger] after[j]).state.waits_for(id_of(before, index)),
{
}

/// A restart touches no fault record but that of the task that is restarted.
pub proof fn law_restart_keeps_fault_records(
    before: Seq<Task>,
    after: Seq<Task>,
    caller: int,
    index: int,
    start: bool,
)
    requires
        0 <= caller < before.len(),
        0 <= index < before.len(),
        restarted(before, after, caller, index, start),
    ensures
        !(after[index].state is Faulted),
        forall|j: int|
            0 <= j < before.len() && j != index && (#[trigger] before[j]).state is Faulted
                ==> after[j].state == before[j].state,
        forall|j: int|
            0 <= j < before.len() && j != index && j != caller && (
            #[trigger] before[j]).state is Faulted ==> after[j] == before[j],
{
    assert forall|j: int|
        0 <= j < before.len() && j != index && (
        #[trigger] before[j]).state is Faulted implies after[j].state == before[j].state by {
        assert(j == caller || after[j] == bereaved(before[j], id_of(before, index)));
    }
    assert forall|j: int|
        0 <= j < before.len() && j != index && j != caller && (
        #[trigger] before[j]).state is Faulted implies after[j] == before[j] by {
        assert(after[j] == bereaved(before[j], id_of(before, index)));
    }
}

/// A restarted task goes by a new name, and everyone else by the old one.
pub proof fn law_restart_renews_identity(
    before: Seq<Task>,
    after: Seq<Task>,
    caller: int,
    index: int,
    start: bool,
)
    requires
        0 <= caller < before.len(),
        0 <= index < before.len(),
        restarted(before, after, caller, index, start),
    ensures
        id_of(after, index) != id_of(before, index),
        forall|j: int|
            0 <= j < before.len() && j != index ==> #[trigger] id_of(after, j) == id_of(before, j),
{
    assert forall|j: int|
        0 <= j < before.len() && j != index implies #[trigger] id_of(after, j) == id_of(
        before,
        j,
    ) by {
        assert(j == caller || after[j] == bereaved(before[j], id_of(before, index)));
    }
}

/// Names tell the tasks of one table apart, as long as a name has room for all of
/// the indices.
pub proof fn law_identities_differ(tasks: Seq<Task>, i: int, j: int)
    requires
        tasks.len() <= 1024,
        0 <= i < tasks.len(),
        0 <= j < tasks.len(),
        i != j,
    ensures
        id_of(tasks, i) != id_of(tasks, j),
{
}

/// Whoever waited for a task that is restarted, and only they, are woken, and
/// find a code that names the generation which is gone.
pub proof fn law_restart_tells_who_waited(
    before: Seq<Task>,
    after: Seq<Task>,
    caller: int,
    index: int,
    start: bool,
    j: int,
)
    requires
        0 <= caller < before.len(),
        0 <= index < before.len(),
        restarted(before, after, caller, index, start),
        0 <= j < before.len(),
        j != index,
        j != caller,
    ensures
        before[j].state.waits_for(id_of(before, index)) ==> {
            &&& after[j].state == TaskState::Healthy(SchedState::Runnable)
            &&& after[j].saved.delivery is Error
            &&& after[j].saved.delivery->Error_code == FIRST_DEAD_CODE + (
            before[index].generation.0 % 64)
        },
        !before[j].state.waits_for(id_of(before, index)) ==> after[j] == before[j],
{
    assert(after[j] == bereaved(before[j], id_of(before, index)));
}

/// An injected fault is on record in the task that it was meant for, under the
/// name of the task that injected it, together with what the task was doing.
pub proof fn law_injected_fault_names_injector(
    before: Seq<Task>,
    after: Seq<Task>,
    caller: int,
    message: Result<Seq<u8>, FaultInfo>,
    bits: u32,
    r: Result<Directive, UserError>,
)
    requires
        0 <= caller < before.len(),
        fault_task_post(before, after, caller, message, bits, r),
        r is Ok,
    ensures
        ({
            let index = received::<u32>(message)->Ok_0 as int;
            &&& after[index].state == TaskState::Faulted {
                fault: FaultInfo::Injected(id_of(before, caller)),
                original_state: before[index].state.sched(),
            }
            &&& forall|j: int|
                0 <= j < before.len() && j != index && j != 0 ==> (
                #[trigger] after[j]).state == before[j].state
        }),
{
}

/// A task that was faulted by injection is one that a search finds, unless the
/// search finds another one before it; and one from its index on finds it at once.
pub proof fn law_injected_fault_is_found(
    before: Seq<Task>,
    after: Seq<Task>,
    caller: int,
    message: Result<Seq<u8>, FaultInfo>,
    bits: u32,
    r: Result<Directive, UserError>,
    from: int,
)
    requires
        0 <= caller < before.len(),
        fault_task_post(before, after, caller, message, bits, r),
        r is Ok,
        0 <= from <= received::<u32>(message)->Ok_0,
    ensures
        ({
            let index = received::<u32>(message)->Ok_0 as int;
            &&& from <= first_faulted(after, from) <= index
            &&& first_faulted(after, index) == index
        }),
{
    let index = received::<u32>(message)->Ok_0 as int;
    assert(after[index].state is Faulted);
    law_search_finds_the_first(after, from);
}

/// A restart takes an injected fault back: the task is at the start of its program
/// again, with nothing on record, whatever it was doing before the fault.
pub proof fn law_restart_undoes_fault(
    before: Seq<Task>,
    between: Seq<Task>,
    after: Seq<Task>,
    injector: int,
    restarter: int,
    message: Result<Seq<u8>, FaultInfo>,
    bits: u32,
    r: Result<Directive, UserError>,
    start: bool,
)
    requires
        0 <= injector < before.len(),
        0 <= restarter < before.len(),
        fault_task_post(before, between, injector, message, bits, r),
        r is Ok,
        restarted(between, after, restarter, received::<u32>(message)->Ok_0 as int, start),
    ensures
        ({
            let index = received::<u32>(message)->Ok_0 as int;
            after[index] == if start {
                before[index].reinitialized().healthy(SchedState::Runnable)
            } else {
                before[index].reinitialized()
            }
        }),
{
}

/// Of two faults of one task the later is the one that stays on record, and the
/// state on record is that from before the first.
pub proof fn law_last_fault_wins(task: Task, first: FaultInfo, second: FaultInfo)
    ensures
        task.faulted(first).faulted(second) == task.faulted(second),
        task.faulted(first).state is Faulted,
        task.faulted(first).state.sched() == task.state.sched(),
{
}

/// To serve a message faults neither the supervisor nor the task that sent it: what
/// the sender is to be faulted with, if anything, is in the refusal or, where a
/// copy is yet to be made, in what comes of the copy.
pub proof fn law_message_faults_neither_supervisor_nor_caller(
    before: Seq<Task>,
    after: Seq<Task>,
    caller: int,
    message: Result<Seq<u8>, FaultInfo>,
    response_before: Result<Seq<u8>, FaultInfo>,
    response_after: Result<Seq<u8>, FaultInfo>,
    board: Board,
    r: Result<Directive, UserError>,
)
    requires
        0 <= caller < before.len(),
        handle_kernel_message_post(
            before,
            after,
            caller,
            message,
            response_before,
            response_after,
            board,
            r,
        ),
    ensures
        after[0].state is Faulted ==> before[0].state is Faulted,
        after[caller].state is Faulted ==> before[caller].state is Faulted,
{
    lemma_restart_of(before, after, caller, message, r, 0);
    lemma_restart_of(before, after, caller, message, r, caller);
}

/// What a restart makes of the task at `j`, whichever it is.
proof fn lemma_restart_of(
    before: Seq<Task>,
    after: Seq<Task>,
    caller: int,
    message: Result<Seq<u8>, FaultInfo>,
    r: Result<Directive, UserError>,
    j: int,
)
    requires
        0 <= caller < before.len(),
        0 <= j < before.len(),
    ensures
        restart_task_post(before, after, caller, message, r) ==> {
            &&& after.len() == before.len()
            &&& after[j].state is Faulted ==> before[j].state is Faulted
            &&& after[j].regions == before[j].regions
            &&& after[j].tcb == before[j].tcb
        },
{
    if restart_task_post(before, after, caller, message, r) && r is Ok {
        let index = received::<(u32, bool)>(message)->Ok_0.0 as int;
        assert(restarted(
            before,
            after,
            caller,
            index,
            received::<(u32, bool)>(message)->Ok_0.1,
        ));
        if j != index && j != caller {
            assert(after[j] == bereaved(before[j], id_of(before, index)));
        }
    }
}

/// A message that is refused when it is served has changed nothing, neither in the
/// task table nor in the caller's memory.
pub proof fn law_refusal_changes_nothing(
    before: Seq<Task>,
    after: Seq<Task>,
    caller: int,
    message: Result<Seq<u8>, FaultInfo>,
    response_before: Result<Seq<u8>, FaultInfo>,
    response_after: Result<Seq<u8>, FaultInfo>,
    board: Board,
    r: Result<Directive, UserError>,
)
    requires
        0 <= caller < before.len(),
        handle_kernel_message_post(
            before,
            after,
            caller,
            message,
            response_before,
            response_after,
            board,
            r,
        ),
        r is Err,
    ensures
        after == before,
        response_after == response_before,
{
}

/// Only the supervisor can search for faulted tasks, trigger interrupts, or look
/// into other tasks. Anyone else who asks for that in due form is told so.
pub proof fn law_supervisor_alone(
    before: Seq<Task>,
    after: Seq<Task>,
    caller: int,
    message: Result<Seq<u8>, FaultInfo>,
    response_before: Result<Seq<u8>, FaultInfo>,
    response_after: Result<Seq<u8>, FaultInfo>,
    board: Board,
    r: Result<Directive, UserError>,
)
    requires
        0 <= caller < before.len(),
        handle_kernel_message_post(
            before,
            after,
            caller,
            message,
            response_before,
            response_after,
            board,
            r,
        ),
        caller != 0,
    ensures
        ({
            let args = before[caller].saved.args;
            let operation = Kipcnum::spec_from_number(args.operation);
            let denied = Err::<Directive, _>(usage(UsageError::NotSupervisor));
            &&& operation == Some(Kipcnum::ReadTaskDumpRegion) ==> r is Err
            &&& operation == Some(Kipcnum::SoftwareIrq) ==> r is Err
            &&& operation == Some(Kipcnum::FindFaultedTask) ==> r is Err
            &&& operation == Some(Kipcnum::ReadTaskDumpRegion) && board.dump && args.message is Ok
                && args.response is Ok ==> r == denied
            &&& operation == Some(Kipcnum::SoftwareIrq) && args.message is Ok ==> r == denied
            &&& operation == Some(Kipcnum::FindFaultedTask) && args.message is Ok
                && args.response is Ok ==> r == denied
        }),
        !(r matches Ok(Directive::Pend { .. })),
        !(r matches Ok(Directive::Copy { .. })),
{
}

/// Without support for dumps in the kernel, to ask for one is to ask for nothing
/// that the kernel knows.
pub proof fn law_no_dumps_unless_supported(
    before: Seq<Task>,
    after: Seq<Task>,
    caller: int,
    message: Result<Seq<u8>, FaultInfo>,
    response_before: Result<Seq<u8>, FaultInfo>,
    response_after: Result<Seq<u8>, FaultInfo>,
    board: Board,
    r: Result<Directive, UserError>,
)
    requires
        0 <= caller < before.len(),
        handle_kernel_message_post(
            before,
            after,
            caller,
            message,
            response_before,
            response_after,
            board,
            r,
        ),
        !board.dump,
        ({
            let operation = Kipcnum::spec_from_number(before[caller].saved.args.operation);
            ||| operation == Some(Kipcnum::GetTaskDumpRegion)
            ||| operation == Some(Kipcnum::ReadTaskDumpRegion)
            ||| operation is None
        }),
    ensures
        r == Err::<Directive, _>(usage(UsageError::BadKernelMessage)),
        after == before,
        response_after == response_before,
{
}

/// No message adds or removes a task, or changes what memory a task has.
pub proof fn law_table_keeps_its_shape(
    before: Seq<Task>,
    after: Seq<Task>,
    caller: int,
    message: Result<Seq<u8>, FaultInfo>,
    response_before: Result<Seq<u8>, FaultInfo>,
    response_after: Result<Seq<u8>, FaultInfo>,
    board: Board,
    r: Result<Directive, UserError>,
)
    requires
        0 <= caller < before.len(),
        handle_kernel_message_post(
            before,
            after,
            caller,
            message,
            response_before,
            response_after,
            board,
            r,
        ),
    ensures
        after.len() == before.len(),
        forall|j: int|
            0 <= j < before.len() ==> (#[trigger] after[j]).regions == before[j].regions
                && after[j].tcb == before[j].tcb,
{
    lemma_restart_of(before, after, caller, message, r, caller);
    assert forall|j: int| 0 <= j < before.len() implies (#[trigger] after[j]).regions
        == before[j].regions && after[j].tcb == before[j].tcb by {
        lemma_restart_of(before, after, caller, message, r, j);
    }
}

/// Nor does the end of a dump add or remove a task, or change what memory a task
/// has, whatever came of the copy.
pub proof fn law_table_keeps_its_shape_after_copy(
    before: Seq<Task>,
    after: Seq<Task>,
    caller: int,
    outcome: Result<usize, InteractFault>,
    bits: u32,
    r: Result<NextTask, UserError>,
)
    requires
        0 <= caller < before.len(),
        complete_dump_copy_post(before, after, caller, outcome, bits, r),
    ensures
        after.len() == before.len(),
        forall|j: int|
            0 <= j < before.len() ==> (#[trigger] after[j]).regions == before[j].regions
                && after[j].tcb == before[j].tcb && after[j].generation == before[j].generation,
{
}

/// What the supervisor is told when it looks for a faulted task from `from` on:
/// the first one, or 0 if there is none.
pub proof fn law_search_finds_the_first(tasks: Seq<Task>, from: int)
    requires
        0 <= from <= tasks.len(),
    ensures
        ({
            let found = first_faulted(tasks, from);
            ||| {
                &&& from <= found < tasks.len()
                &&& tasks[found].state is Faulted
                &&& forall|j: int| from <= j < found ==> !((#[trigger] tasks[j]).state is Faulted)
            }
            ||| {
                &&& found == 0
                &&& forall|j: int|
                    from <= j < tasks.len() ==> !((#[trigger] tasks[j]).state is Faulted)
            }
        }),
        from == tasks.len() ==> first_faulted(tasks, from) == 0,
    decreases tasks.len() - from,
{
    if from < tasks.len() {
        law_search_finds_the_first(tasks, from + 1);
    }
}

/// What a supervisor finds that searches from `from` on, then from behind what it
/// found, and so on until it is told 0.
pub open spec fn sweep(tasks: Seq<Task>, from: int) -> Seq<int>
    decreases tasks.len() - from,
    when 0 < from <= tasks.len()
    via sweep_ends
{
    let found = first_faulted(tasks, from);
    if found == 0 {
        Seq::empty()
    } else {
        seq![found] + sweep(tasks, found + 1)
    }
}

#[via_fn]
proof fn sweep_ends(tasks: Seq<Task>, from: int) {
    law_search_finds_the_first(tasks, from);
}

/// A supervisor that sweeps the table comes by every faulted task behind `from`
/// and by no other, and by each of them once, in order.
pub proof fn law_sweep_is_complete(tasks: Seq<Task>, from: int)
    requires
        0 < from <= tasks.len(),
    ensures
        forall|j: int|
            from <= j < tasks.len() && (#[trigger] tasks[j]).state is Faulted ==> sweep(
                tasks,
                from,
            ).contains(j),
        forall|k: int|
            0 <= k < sweep(tasks, from).len() ==> {
                &&& from <= #[trigger] sweep(tasks, from)[k] < tasks.len()
                &&& tasks[sweep(tasks, from)[k]].state is Faulted
            },
        forall|k: int, l: int|
            0 <= k < l < sweep(tasks, from).len() ==> #[trigger] sweep(tasks, from)[k]
                < #[trigger] sweep(tasks, from)[l],
    decreases tasks.len() - from,
{
    law_search_finds_the_first(tasks, from);
    let found = first_faulted(tasks, from);
    if found != 0 {
        law_sweep_is_complete(tasks, found + 1);
        let whole = sweep(tasks, from);
        let rest = sweep(tasks, found + 1);
        assert(whole == seq![found] + rest);
        assert forall|j: int|
            from <= j < tasks.len() && (
            #[trigger] tasks[j]).state is Faulted implies whole.contains(j) by {
            if j == found {
                assert(whole[0] == j);
            } else {
                assert(rest.contains(j));
                let k = choose|k: int| 0 <= k < rest.len() && rest[k] == j;
                assert(whole[k + 1] == j);
            }
        }
        assert forall|k: int| 0 <= k < whole.len() implies {
            &&& from <= #[trigger] whole[k] < tasks.len()
            &&& tasks[whole[k]].state is Faulted
        } by {
            if k > 0 {
                assert(whole[k] == rest[k - 1]);
            }
        }
        assert forall|k: int, l: int| 0 <= k < l < whole.len() implies #[trigger] whole[k]
            < #[trigger] whole[l] by {
            assert(whole[l] == rest[l - 1]);
            if k > 0 {
                assert(whole[k] == rest[k - 1]);
            }
        }
    }
}

proof fn lemma_search_by_states(a: Seq<Task>, b: Seq<Task>, from: int)
    requires
        a.len() == b.len(),
        0 <= from <= a.len(),
        forall|j: int| 0 <= j < a.len() ==> (#[trigger] a[j]).state == b[j].state,
    ensures
        first_faulted(a, from) == first_faulted(b, from),
    decreases a.len() - from,
{
    if from < a.len() {
        assert(a[from].state == b[from].state);
        lemma_search_by_states(a, b, from + 1);
    }
}

/// A search from any place in the table or from its end succeeds, tells the
/// supervisor the first faulted task in a buffer of four bytes, and changes the
/// state of no task.
pub proof fn law_search_is_told(
    before: Seq<Task>,
    after: Seq<Task>,
    message: Seq<u8>,
    buffer: Seq<u8>,
    response: Result<Seq<u8>, FaultInfo>,
    r: Result<Directive, UserError>,
)
    requires
        0 < before.len() <= u32::MAX,
        buffer.len() >= 4,
        received::<u32>(Ok(message)) is Ok,
        received::<u32>(Ok(message))->Ok_0 <= before.len(),
        find_faulted_task_post(before, after, 0, Ok(message), Ok(buffer), response, r),
    ensures
        r == Ok::<_, UserError>(Directive::Resume(NextTask::Same)),
        received::<u32>(response) is Ok,
        received::<u32>(response)->Ok_0 == first_faulted(
            before,
            received::<u32>(Ok(message))->Ok_0 as int,
        ),
        after.len() == before.len(),
        forall|j: int| 0 <= j < before.len() ==> (#[trigger] after[j]).state == before[j].state,
{
    let from = received::<u32>(Ok(message))->Ok_0 as int;
    law_search_finds_the_first(before, from);
    let found = first_faulted(before, from) as u32;
    law_answer_widths(found, 0, None, before[0].state);
    law_response_reads_back(found, buffer);
}

/// What the supervisor was told in the `k`th of `responses`.
pub open spec fn told(responses: Seq<Result<Seq<u8>, FaultInfo>>, k: int) -> u32 {
    received::<u32>(responses[k])->Ok_0
}

/// The supervisor searches `messages.len()` times: first from 1 on, and then each
/// time from behind the task that it was told last, until it is told 0. The table
/// is `tables[k]` before the `k`th search.
pub open spec fn searched_on(
    tables: Seq<Seq<Task>>,
    messages: Seq<Seq<u8>>,
    buffers: Seq<Seq<u8>>,
    responses: Seq<Result<Seq<u8>, FaultInfo>>,
    results: Seq<Result<Directive, UserError>>,
) -> bool {
    &&& tables.len() == messages.len() + 1
    &&& buffers.len() == messages.len()
    &&& responses.len() == messages.len()
    &&& results.len() == messages.len()
    &&& forall|k: int| 0 <= k < messages.len() ==> (#[trigger] buffers[k]).len() >= 4
    &&& forall|k: int|
        0 <= k < messages.len() ==> find_faulted_task_post(
            tables[k],
            tables[k + 1],
            0,
            Ok(#[trigger] messages[k]),
            Ok(buffers[k]),
            responses[k],
            results[k],
        )
    &&& forall|k: int|
        0 <= k < messages.len() ==> {
            &&& received::<u32>(Ok(#[trigger] messages[k])) is Ok
            &&& received::<u32>(Ok(messages[k]))->Ok_0 == if k == 0 {
                1
            } else {
                told(responses, k - 1) + 1
            }
        }
    &&& forall|k: int| 0 <= k < messages.len() - 1 ==> #[trigger] told(responses, k) != 0
}

/// The state of a sweep by searches after the first `k` of them.
proof fn lemma_searched_on(
    tables: Seq<Seq<Task>>,
    messages: Seq<Seq<u8>>,
    buffers: Seq<Seq<u8>>,
    responses: Seq<Result<Seq<u8>, FaultInfo>>,
    results: Seq<Result<Directive, UserError>>,
    k: int,
)
    requires
        0 <= k < messages.len(),
        0 < tables[0].len() <= u32::MAX,
        searched_on(tables, messages, buffers, responses, results),
    ensures
        tables[k].len() == tables[0].len(),
        forall|j: int|
            0 <= j < tables[0].len() ==> (#[trigger] tables[k][j]).state == tables[0][j].state,
        ({
            let from = received::<u32>(Ok(messages[k]))->Ok_0 as int;
            let whole = sweep(tables[0], 1);
            &&& 0 < from <= tables[0].len()
            &&& k <= whole.len()
            &&& sweep(tables[0], from) == whole.skip(k)
            &&& results[k] == Ok::<_, UserError>(Directive::Resume(NextTask::Same))
            &&& told(responses, k) == first_faulted(tables[0], from)
            &&& k < whole.len() ==> told(responses, k) == whole[k]
            &&& k == whole.len() ==> told(responses, k) == 0
        }),
    decreases k,
{
    let whole = sweep(tables[0], 1);
    let from = received::<u32>(Ok(messages[k]))->Ok_0 as int;
    if k == 0 {
        assert(whole.skip(0) == whole);
    } else {
        let previous = received::<u32>(Ok(messages[k - 1]))->Ok_0 as int;
        lemma_searched_on(tables, messages, buffers, responses, results, k - 1);
        law_search_is_told(
            tables[k - 1],
            tables[k],
            messages[k - 1],
            buffers[k - 1],
            responses[k - 1],
            results[k - 1],
        );
        let found = told(responses, k - 1) as int;
        assert(found != 0);
        law_search_finds_the_first(tables[0], previous);
        assert(sweep(tables[0], previous) == seq![found] + sweep(tables[0], found + 1));
        assert(whole.skip(k) =~= whole.skip(k - 1).drop_first());
        assert((seq![found] + sweep(tables[0], found + 1)).drop_first() =~= sweep(
            tables[0],
            found + 1,
        ));
        assert(from == found + 1);
    }
    law_search_is_told(
        tables[k],
        tables[k + 1],
        messages[k],
        buffers[k],
        responses[k],
        results[k],
    );
    lemma_search_by_states(tables[k], tables[0], from);
    law_search_finds_the_first(tables[0], from);
    let rest = sweep(tables[0], from);
    let found = first_faulted(tables[0], from);
    if found != 0 {
        assert(rest == seq![found] + sweep(tables[0], found + 1));
        assert(rest[0] == found);
        assert(whole.skip(k)[0] == whole[k]);
    } else {
        assert(rest.len() == 0);
    }
}

/// A supervisor that searches again from behind each task that it is told, until it
/// is told 0, is never refused; it is told every faulted task but the one at 0, and
/// no other, each once and in order; and it is told 0 after no more searches than
/// there are tasks. This is said of tables whose indices an answer has room for.
pub proof fn law_searches_sweep_the_table(
    tables: Seq<Seq<Task>>,
    messages: Seq<Seq<u8>>,
    buffers: Seq<Seq<u8>>,
    responses: Seq<Result<Seq<u8>, FaultInfo>>,
    results: Seq<Result<Directive, UserError>>,
)
    requires
        0 < tables[0].len() <= u32::MAX,
        searched_on(tables, messages, buffers, responses, results),
    ensures
        forall|k: int|
            0 <= k < messages.len() ==> #[trigger] results[k] == Ok::<_, UserError>(
                Directive::Resume(NextTask::Same),
            ),
        messages.len() <= tables[0].len(),
        messages.len() == tables[0].len() ==> told(responses, messages.len() - 1) == 0,
        forall|k: int|
            0 <= k < messages.len() && #[trigger] told(responses, k) != 0 ==> {
                &&& told(responses, k) < tables[0].len()
                &&& tables[0][told(responses, k) as int].state is Faulted
            },
        forall|k: int, l: int|
            0 <= k < l < messages.len() && #[trigger] told(responses, l) != 0 ==> (
            #[trigger] told(responses, k)) < told(responses, l),
        messages.len() > 0 && told(responses, messages.len() - 1) == 0 ==> forall|j: int|
            0 < j < tables[0].len() && (#[trigger] tables[0][j]).state is Faulted ==> exists|k: int|
                0 <= k < messages.len() && #[trigger] told(responses, k) == j,
{
    let whole = sweep(tables[0], 1);
    law_sweep_is_complete(tables[0], 1);
    lemma_sweep_len(tables[0], 1);
    assert forall|k: int| 0 <= k < messages.len() implies #[trigger] results[k] == Ok::<
        _,
        UserError,
    >(Directive::Resume(NextTask::Same)) by {
        lemma_searched_on(tables, messages, buffers, responses, results, k);
    }
    if messages.len() > 0 {
        lemma_searched_on(
            tables,
            messages,
            buffers,
            responses,
            results,
            messages.len() - 1,
        );
    }
    assert forall|k: int| 0 <= k < messages.len() && #[trigger] told(responses, k) != 0 implies {
        &&& told(responses, k) < tables[0].len()
        &&& tables[0][told(responses, k) as int].state is Faulted
    } by {
        lemma_searched_on(tables, messages, buffers, responses, results, k);
        assert(whole[k] == told(responses, k));
    }
    assert forall|k: int, l: int|
        0 <= k < l < messages.len() && #[trigger] told(responses, l) != 0 implies (
    #[trigger] told(responses, k)) < told(responses, l) by {
        lemma_searched_on(tables, messages, buffers, responses, results, k);
        lemma_searched_on(tables, messages, buffers, responses, results, l);
        assert(whole[k] < whole[l]);
    }
    if messages.len() > 0 && told(responses, messages.len() - 1) == 0 {
        assert forall|j: int|
            0 < j < tables[0].len() && (
            #[trigger] tables[0][j]).state is Faulted implies exists|k: int|
            0 <= k < messages.len() && #[trigger] told(responses, k) == j by {
            assert(whole.contains(j));
            let k = choose|k: int| 0 <= k < whole.len() && whole[k] == j;
            lemma_searched_on(tables, messages, buffers, responses, results, k);
            assert(told(responses, k) == j);
        }
    }
}

/// A sweep finds no more tasks than there are from its start on.
proof fn lemma_sweep_len(tasks: Seq<Task>, from: int)
    requires
        0 < from <= tasks.len(),
    ensures
        sweep(tasks, from).len() <= tasks.len() - from,
    decreases tasks.len() - from,
{
    law_search_finds_the_first(tasks, from);
    let found = first_faulted(tasks, from);
    if found != 0 {
        lemma_sweep_len(tasks, found + 1);
    }
}

/// The number that the entry at `i` of a region table goes by, if it can be dumped:
/// one more than there are such entries before it.
pub open spec fn region_number(regions: Seq<RegionDesc>, i: int) -> nat {
    dumpable(regions.take(i)).len() + 1
}

/// The numbers of a task's regions run from 0 for the control block up to the
/// number of regions that can be dumped, without a gap. Behind each number from 1
/// on is an entry of the region table that can be dumped, and every such entry has
/// a number of its own, in the order of the table, as far as numbers go.
pub proof fn law_dump_regions_enumerate(task: Task)
    ensures
        forall|rindex: u32| (#[trigger] dump_region(task, rindex)) is Some <==> rindex <= dumpable(
            task.regions@,
        ).len(),
        forall|rindex: u32|
            0 < rindex <= dumpable(task.regions@).len() ==> exists|i: int|
                {
                    &&& 0 <= i < task.regions@.len()
                    &&& task.regions@[i].dumpable
                    &&& #[trigger] region_number(task.regions@, i) == rindex
                    &&& (#[trigger] dump_region(task, rindex)) == Some(
                        TaskDumpRegion { base: task.regions@[i].base, size: task.regions@[i].size },
                    )
                },
        forall|i: int|
            0 <= i < task.regions@.len() && task.regions@[i].dumpable && (
            #[trigger] region_number(task.regions@, i)) <= u32::MAX ==> dump_region(
                task,
                region_number(task.regions@, i) as u32,
            ) == Some(
                TaskDumpRegion { base: task.regions@[i].base, size: task.regions@[i].size },
            ),
        forall|i: int, j: int|
            0 <= i < j < task.regions@.len() && task.regions@[i].dumpable ==> (
            #[trigger] region_number(task.regions@, i)) < #[trigger] region_number(
                task.regions@,
                j,
            ),
{
    let regions = task.regions@;
    assert forall|rindex: u32| 0 < rindex <= dumpable(regions).len() implies exists|i: int|
        {
            &&& 0 <= i < regions.len()
            &&& regions[i].dumpable
            &&& #[trigger] region_number(regions, i) == rindex
            &&& (#[trigger] dump_region(task, rindex)) == Some(
                TaskDumpRegion { base: regions[i].base, size: regions[i].size },
            )
        } by {
        let i = lemma_number_has_entry(regions, rindex - 1);
        lemma_entry_has_number(regions, i);
        assert(region_number(regions, i) == rindex);
    }
    assert forall|i: int|
        0 <= i < regions.len() && regions[i].dumpable && (#[trigger] region_number(regions, i))
            <= u32::MAX implies dump_region(task, region_number(regions, i) as u32) == Some(
        TaskDumpRegion { base: regions[i].base, size: regions[i].size },
    ) by {
        lemma_entry_has_number(regions, i);
    }
    assert forall|i: int, j: int| 0 <= i < j < regions.len() && regions[i].dumpable implies (
    #[trigger] region_number(regions, i)) < #[trigger] region_number(regions, j) by {
        assert(regions.take(j).take(i) == regions.take(i));
        lemma_entry_has_number(regions.take(j), i);
    }
}

pub proof fn lemma_entry_has_number(regions: Seq<RegionDesc>, i: int)
    requires
        0 <= i < regions.len(),
        regions[i].dumpable,
    ensures
        region_number(regions, i) <= dumpable(regions).len(),
        dumpable(regions)[region_number(regions, i) - 1] == regions[i],
    decreases regions.len(),
{
    reveal(Seq::filter);
    let shorter = regions.drop_last();
    if i == regions.len() - 1 {
        assert(regions.take(i) == shorter);
    } else {
        assert(regions.take(i) == shorter.take(i));
        lemma_entry_has_number(shorter, i);
    }
}

proof fn lemma_number_has_entry(regions: Seq<RegionDesc>, n: int) -> (i: int)
    requires
        0 <= n < dumpable(regions).len(),
    ensures
        0 <= i < regions.len(),
        regions[i].dumpable,
        region_number(regions, i) == n + 1,
    decreases regions.len(),
{
    reveal(Seq::filter);
    let shorter = regions.drop_last();
    if n < dumpable(shorter).len() {
        let i = lemma_number_has_entry(shorter, n);
        assert(regions.take(i) == shorter.take(i));
        i
    } else {
        assert(regions.take(regions.len() - 1) == shorter);
        regions.len() - 1
    }
}

/// The region that goes by the number 0 is one that the supervisor can have: all
/// of it lies in the control block, and all of the control block is what it gets
/// into a buffer that is large enough.
pub proof fn law_control_block_can_be_read(task: Task)
    requires
        task.tcb.wf(),
    ensures
        ({
            let region = dump_region(task, 0)->Some_0;
            let from = USlice { base: region.base, length: region.size };
            &&& from.wf()
            &&& within_tcb(from, task.tcb)
            &&& tcb_excerpt(from, task.tcb) == task.tcb.spec_bytes()
        }),
{
    let region = dump_region(task, 0)->Some_0;
    let from = USlice { base: region.base, length: region.size };
    assert(tcb_excerpt(from, task.tcb) =~= task.tcb.spec_bytes());
}

/// What the supervisor gets to see of a control block are bytes of the control
/// block, and the rest of its buffer is left alone.
pub proof fn law_control_block_read_is_exact(
    before: Seq<Task>,
    after: Seq<Task>,
    message: Result<Seq<u8>, FaultInfo>,
    to: USlice,
    buffer: Seq<u8>,
    response_after: Result<Seq<u8>, FaultInfo>,
    r: Result<Directive, UserError>,
)
    requires
        0 < before.len(),
        forall|j: int| 0 <= j < before.len() ==> (#[trigger] before[j]).tcb.wf(),
        read_task_dump_region_post(
            before,
            after,
            0,
            message,
            to,
            Ok(buffer),
            response_after,
            r,
        ),
        r == Ok::<_, UserError>(Directive::Resume(NextTask::Same)),
    ensures
        ({
            let (index, region) = received::<(u32, TaskDumpRegion)>(message)->Ok_0;
            let tcb = before[index as int].tcb;
            let shown = response_after->Ok_0;
            let length = after[0].saved.delivery->Response_length as int;
            &&& after[0].saved.delivery is Response
            &&& length <= buffer.len() && length <= region.size
            &&& length == buffer.len() || length == region.size
            &&& response_after is Ok && shown.len() == buffer.len()
            &&& forall|i: int|
                0 <= i < length ==> #[trigger] shown[i] == tcb.spec_bytes()[region.base
                    - tcb.spec_base() + i]
            &&& forall|i: int| length <= i < buffer.len() ==> #[trigger] shown[i] == buffer[i]
        }),
{
    let (index, region) = received::<(u32, TaskDumpRegion)>(message)->Ok_0;
    assert(before[index as int].tcb.wf());
}

/// The caller is charged for what went wrong on either side of a copy: the fault
/// at the source is on its record, and the fault at the destination goes over it
/// when the refusal is dealt with. Nothing is charged to the task that was looked
/// into.
pub proof fn law_copy_faults_are_the_callers(
    before: Seq<Task>,
    after: Seq<Task>,
    caller: int,
    interact: InteractFault,
    bits: u32,
    r: Result<NextTask, UserError>,
)
    requires
        0 <= caller < before.len(),
        complete_dump_copy_post(before, after, caller, Err(interact), bits, r),
    ensures
        interact.src matches Some(fault) ==> after[caller].state == before[caller].faulted(
            fault,
        ).state,
        interact.dst matches Some(fault) ==> r == Err::<NextTask, _>(
            UserError::Unrecoverable(fault),
        ) && after[caller].faulted(fault).state == before[caller].faulted(fault).state,
        interact.dst is None ==> r is Ok,
        interact.src is None ==> after == before,
        after.len() == before.len(),
        forall|j: int|
            0 <= j < before.len() && j != caller && j != 0 ==> #[trigger] after[j] == before[j],
{
}

/// A caller that asks for the status of a task and is told a length for which it
/// has room finds a report in its buffer, which is that of no other state than the
/// one that the task is in.
pub proof fn law_status_is_told(
    before: Seq<Task>,
    after: Seq<Task>,
    caller: int,
    message: Result<Seq<u8>, FaultInfo>,
    buffer: Seq<u8>,
    response_after: Result<Seq<u8>, FaultInfo>,
    r: Result<Directive, UserError>,
    state: TaskState,
)
    requires
        0 <= caller < before.len(),
        read_task_status_post(before, after, caller, message, Ok(buffer), response_after, r),
        r is Ok,
        ({
            let index = received::<u32>(message)->Ok_0 as int;
            encoded(before[index].state.fields()).len() <= buffer.len()
        }),
    ensures
        ({
            let index = received::<u32>(message)->Ok_0 as int;
            let length = encoded(before[index].state.fields()).len();
            &&& after[caller].saved.delivery == Delivery::Response {
                code: 0,
                length: length as usize,
            }
            &&& encoded(state.fields()).is_prefix_of(response_after->Ok_0) <==> state
                == before[index].state
        }),
{
    let index = received::<u32>(message)->Ok_0 as int;
    law_response_tells_value(before[index].state, buffer, state);
}

} // verus!
