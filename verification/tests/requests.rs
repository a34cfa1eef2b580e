//! Every operation, what it answers, and what it refuses.

use kipc::abi::{
    FaultInfo, FaultSource, Generation, InteractFault, InterruptOwner, NextTask, SchedState,
    TaskId, TaskState, UsageError, UserError,
};
use kipc::kipc::{
    complete_dump_copy, fault_task, find_faulted_task, get_task_dump_region,
    handle_kernel_message, lookup_irqs, read_image_id, read_task_dump_region, read_task_status,
    reset, restart_task, software_irq, Board, Directive, IrqEntry,
};
use kipc::task::{Delivery, RegionDesc, SavedState, SendArgs, Task};
use kipc::umem::{TcbImage, USlice, Window};

const SAME: Result<Directive, UserError> = Ok(Directive::Resume(NextTask::Same));

const FOREIGN: FaultInfo =
    FaultInfo::MemoryAccess { address: Some(0x2000_0000), source: FaultSource::Kernel };

/// A running task whose control block is at 0x1000 times its index plus one.
fn task(index: u32) -> Task {
    let base = 0x1000 * (index + 1);
    let bytes: Vec<u8> = (0..32u8).map(|b| b + 100 * index as u8).collect();
    Task {
        generation: Generation(index as u8),
        state: TaskState::Healthy(SchedState::Runnable),
        notifications: 0,
        saved: SavedState {
            args: SendArgs {
                operation: 0,
                message: Ok(USlice { base: 0x8000, length: 64 }),
                response: Ok(USlice { base: 0x9000, length: 64 }),
            },
            notification_mask: 0,
            delivery: Delivery::Nothing,
        },
        regions: vec![
            RegionDesc { base: 0x100, size: 0x10, dumpable: false },
            RegionDesc { base: 0x200, size: 0x20, dumpable: true },
            RegionDesc { base: 0x300, size: 0x30, dumpable: false },
            RegionDesc { base: 0x400, size: 0x40, dumpable: true },
        ],
        tcb: TcbImage::new(base, bytes).unwrap(),
    }
}

fn table(count: u32) -> Vec<Task> {
    (0..count).map(task).collect()
}

fn board() -> Board {
    Board {
        image_id: 0x0123_4567_89ab_cdef,
        fault_notification: 0b100,
        dump: true,
        irqs: vec![
            IrqEntry {
                owner: InterruptOwner { task: 1, notification: 2 },
                irqs: vec![7, 9],
            },
            IrqEntry { owner: InterruptOwner { task: 2, notification: 2 }, irqs: vec![] },
        ],
    }
}

fn granted(bytes: &[u8]) -> Window {
    Window::Granted(bytes.to_vec())
}

fn words(numbers: &[u32]) -> Window {
    Window::Granted(numbers.iter().flat_map(|n| n.to_le_bytes()).collect())
}

fn refusal<T>(error: UsageError) -> Result<T, UserError> {
    Err(UserError::Unrecoverable(FaultInfo::SyscallUsage(error)))
}

fn answer(length: usize) -> Delivery {
    Delivery::Response { code: 0, length }
}

/// Sends a message from `caller` through the dispatcher.
fn send(
    tasks: &mut Vec<Task>,
    caller: usize,
    operation: u16,
    message: &Window,
    response: &mut Window,
    board: &Board,
) -> Result<Directive, UserError> {
    tasks[caller].saved.args.operation = operation;
    handle_kernel_message(tasks, caller, message, response, board)
}

#[test]
fn status_of_a_runnable_task() {
    let mut tasks = table(3);
    let mut response = granted(&[0xee; 6]);
    let r = read_task_status(&mut tasks, 2, &words(&[1]), &mut response);
    assert_eq!(r, SAME);
    assert_eq!(response, granted(&[0, 1, 0xee, 0xee, 0xee, 0xee]));
    assert_eq!(tasks[2].saved.delivery, answer(2));
    assert_eq!(tasks[1], task(1));
    assert_eq!(tasks[0], task(0));
}

#[test]
fn status_of_a_faulted_task() {
    let mut tasks = table(2);
    tasks[1].state = TaskState::Faulted {
        fault: FaultInfo::StackOverflow { address: 0x1122_3344 },
        original_state: SchedState::InReply(TaskId(0x0402)),
    };
    let mut response = granted(&[0xee; 10]);
    let r = read_task_status(&mut tasks, 0, &words(&[1]), &mut response);
    assert_eq!(r, SAME);
    assert_eq!(response, granted(&[1, 1, 0x44, 0x33, 0x22, 0x11, 3, 0x02, 0x04, 0xee]));
    assert_eq!(tasks[0].saved.delivery, answer(9));
}

#[test]
fn status_in_too_small_a_buffer() {
    let mut tasks = table(2);
    tasks[1].state = TaskState::Faulted {
        fault: FaultInfo::StackOverflow { address: 0x1122_3344 },
        original_state: SchedState::Runnable,
    };
    let mut response = granted(&[0xee; 5]);
    let r = read_task_status(&mut tasks, 0, &words(&[1]), &mut response);
    assert_eq!(r, SAME);
    // The address takes four bytes, and only three are left.
    assert_eq!(response, granted(&[1, 1, 0xee, 0xee, 0xee]));
    assert_eq!(tasks[0].saved.delivery, answer(std::mem::size_of::<TaskState>()));
}

#[test]
fn status_request_refused() {
    let mut tasks = table(2);
    let mut response = granted(&[0xee; 8]);
    assert_eq!(
        read_task_status(&mut tasks, 0, &words(&[2]), &mut response),
        refusal(UsageError::TaskOutOfRange)
    );
    assert_eq!(
        read_task_status(&mut tasks, 0, &granted(&[1, 0, 0]), &mut response),
        refusal(UsageError::BadKernelMessage)
    );
    assert_eq!(
        read_task_status(&mut tasks, 0, &Window::Denied(FOREIGN), &mut response),
        Err(UserError::Unrecoverable(FOREIGN))
    );
    assert_eq!(response, granted(&[0xee; 8]));
    let mut denied = Window::Denied(FaultInfo::IllegalText);
    assert_eq!(
        read_task_status(&mut tasks, 0, &words(&[1]), &mut denied),
        Err(UserError::Unrecoverable(FaultInfo::IllegalText))
    );
    // The message is looked at before the response buffer is.
    assert_eq!(
        read_task_status(&mut tasks, 0, &words(&[2]), &mut denied),
        refusal(UsageError::TaskOutOfRange)
    );
    assert_eq!(tasks, table(2));
}

#[test]
fn message_with_a_tail() {
    let mut tasks = table(2);
    let mut response = granted(&[0; 2]);
    let message = granted(&[1, 0, 0, 0, 0xff, 0xff]);
    assert_eq!(read_task_status(&mut tasks, 0, &message, &mut response), SAME);
    assert_eq!(response, granted(&[0, 1]));
}

#[test]
fn restart_another_task() {
    let mut tasks = table(3);
    tasks[1].notifications = 5;
    tasks[1].saved.notification_mask = 3;
    let r = restart_task(&mut tasks, 0, &granted(&[1, 0, 0, 0, 1]));
    assert_eq!(r, SAME);
    assert_eq!(tasks[1].generation, Generation(2));
    assert_eq!(tasks[1].state, TaskState::Healthy(SchedState::Runnable));
    assert_eq!(tasks[1].notifications, 0);
    assert_eq!(tasks[1].saved.notification_mask, 0);
    assert_eq!(tasks[1].saved.delivery, Delivery::Entry);
    assert_eq!(tasks[0].saved.delivery, answer(0));
    assert_eq!(tasks[2], task(2));
}

#[test]
fn restart_without_start() {
    let mut tasks = table(2);
    let r = restart_task(&mut tasks, 0, &granted(&[1, 0, 0, 0, 0]));
    assert_eq!(r, SAME);
    assert_eq!(tasks[1].state, TaskState::Healthy(SchedState::Stopped));
}

#[test]
fn restart_oneself() {
    let mut tasks = table(2);
    assert_eq!(restart_task(&mut tasks, 1, &granted(&[1, 0, 0, 0, 1])), SAME);
    assert_eq!(tasks[1].saved.delivery, Delivery::Entry);
    assert_eq!(tasks[1].state, TaskState::Healthy(SchedState::Runnable));
    assert_eq!(
        restart_task(&mut tasks, 1, &granted(&[1, 0, 0, 0, 0])),
        Ok(Directive::Resume(NextTask::Other))
    );
    assert_eq!(tasks[1].saved.delivery, Delivery::Entry);
    assert_eq!(tasks[1].state, TaskState::Healthy(SchedState::Stopped));
    assert_eq!(tasks[1].generation, Generation(3));
}

#[test]
fn restart_unblocks_those_who_waited() {
    // The task at 1 is of generation 1, so it goes by 0x401.
    let dead = TaskId(0x401);
    let mut tasks = table(8);
    tasks[2].state = TaskState::Healthy(SchedState::InSend(dead));
    tasks[3].state = TaskState::Healthy(SchedState::InReply(dead));
    tasks[4].state = TaskState::Healthy(SchedState::InRecv(Some(dead)));
    tasks[5].state = TaskState::Healthy(SchedState::InRecv(None));
    tasks[6].state = TaskState::Healthy(SchedState::InSend(TaskId(0x801)));
    tasks[7].state = TaskState::Faulted {
        fault: FaultInfo::Panic,
        original_state: SchedState::InReply(dead),
    };
    assert_eq!(restart_task(&mut tasks, 0, &granted(&[1, 0, 0, 0, 1])), SAME);
    for i in 2..5 {
        assert_eq!(tasks[i].state, TaskState::Healthy(SchedState::Runnable));
        assert_eq!(tasks[i].saved.delivery, Delivery::Error { code: 0xffff_ff01 });
    }
    assert_eq!(tasks[5].state, TaskState::Healthy(SchedState::InRecv(None)));
    assert_eq!(tasks[6].state, TaskState::Healthy(SchedState::InSend(TaskId(0x801))));
    assert_eq!(
        tasks[7].state,
        TaskState::Faulted {
            fault: FaultInfo::Panic,
            original_state: SchedState::InReply(dead),
        }
    );
    for i in 5..8 {
        assert_eq!(tasks[i].saved.delivery, Delivery::Nothing);
    }
}

#[test]
fn restart_wraps_the_generation() {
    let mut tasks = table(2);
    tasks[1].generation = Generation(63);
    assert_eq!(restart_task(&mut tasks, 0, &granted(&[1, 0, 0, 0, 1])), SAME);
    assert_eq!(tasks[1].generation, Generation(0));
}

#[test]
fn restart_request_refused() {
    let mut tasks = table(2);
    assert_eq!(
        restart_task(&mut tasks, 0, &granted(&[2, 0, 0, 0, 1])),
        refusal(UsageError::TaskOutOfRange)
    );
    // Neither a truth value nor a message of full length.
    assert_eq!(
        restart_task(&mut tasks, 0, &granted(&[1, 0, 0, 0, 2])),
        refusal(UsageError::BadKernelMessage)
    );
    assert_eq!(
        restart_task(&mut tasks, 0, &words(&[1])),
        refusal(UsageError::BadKernelMessage)
    );
    assert_eq!(
        restart_task(&mut tasks, 0, &Window::Denied(FOREIGN)),
        Err(UserError::Unrecoverable(FOREIGN))
    );
    assert_eq!(tasks, table(2));
}

#[test]
fn fault_injection() {
    let mut tasks = table(4);
    tasks[3].state = TaskState::Healthy(SchedState::InRecv(None));
    assert_eq!(fault_task(&mut tasks, 2, &words(&[3]), &board()), SAME);
    // The caller at 2 is of generation 2.
    assert_eq!(
        tasks[3].state,
        TaskState::Faulted {
            fault: FaultInfo::Injected(TaskId(0x802)),
            original_state: SchedState::InRecv(None),
        }
    );
    assert_eq!(tasks[2].saved.delivery, answer(0));
    assert_eq!(tasks[0].notifications, 0b100);
    assert_eq!(tasks[0].state, TaskState::Healthy(SchedState::Runnable));
    assert_eq!(tasks[1], task(1));
}

#[test]
fn fault_injection_wakes_the_supervisor() {
    let mut tasks = table(3);
    tasks[0].state = TaskState::Healthy(SchedState::InRecv(None));
    tasks[0].saved.notification_mask = 0b110;
    tasks[0].notifications = 0b1001;
    assert_eq!(fault_task(&mut tasks, 1, &words(&[2]), &board()), SAME);
    assert_eq!(tasks[0].state, TaskState::Healthy(SchedState::Runnable));
    assert_eq!(tasks[0].saved.delivery, Delivery::Notifications { bits: 0b100 });
    assert_eq!(tasks[0].notifications, 0b1001);
}

#[test]
fn fault_injection_refused() {
    let mut tasks = table(3);
    let b = board();
    assert_eq!(fault_task(&mut tasks, 1, &words(&[0]), &b), refusal(UsageError::IllegalTask));
    assert_eq!(fault_task(&mut tasks, 1, &words(&[1]), &b), refusal(UsageError::IllegalTask));
    assert_eq!(fault_task(&mut tasks, 1, &words(&[3]), &b), refusal(UsageError::TaskOutOfRange));
    assert_eq!(
        fault_task(&mut tasks, 1, &granted(&[]), &b),
        refusal(UsageError::BadKernelMessage)
    );
    assert_eq!(
        fault_task(&mut tasks, 1, &Window::Denied(FOREIGN), &b),
        Err(UserError::Unrecoverable(FOREIGN))
    );
    assert_eq!(tasks, table(3));
}

#[test]
fn image_id() {
    let mut tasks = table(1);
    let mut response = granted(&[0; 9]);
    assert_eq!(read_image_id(&mut tasks, 0, &mut response, &board()), SAME);
    assert_eq!(response, granted(&[0xef, 0xcd, 0xab, 0x89, 0x67, 0x45, 0x23, 0x01, 0]));
    assert_eq!(tasks[0].saved.delivery, answer(8));
}

#[test]
fn image_id_in_too_small_a_buffer() {
    let mut tasks = table(1);
    let mut response = granted(&[0xee; 7]);
    assert_eq!(read_image_id(&mut tasks, 0, &mut response, &board()), SAME);
    assert_eq!(response, granted(&[0xee; 7]));
    assert_eq!(tasks[0].saved.delivery, answer(8));
}

#[test]
fn image_id_refused() {
    let mut tasks = table(1);
    let mut response = Window::Denied(FOREIGN);
    assert_eq!(
        read_image_id(&mut tasks, 0, &mut response, &board()),
        Err(UserError::Unrecoverable(FOREIGN))
    );
    assert_eq!(tasks, table(1));
}

#[test]
fn reset_is_asked_for() {
    let mut tasks = table(1);
    assert_eq!(reset(&mut tasks, 0, &granted(&[])), Ok(Directive::Reset));
    assert_eq!(tasks, table(1));
}

#[test]
fn dump_regions_are_counted() {
    let mut tasks = table(2);
    let expected: [&[u8]; 4] = [
        &[1, 0x00, 0x20, 0, 0, 32, 0, 0, 0],
        &[1, 0x00, 0x02, 0, 0, 0x20, 0, 0, 0],
        &[1, 0x00, 0x04, 0, 0, 0x40, 0, 0, 0],
        &[0, 0xee, 0xee, 0xee, 0xee, 0xee, 0xee, 0xee, 0xee],
    ];
    for (i, bytes) in expected.iter().enumerate() {
        let mut response = granted(&[0xee; 9]);
        let message = words(&[1, i as u32]);
        assert_eq!(get_task_dump_region(&mut tasks, 0, &message, &mut response), SAME);
        assert_eq!(response, granted(bytes));
        assert_eq!(tasks[0].saved.delivery, answer(if i < 3 { 9 } else { 1 }));
    }
    let mut response = granted(&[0xee; 1]);
    let message = words(&[1, u32::MAX]);
    assert_eq!(get_task_dump_region(&mut tasks, 0, &message, &mut response), SAME);
    assert_eq!(response, granted(&[0]));
}

#[test]
fn dump_region_refused() {
    let mut tasks = table(2);
    let mut response = granted(&[0xee; 9]);
    assert_eq!(
        get_task_dump_region(&mut tasks, 0, &words(&[2, 0]), &mut response),
        refusal(UsageError::TaskOutOfRange)
    );
    assert_eq!(
        get_task_dump_region(&mut tasks, 0, &words(&[1]), &mut response),
        refusal(UsageError::BadKernelMessage)
    );
    assert_eq!(
        get_task_dump_region(&mut tasks, 0, &Window::Denied(FOREIGN), &mut response),
        Err(UserError::Unrecoverable(FOREIGN))
    );
    assert_eq!(response, granted(&[0xee; 9]));
    assert_eq!(
        get_task_dump_region(&mut tasks, 0, &words(&[1, 0]), &mut Window::Denied(FOREIGN)),
        Err(UserError::Unrecoverable(FOREIGN))
    );
    assert_eq!(tasks, table(2));
}

const TO: USlice = USlice { base: 0x9000, length: 4 };

#[test]
fn dump_of_a_control_block() {
    let mut tasks = table(2);
    let mut response = granted(&[0xee; 4]);
    // Bytes 2 to 4 of the control block at 0x2000, whose bytes count from 100.
    let message = words(&[1, 0x2002, 3]);
    assert_eq!(read_task_dump_region(&mut tasks, 0, &message, TO, &mut response), SAME);
    assert_eq!(response, granted(&[102, 103, 104, 0xee]));
    assert_eq!(tasks[0].saved.delivery, answer(3));
    // More than the buffer holds.
    let message = words(&[1, 0x2000, 32]);
    assert_eq!(read_task_dump_region(&mut tasks, 0, &message, TO, &mut response), SAME);
    assert_eq!(response, granted(&[100, 101, 102, 103]));
    assert_eq!(tasks[0].saved.delivery, answer(4));
    assert_eq!(tasks[1], task(1));
}

#[test]
fn dump_at_the_edges_of_a_control_block() {
    let mut tasks = table(2);
    let mut response = granted(&[0xee; 4]);
    for (base, size, inside) in [
        (0x2020, 0, true),
        (0x2000, 0, true),
        (0x201f, 1, true),
        (0x1fff, 1, false),
        (0x201f, 2, false),
        (0x2021, 0, false),
        (0x1fff, 34, false),
    ] {
        let message = words(&[1, base, size]);
        let r = read_task_dump_region(&mut tasks, 0, &message, TO, &mut response);
        let from = USlice { base, length: size };
        if inside {
            assert_eq!(r, SAME);
        } else {
            assert_eq!(r, Ok(Directive::Copy { source: 1, from, to: TO }));
        }
    }
}

#[test]
fn dump_refused() {
    let mut tasks = table(2);
    let mut response = granted(&[0xee; 4]);
    assert_eq!(
        read_task_dump_region(&mut tasks, 1, &words(&[0, 0, 0]), TO, &mut response),
        refusal(UsageError::NotSupervisor)
    );
    for index in [0, 2] {
        assert_eq!(
            read_task_dump_region(&mut tasks, 0, &words(&[index, 0, 0]), TO, &mut response),
            refusal(UsageError::TaskOutOfRange)
        );
    }
    assert_eq!(
        read_task_dump_region(&mut tasks, 0, &words(&[1, u32::MAX, 1]), TO, &mut response),
        refusal(UsageError::InvalidSlice)
    );
    assert_eq!(
        read_task_dump_region(&mut tasks, 0, &words(&[1, 0]), TO, &mut response),
        refusal(UsageError::BadKernelMessage)
    );
    assert_eq!(
        read_task_dump_region(&mut tasks, 0, &Window::Denied(FOREIGN), TO, &mut response),
        Err(UserError::Unrecoverable(FOREIGN))
    );
    assert_eq!(response, granted(&[0xee; 4]));
    let mut denied = Window::Denied(FOREIGN);
    assert_eq!(
        read_task_dump_region(&mut tasks, 0, &words(&[1, 0x2000, 1]), TO, &mut denied),
        Err(UserError::Unrecoverable(FOREIGN))
    );
    // Whether the response buffer will do for a copy is for the copy to say.
    assert_eq!(
        read_task_dump_region(&mut tasks, 0, &words(&[1, u32::MAX - 1, 1]), TO, &mut denied),
        Ok(Directive::Copy {
            source: 1,
            from: USlice { base: u32::MAX - 1, length: 1 },
            to: TO,
        })
    );
    assert_eq!(tasks, table(2));
}

#[test]
fn copy_that_went_well() {
    let mut tasks = table(2);
    assert_eq!(complete_dump_copy(&mut tasks, 0, Ok(17), &board()), Ok(NextTask::Same));
    assert_eq!(tasks[0].saved.delivery, answer(17));
    assert_eq!(tasks[1], task(1));
}

#[test]
fn copy_that_went_wrong() {
    let by_dst = FaultInfo::Panic;
    let runnable = SchedState::Runnable;
    let cases = [
        (Some(FOREIGN), None, Ok(NextTask::Other), true),
        (Some(FOREIGN), Some(by_dst), Err(UserError::Unrecoverable(by_dst)), true),
        (None, Some(by_dst), Err(UserError::Unrecoverable(by_dst)), false),
        (None, None, Ok(NextTask::Same), false),
    ];
    for (src, dst, expected, recorded) in cases {
        let mut tasks = table(2);
        let r = complete_dump_copy(&mut tasks, 0, Err(InteractFault { src, dst }), &board());
        assert_eq!(r, expected);
        if recorded {
            assert_eq!(
                tasks[0].state,
                TaskState::Faulted { fault: FOREIGN, original_state: runnable }
            );
            assert_eq!(tasks[0].notifications, 0b100);
            assert_eq!(tasks[0].saved.delivery, Delivery::Nothing);
            assert_eq!(tasks[1], task(1));
        } else {
            assert_eq!(tasks, table(2));
        }
    }
}

#[test]
fn copy_fault_wakes_the_supervisor() {
    let mut tasks = table(2);
    tasks[0].state = TaskState::Healthy(SchedState::InRecv(Some(TaskId(0xffff))));
    tasks[0].saved.notification_mask = 0b100;
    let outcome = Err(InteractFault { src: Some(FOREIGN), dst: None });
    let r = complete_dump_copy(&mut tasks, 1, outcome, &board());
    assert_eq!(r, Ok(NextTask::Specific(0)));
    assert_eq!(tasks[0].state, TaskState::Healthy(SchedState::Runnable));
    assert_eq!(tasks[0].saved.delivery, Delivery::Notifications { bits: 0b100 });
}

#[test]
fn software_interrupts() {
    let mut tasks = table(3);
    assert_eq!(
        software_irq(&mut tasks, 0, &words(&[1, 2]), &board()),
        Ok(Directive::Pend { irqs: vec![7, 9], next: NextTask::Same })
    );
    assert_eq!(tasks[0].saved.delivery, answer(0));
    assert_eq!(
        software_irq(&mut tasks, 0, &words(&[2, 2]), &board()),
        Ok(Directive::Pend { irqs: vec![], next: NextTask::Same })
    );
}

#[test]
fn software_interrupts_refused() {
    let mut tasks = table(3);
    let b = board();
    assert_eq!(
        software_irq(&mut tasks, 1, &words(&[1, 2]), &b),
        refusal(UsageError::NotSupervisor)
    );
    assert_eq!(
        software_irq(&mut tasks, 0, &words(&[3, 2]), &b),
        refusal(UsageError::TaskOutOfRange)
    );
    assert_eq!(software_irq(&mut tasks, 0, &words(&[1, 1]), &b), refusal(UsageError::NoIrq));
    assert_eq!(
        software_irq(&mut tasks, 0, &words(&[1]), &b),
        refusal(UsageError::BadKernelMessage)
    );
    assert_eq!(
        software_irq(&mut tasks, 0, &Window::Denied(FOREIGN), &b),
        Err(UserError::Unrecoverable(FOREIGN))
    );
    assert_eq!(tasks, table(3));
}

#[test]
fn irq_lookup() {
    let b = board();
    assert_eq!(
        lookup_irqs(&b, InterruptOwner { task: 1, notification: 2 }),
        Some(vec![7, 9])
    );
    assert_eq!(lookup_irqs(&b, InterruptOwner { task: 2, notification: 2 }), Some(vec![]));
    assert_eq!(lookup_irqs(&b, InterruptOwner { task: 1, notification: 3 }), None);
}

#[test]
fn search_for_faulted_tasks() {
    let mut tasks = table(5);
    for i in [2, 4] {
        tasks[i].state = TaskState::Faulted {
            fault: FaultInfo::Panic,
            original_state: SchedState::Runnable,
        };
    }
    for (from, found) in [(0, 2), (1, 2), (2, 2), (3, 4), (4, 4), (5, 0)] {
        let mut response = granted(&[0xee; 5]);
        assert_eq!(find_faulted_task(&mut tasks, 0, &words(&[from]), &mut response), SAME);
        assert_eq!(response, granted(&[found, 0, 0, 0, 0xee]));
        assert_eq!(tasks[0].saved.delivery, answer(4));
    }
}

#[test]
fn search_in_too_small_a_buffer() {
    let mut tasks = table(2);
    let mut response = granted(&[0xee; 3]);
    assert_eq!(find_faulted_task(&mut tasks, 0, &words(&[1]), &mut response), SAME);
    assert_eq!(response, granted(&[0xee; 3]));
    assert_eq!(tasks[0].saved.delivery, answer(4));
}

#[test]
fn search_refused() {
    let mut tasks = table(2);
    let mut response = granted(&[0xee; 4]);
    assert_eq!(
        find_faulted_task(&mut tasks, 1, &words(&[0]), &mut response),
        refusal(UsageError::NotSupervisor)
    );
    assert_eq!(
        find_faulted_task(&mut tasks, 0, &words(&[3]), &mut response),
        refusal(UsageError::TaskOutOfRange)
    );
    assert_eq!(
        find_faulted_task(&mut tasks, 0, &granted(&[0, 0]), &mut response),
        refusal(UsageError::BadKernelMessage)
    );
    assert_eq!(
        find_faulted_task(&mut tasks, 0, &Window::Denied(FOREIGN), &mut response),
        Err(UserError::Unrecoverable(FOREIGN))
    );
    assert_eq!(response, granted(&[0xee; 4]));
    assert_eq!(
        find_faulted_task(&mut tasks, 0, &words(&[0]), &mut Window::Denied(FOREIGN)),
        Err(UserError::Unrecoverable(FOREIGN))
    );
    assert_eq!(tasks, table(2));
}

#[test]
fn dispatch_by_number() {
    let b = board();
    let no = granted(&[]);

    let mut response = granted(&[0xee; 16]);
    assert_eq!(send(&mut table(3), 1, 1, &words(&[2]), &mut response, &b), SAME);
    let mut expected = vec![0, 1];
    expected.extend_from_slice(&[0xee; 14]);
    assert_eq!(response, granted(&expected));

    let mut tasks = table(3);
    assert_eq!(send(&mut tasks, 1, 2, &granted(&[2, 0, 0, 0, 0]), &mut granted(&[]), &b), SAME);
    assert_eq!(tasks[2].state, TaskState::Healthy(SchedState::Stopped));

    let mut tasks = table(3);
    assert_eq!(send(&mut tasks, 1, 3, &words(&[2]), &mut granted(&[]), &b), SAME);
    assert!(matches!(tasks[2].state, TaskState::Faulted { .. }));

    let mut response = granted(&[0; 8]);
    assert_eq!(send(&mut table(3), 1, 4, &no, &mut response, &b), SAME);
    assert_eq!(response, granted(&0x0123_4567_89ab_cdefu64.to_le_bytes()));

    assert_eq!(
        send(&mut table(3), 1, 5, &no, &mut granted(&[]), &b),
        Ok(Directive::Reset)
    );

    let mut response = granted(&[0; 9]);
    assert_eq!(send(&mut table(3), 1, 6, &words(&[2, 1]), &mut response, &b), SAME);
    assert_eq!(response, granted(&[1, 0, 2, 0, 0, 0x20, 0, 0, 0]));

    let mut response = granted(&[0; 2]);
    assert_eq!(send(&mut table(3), 0, 7, &words(&[1, 0x2000, 2]), &mut response, &b), SAME);
    assert_eq!(response, granted(&[100, 101]));
    assert_eq!(
        send(&mut table(3), 0, 7, &words(&[1, 0x40, 2]), &mut response, &b),
        Ok(Directive::Copy {
            source: 1,
            from: USlice { base: 0x40, length: 2 },
            to: USlice { base: 0x9000, length: 64 },
        })
    );

    assert_eq!(
        send(&mut table(3), 0, 8, &words(&[1, 2]), &mut granted(&[]), &b),
        Ok(Directive::Pend { irqs: vec![7, 9], next: NextTask::Same })
    );

    let mut response = granted(&[0xee; 4]);
    assert_eq!(send(&mut table(3), 0, 9, &words(&[0]), &mut response, &b), SAME);
    assert_eq!(response, words(&[0]));
}

#[test]
fn unknown_operations() {
    let b = board();
    for operation in [0, 10, 0x101, u16::MAX] {
        let mut tasks = table(1);
        let r = send(&mut tasks, 0, operation, &granted(&[]), &mut granted(&[]), &b);
        assert_eq!(r, refusal(UsageError::BadKernelMessage));
    }
}

#[test]
fn dumps_are_unknown_without_support() {
    let mut b = board();
    b.dump = false;
    for operation in [6, 7] {
        let mut tasks = table(3);
        // Even the ranges do not matter.
        tasks[0].saved.args.message = Err(UsageError::InvalidSlice);
        let mut response = granted(&[0xee; 9]);
        let r = send(&mut tasks, 0, operation, &words(&[1, 0x2000, 1]), &mut response, &b);
        assert_eq!(r, refusal(UsageError::BadKernelMessage));
        assert_eq!(response, granted(&[0xee; 9]));
    }
}

#[test]
fn ranges_that_are_none() {
    let b = board();
    let cases: [(u16, bool, bool); 9] = [
        (1, true, true),
        (2, true, false),
        (3, true, false),
        (4, false, true),
        (5, true, false),
        (6, true, true),
        (7, true, true),
        (8, true, false),
        (9, true, true),
    ];
    for (operation, takes_message, takes_response) in cases {
        let mut tasks = table(3);
        tasks[1].saved.args.message = Err(UsageError::InvalidSlice);
        let r = send(&mut tasks, 1, operation, &words(&[2, 0, 0]), &mut granted(&[0; 16]), &b);
        assert_eq!(r == refusal(UsageError::InvalidSlice), takes_message);

        let mut tasks = table(3);
        tasks[1].saved.args.response = Err(UsageError::OffsetOutOfRange);
        let r = send(&mut tasks, 1, operation, &words(&[2, 0, 0]), &mut granted(&[0; 16]), &b);
        assert_eq!(r == refusal(UsageError::OffsetOutOfRange), takes_response);

        // Of two bad ranges the message is the one that is told of.
        let mut tasks = table(3);
        tasks[1].saved.args.message = Err(UsageError::InvalidSlice);
        tasks[1].saved.args.response = Err(UsageError::OffsetOutOfRange);
        let r = send(&mut tasks, 1, operation, &words(&[2, 0, 0]), &mut granted(&[0; 16]), &b);
        if takes_message {
            assert_eq!(r, refusal(UsageError::InvalidSlice));
        } else {
            assert_eq!(r, refusal(UsageError::OffsetOutOfRange));
        }
    }
}

#[test]
fn slices_and_control_blocks() {
    assert_eq!(USlice::from_raw(0, u32::MAX), Ok(USlice { base: 0, length: u32::MAX }));
    assert_eq!(USlice::from_raw(1, u32::MAX), Err(UsageError::InvalidSlice));
    assert_eq!(USlice { base: 3, length: 4 }.end_addr(), 7);
    assert!(TcbImage::new(u32::MAX, vec![1]).is_none());
    let tcb = TcbImage::new(u32::MAX - 1, vec![1]).unwrap();
    assert_eq!(tcb.base_addr(), u32::MAX - 1);
    assert_eq!(tcb.end_addr(), u32::MAX);
    assert_eq!(tcb.size(), 1);
    assert_eq!(tcb.bytes(), &vec![1]);
}
