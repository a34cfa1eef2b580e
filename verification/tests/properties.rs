//! What holds of the operations as a whole, on chosen tables.

use kipc::abi::{
    FaultInfo, Generation, InteractFault, NextTask, SchedState, TaskDumpRegion, TaskId, TaskState,
    UserError,
};
use kipc::kipc::{
    complete_dump_copy, deserialize_message, fault_task, find_faulted_task,
    get_task_dump_region, handle_kernel_message, read_task_dump_region, read_task_status,
    restart_task, Board, Directive,
};
use kipc::task::{current_id, Delivery, RegionDesc, SavedState, SendArgs, Task};
use kipc::umem::{TcbImage, USlice, Window};

fn task(index: u32, state: TaskState) -> Task {
    Task {
        generation: Generation(index as u8 % 64),
        state,
        notifications: 0,
        saved: SavedState {
            args: SendArgs {
                operation: 0,
                message: Ok(USlice { base: 0, length: 16 }),
                response: Ok(USlice { base: 16, length: 16 }),
            },
            notification_mask: 0,
            delivery: Delivery::Nothing,
        },
        regions: vec![RegionDesc { base: 0x100 * index, size: 0x80, dumpable: true }],
        tcb: TcbImage::new(0x1_0000 + 0x40 * index, vec![index as u8; 0x40]).unwrap(),
    }
}

/// A table with tasks in all sorts of states, the first two of them running.
fn table() -> Vec<Task> {
    let peer = TaskId(0x401);
    let states = [
        TaskState::Healthy(SchedState::Runnable),
        TaskState::Healthy(SchedState::Runnable),
        TaskState::Healthy(SchedState::InSend(peer)),
        TaskState::Faulted { fault: FaultInfo::Panic, original_state: SchedState::InReply(peer) },
        TaskState::Healthy(SchedState::InReply(peer)),
        TaskState::Healthy(SchedState::InRecv(Some(peer))),
        TaskState::Healthy(SchedState::InRecv(None)),
        TaskState::Faulted { fault: FaultInfo::IllegalText, original_state: SchedState::Stopped },
    ];
    states.iter().enumerate().map(|(i, state)| task(i as u32, *state)).collect()
}

fn board() -> Board {
    Board { image_id: 5, fault_notification: 1, dump: true, irqs: vec![] }
}

fn words(numbers: &[u32]) -> Window {
    Window::Granted(numbers.iter().flat_map(|n| n.to_le_bytes()).collect())
}

fn restart(index: u8, start: bool) -> Window {
    Window::Granted(vec![index, 0, 0, 0, start as u8])
}

fn waits(state: TaskState, dead: TaskId) -> bool {
    match state {
        TaskState::Healthy(SchedState::InSend(peer)) => peer == dead,
        TaskState::Healthy(SchedState::InReply(peer)) => peer == dead,
        TaskState::Healthy(SchedState::InRecv(peer)) => peer == Some(dead),
        _ => false,
    }
}

/// Messages of all operations, the sound and the unsound.
fn all_messages() -> Vec<(u16, Window)> {
    let mut all = Vec::new();
    for operation in 0..11 {
        for index in 0..10 {
            all.push((operation, words(&[index, 0, 0])));
            all.push((operation, words(&[index, 1, 0])));
            all.push((operation, words(&[index, 0x1_0040, 4])));
            all.push((operation, words(&[index, u32::MAX, 4])));
        }
        all.push((operation, words(&[])));
        all.push((operation, Window::Denied(FaultInfo::DivideByZero)));
    }
    all
}

#[test]
fn nobody_waits_for_the_dead() {
    let before = table();
    let mut after = table();
    let dead = current_id(&before, 1);
    assert_eq!(dead, TaskId(0x401));
    restart_task(&mut after, 0, &restart(1, true)).unwrap();
    for (i, (b, a)) in before.iter().zip(&after).enumerate() {
        assert!(!waits(a.state, dead));
        if i > 1 && waits(b.state, dead) {
            assert_eq!(a.state, TaskState::Healthy(SchedState::Runnable));
            assert_eq!(a.saved.delivery, Delivery::Error { code: 0xffff_ff01 });
        } else if i > 1 {
            assert_eq!(a, b);
        }
    }
}

#[test]
fn fault_records_outlive_a_restart() {
    let mut after = table();
    restart_task(&mut after, 0, &restart(3, false)).unwrap();
    assert_eq!(after[3].state, TaskState::Healthy(SchedState::Stopped));
    assert_eq!(after[7], table()[7]);
}

#[test]
fn a_restart_renews_one_identity() {
    let before = table();
    let mut after = table();
    restart_task(&mut after, 1, &restart(4, true)).unwrap();
    for i in 0..before.len() {
        assert_eq!(current_id(&after, i) == current_id(&before, i), i != 4);
    }
    assert_eq!(current_id(&after, 4), TaskId(5 * 1024 + 4));
}

#[test]
fn identities_differ() {
    let tasks: Vec<Task> =
        (0..1024).map(|i| task(i, TaskState::Healthy(SchedState::Stopped))).collect();
    let mut ids: Vec<u16> = (0..1024).map(|i| current_id(&tasks, i).0).collect();
    ids.sort();
    ids.dedup();
    assert_eq!(ids.len(), 1024);
}

#[test]
fn an_injected_fault_names_the_injector_and_is_found() {
    let mut tasks = table();
    fault_task(&mut tasks, 1, &words(&[6]), &board()).unwrap();
    assert_eq!(
        tasks[6].state,
        TaskState::Faulted {
            fault: FaultInfo::Injected(TaskId(0x401)),
            original_state: SchedState::InRecv(None),
        }
    );
    let mut response = words(&[99]);
    find_faulted_task(&mut tasks, 0, &words(&[6]), &mut response).unwrap();
    assert_eq!(response, words(&[6]));
    find_faulted_task(&mut tasks, 0, &words(&[4]), &mut response).unwrap();
    assert_eq!(response, words(&[6]));
    find_faulted_task(&mut tasks, 0, &words(&[1]), &mut response).unwrap();
    assert_eq!(response, words(&[3]));
}

#[test]
fn a_restart_undoes_a_fault() {
    let mut struck = table();
    fault_task(&mut struck, 1, &words(&[6]), &board()).unwrap();
    restart_task(&mut struck, 0, &restart(6, true)).unwrap();
    let mut spared = table();
    restart_task(&mut spared, 0, &restart(6, true)).unwrap();
    assert_eq!(struck[6], spared[6]);
}

#[test]
fn the_last_fault_wins() {
    let mut twice = table();
    twice[4].record_fault(FaultInfo::Panic);
    twice[4].record_fault(FaultInfo::DivideByZero);
    let mut once = table();
    once[4].record_fault(FaultInfo::DivideByZero);
    assert_eq!(twice, once);
    assert_eq!(
        once[4].state,
        TaskState::Faulted {
            fault: FaultInfo::DivideByZero,
            original_state: SchedState::InReply(TaskId(0x401)),
        }
    );
}

#[test]
fn what_every_message_keeps() {
    for (operation, message) in all_messages() {
        for caller in 0..2 {
            let mut before = table();
            before[caller].saved.args.operation = operation;
            let mut after = table();
            after[caller].saved.args.operation = operation;
            let mut response = Window::Granted(vec![0xee; 16]);
            let r = handle_kernel_message(&mut after, caller, &message, &mut response, &board());
            // Neither the supervisor nor the caller is faulted.
            for i in [0, caller] {
                assert!(matches!(after[i].state, TaskState::Healthy(_)));
            }
            // A refusal changes nothing.
            if r.is_err() {
                assert_eq!(after, before);
                assert_eq!(response, Window::Granted(vec![0xee; 16]));
            }
            // Some operations are the supervisor's.
            if caller != 0 {
                assert!(r.is_err() || !(7..=9).contains(&operation));
                assert!(!matches!(r, Ok(Directive::Pend { .. }) | Ok(Directive::Copy { .. })));
            }
            // The table keeps its shape.
            assert_eq!(after.len(), before.len());
            for (a, b) in after.iter().zip(&before) {
                assert_eq!(a.regions, b.regions);
                assert_eq!(a.tcb, b.tcb);
            }
        }
    }
}

#[test]
fn a_sweep_finds_all() {
    let mut tasks = table();
    let mut told = Vec::new();
    let mut from = 1;
    loop {
        let mut response = words(&[99]);
        let r = find_faulted_task(&mut tasks, 0, &words(&[from]), &mut response);
        assert_eq!(r, Ok(Directive::Resume(NextTask::Same)));
        let next = deserialize_message::<u32>(&response).unwrap();
        told.push(next);
        if next == 0 {
            break;
        }
        from = next + 1;
    }
    // The last search is one from the end of the table.
    assert_eq!(from, 8);
    assert_eq!(told, vec![3, 7, 0]);
    assert!(told.len() <= tasks.len());
}

/// The region of the task at `index` that goes by `rindex`, by asking for it.
fn ask(tasks: &mut Vec<Task>, index: u32, rindex: u32) -> Option<TaskDumpRegion> {
    let mut response = Window::Granted(vec![0; 9]);
    get_task_dump_region(tasks, 0, &words(&[index, rindex]), &mut response).unwrap();
    match response {
        Window::Granted(bytes) if bytes[0] == 1 => {
            let rest = Window::Granted(bytes[1..].to_vec());
            let (base, size) = deserialize_message::<(u32, u32)>(&rest).unwrap();
            Some(TaskDumpRegion { base, size })
        }
        _ => None,
    }
}

#[test]
fn the_control_block_can_be_read() {
    let mut tasks = table();
    let region = ask(&mut tasks, 3, 0).unwrap();
    assert_eq!(region, TaskDumpRegion { base: 0x1_00c0, size: 0x40 });
    let mut response = Window::Granted(vec![0xee; 0x50]);
    let to = USlice { base: 0, length: 0x50 };
    let message = words(&[3, region.base, region.size]);
    let r = read_task_dump_region(&mut tasks, 0, &message, to, &mut response);
    assert_eq!(r, Ok(Directive::Resume(NextTask::Same)));
    let mut expected = vec![3; 0x40];
    expected.extend_from_slice(&[0xee; 0x10]);
    assert_eq!(response, Window::Granted(expected));
    assert_eq!(tasks[0].saved.delivery, Delivery::Response { code: 0, length: 0x40 });
}

#[test]
fn regions_run_without_a_gap() {
    let mut tasks = table();
    tasks[2].regions = vec![
        RegionDesc { base: 1, size: 1, dumpable: true },
        RegionDesc { base: 2, size: 2, dumpable: false },
        RegionDesc { base: 3, size: 3, dumpable: true },
    ];
    assert_eq!(ask(&mut tasks, 2, 1), Some(TaskDumpRegion { base: 1, size: 1 }));
    assert_eq!(ask(&mut tasks, 2, 2), Some(TaskDumpRegion { base: 3, size: 3 }));
    assert_eq!(ask(&mut tasks, 2, 3), None);
    assert_eq!(ask(&mut tasks, 2, 4), None);
}

#[test]
fn copy_faults_are_charged_to_the_caller() {
    let mut tasks = table();
    let interact =
        InteractFault { src: Some(FaultInfo::IllegalText), dst: Some(FaultInfo::Panic) };
    let r = complete_dump_copy(&mut tasks, 0, Err(interact), &board());
    assert_eq!(r, Err(UserError::Unrecoverable(FaultInfo::Panic)));
    tasks[0].record_fault(FaultInfo::Panic);
    assert_eq!(
        tasks[0].state,
        TaskState::Faulted { fault: FaultInfo::Panic, original_state: SchedState::Runnable }
    );
    assert_eq!(tasks[1..], table()[1..]);
    assert_eq!(tasks[0].regions, table()[0].regions);
    assert_eq!(tasks[0].tcb, table()[0].tcb);
}

#[test]
fn a_status_tells_states_apart() {
    let mut tasks = table();
    let mut seen = Vec::new();
    for index in 1..8 {
        let mut response = Window::Granted(vec![0; 12]);
        read_task_status(&mut tasks, 0, &words(&[index]), &mut response).unwrap();
        let length = match tasks[0].saved.delivery {
            Delivery::Response { code: 0, length } => length,
            other => panic!("{:?}", other),
        };
        match response {
            Window::Granted(bytes) => seen.push(bytes[..length].to_vec()),
            Window::Denied(_) => panic!("the buffer is gone"),
        }
    }
    for i in 0..seen.len() {
        for j in 0..seen.len() {
            assert_eq!(seen[i] == seen[j], i == j);
        }
    }
}
