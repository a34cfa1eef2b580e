//! Requests and responses as bytes, held against `ssmarshal` on whole values.

use kipc::abi::{
    FaultInfo, FaultSource, ReplyFaultReason, SchedState, TaskDumpRegion, TaskId, TaskState,
    UsageError, UserError,
};
use kipc::kipc::{deserialize_message, serialize_response};
use kipc::marshal::{marshal, Field, MarshalError};
use kipc::umem::Window;
use kipc::wire::Response;
use serde::ser::{SerializeStruct, SerializeStructVariant, SerializeTupleVariant};
use serde::{Serialize, Serializer};

struct Id(TaskId);

impl Serialize for Id {
    fn serialize<S: Serializer>(&self, s: S) -> Result<S::Ok, S::Error> {
        s.serialize_newtype_struct("TaskId", &self.0 .0)
    }
}

struct Sched(SchedState);

impl Serialize for Sched {
    fn serialize<S: Serializer>(&self, s: S) -> Result<S::Ok, S::Error> {
        let name = "SchedState";
        match self.0 {
            SchedState::Stopped => s.serialize_unit_variant(name, 0, "Stopped"),
            SchedState::Runnable => s.serialize_unit_variant(name, 1, "Runnable"),
            SchedState::InSend(peer) => s.serialize_newtype_variant(name, 2, "InSend", &Id(peer)),
            SchedState::InReply(peer) => {
                s.serialize_newtype_variant(name, 3, "InReply", &Id(peer))
            }
            SchedState::InRecv(peer) => {
                s.serialize_newtype_variant(name, 4, "InRecv", &peer.map(Id))
            }
        }
    }
}

struct Source(FaultSource);

impl Serialize for Source {
    fn serialize<S: Serializer>(&self, s: S) -> Result<S::Ok, S::Error> {
        match self.0 {
            FaultSource::User => s.serialize_unit_variant("FaultSource", 0, "User"),
            FaultSource::Kernel => s.serialize_unit_variant("FaultSource", 1, "Kernel"),
        }
    }
}

/// A variant without contents, by its place among the others.
struct Plain(u32);

impl Serialize for Plain {
    fn serialize<S: Serializer>(&self, s: S) -> Result<S::Ok, S::Error> {
        s.serialize_unit_variant("Plain", self.0, "")
    }
}

const USAGES: [UsageError; 11] = [
    UsageError::BadSyscallNumber,
    UsageError::InvalidSlice,
    UsageError::TaskOutOfRange,
    UsageError::IllegalTask,
    UsageError::LeaseOutOfRange,
    UsageError::OffsetOutOfRange,
    UsageError::NoIrq,
    UsageError::BadKernelMessage,
    UsageError::BadReplyFaultReason,
    UsageError::NotSupervisor,
    UsageError::ReplyTooBig,
];

const REASONS: [ReplyFaultReason; 6] = [
    ReplyFaultReason::UndefinedOperation,
    ReplyFaultReason::BadMessageSize,
    ReplyFaultReason::BadMessageContents,
    ReplyFaultReason::BadLeases,
    ReplyFaultReason::ReplyBufferTooSmall,
    ReplyFaultReason::AccessViolation,
];

fn place<T: PartialEq>(all: &[T], one: &T) -> Plain {
    Plain(all.iter().position(|other| other == one).unwrap() as u32)
}

struct Fault(FaultInfo);

impl Serialize for Fault {
    fn serialize<S: Serializer>(&self, s: S) -> Result<S::Ok, S::Error> {
        let name = "FaultInfo";
        match self.0 {
            FaultInfo::MemoryAccess { address, source } => {
                let mut v = s.serialize_struct_variant(name, 0, "MemoryAccess", 2)?;
                v.serialize_field("address", &address)?;
                v.serialize_field("source", &Source(source))?;
                v.end()
            }
            FaultInfo::StackOverflow { address } => {
                let mut v = s.serialize_struct_variant(name, 1, "StackOverflow", 1)?;
                v.serialize_field("address", &address)?;
                v.end()
            }
            FaultInfo::BusError { address, source } => {
                let mut v = s.serialize_struct_variant(name, 2, "BusError", 2)?;
                v.serialize_field("address", &address)?;
                v.serialize_field("source", &Source(source))?;
                v.end()
            }
            FaultInfo::DivideByZero => s.serialize_unit_variant(name, 3, "DivideByZero"),
            FaultInfo::IllegalText => s.serialize_unit_variant(name, 4, "IllegalText"),
            FaultInfo::IllegalInstruction => {
                s.serialize_unit_variant(name, 5, "IllegalInstruction")
            }
            FaultInfo::InvalidOperation(bits) => {
                s.serialize_newtype_variant(name, 6, "InvalidOperation", &bits)
            }
            FaultInfo::SyscallUsage(error) => {
                s.serialize_newtype_variant(name, 7, "SyscallUsage", &place(&USAGES, &error))
            }
            FaultInfo::Panic => s.serialize_unit_variant(name, 8, "Panic"),
            FaultInfo::Injected(by) => s.serialize_newtype_variant(name, 9, "Injected", &Id(by)),
            FaultInfo::FromServer(by, reason) => {
                let mut v = s.serialize_tuple_variant(name, 10, "FromServer", 2)?;
                v.serialize_field(&Id(by))?;
                v.serialize_field(&place(&REASONS, &reason))?;
                v.end()
            }
        }
    }
}

struct State(TaskState);

impl Serialize for State {
    fn serialize<S: Serializer>(&self, s: S) -> Result<S::Ok, S::Error> {
        match self.0 {
            TaskState::Healthy(sched) => {
                s.serialize_newtype_variant("TaskState", 0, "Healthy", &Sched(sched))
            }
            TaskState::Faulted { fault, original_state } => {
                let mut v = s.serialize_struct_variant("TaskState", 1, "Faulted", 2)?;
                v.serialize_field("fault", &Fault(fault))?;
                v.serialize_field("original_state", &Sched(original_state))?;
                v.end()
            }
        }
    }
}

struct Region(TaskDumpRegion);

impl Serialize for Region {
    fn serialize<S: Serializer>(&self, s: S) -> Result<S::Ok, S::Error> {
        let mut v = s.serialize_struct("TaskDumpRegion", 2)?;
        v.serialize_field("base", &self.0.base)?;
        v.serialize_field("size", &self.0.size)?;
        v.end()
    }
}

fn scheds() -> Vec<SchedState> {
    vec![
        SchedState::Stopped,
        SchedState::Runnable,
        SchedState::InSend(TaskId(0x1234)),
        SchedState::InReply(TaskId(0xffff)),
        SchedState::InRecv(None),
        SchedState::InRecv(Some(TaskId(0x0401))),
    ]
}

fn faults() -> Vec<FaultInfo> {
    let mut all = vec![
        FaultInfo::StackOverflow { address: 0x89ab_cdef },
        FaultInfo::DivideByZero,
        FaultInfo::IllegalText,
        FaultInfo::IllegalInstruction,
        FaultInfo::InvalidOperation(0x0102_0304),
        FaultInfo::Panic,
        FaultInfo::Injected(TaskId(0x0807)),
    ];
    for address in [None, Some(0x2000_0004)] {
        for source in [FaultSource::User, FaultSource::Kernel] {
            all.push(FaultInfo::MemoryAccess { address, source });
            all.push(FaultInfo::BusError { address, source });
        }
    }
    for error in USAGES {
        all.push(FaultInfo::SyscallUsage(error));
    }
    for reason in REASONS {
        all.push(FaultInfo::FromServer(TaskId(0x0c02), reason));
    }
    all
}

fn states() -> Vec<TaskState> {
    let mut all: Vec<TaskState> = scheds().into_iter().map(TaskState::Healthy).collect();
    for fault in faults() {
        for original_state in scheds() {
            all.push(TaskState::Faulted { fault, original_state });
        }
    }
    all
}

/// What the kernel writes for `value`, and the length that it tells.
fn written<T: Response>(value: &T, room: usize) -> (Vec<u8>, usize) {
    let mut window = Window::Granted(vec![0xee; room]);
    let length = serialize_response(&mut window, value).unwrap();
    match window {
        Window::Granted(bytes) => (bytes, length),
        Window::Denied(_) => panic!("the buffer is gone"),
    }
}

/// What `ssmarshal` writes for `value`.
fn expected<T: Serialize>(value: &T, room: usize) -> (Vec<u8>, usize) {
    let mut bytes = vec![0xee; room];
    let length = ssmarshal::serialize(&mut bytes, value).unwrap();
    (bytes, length)
}

#[test]
fn every_state_as_bytes() {
    for state in states() {
        assert_eq!(written(&state, 20), expected(&State(state), 20));
    }
}

#[test]
fn every_state_has_its_own_bytes() {
    let all: Vec<Vec<u8>> = states()
        .iter()
        .map(|state| {
            let (bytes, length) = written(state, 20);
            bytes[..length].to_vec()
        })
        .collect();
    for (i, a) in all.iter().enumerate() {
        for (j, b) in all.iter().enumerate() {
            assert_eq!(b.starts_with(a), i == j);
        }
    }
}

#[test]
fn numbers_as_bytes() {
    for value in [0u32, 1, 0x0403_0201, u32::MAX] {
        assert_eq!(written(&value, 6), expected(&value, 6));
    }
    for value in [0u64, 0x0807_0605_0403_0201, u64::MAX] {
        assert_eq!(written(&value, 9), expected(&value, 9));
    }
    assert_eq!(written(&0x0403_0201u32, 4), (vec![1, 2, 3, 4], 4));
    assert_eq!(written(&0x0807_0605_0403_0201u64, 8), (vec![1, 2, 3, 4, 5, 6, 7, 8], 8));
}

#[test]
fn regions_as_bytes() {
    let region = TaskDumpRegion { base: 0x0403_0201, size: 0x0807_0605 };
    assert_eq!(written(&Some(region), 12), expected(&Some(Region(region)), 12));
    assert_eq!(written(&Some(region), 9), (vec![1, 1, 2, 3, 4, 5, 6, 7, 8], 9));
    assert_eq!(written(&None::<TaskDumpRegion>, 12), expected(&None::<Region>, 12));
    assert_eq!(written(&None::<TaskDumpRegion>, 2), (vec![0, 0xee], 1));
}

#[test]
fn answers_are_no_longer_than_values() {
    assert!(std::mem::size_of::<TaskState>() >= 12);
    assert!(std::mem::size_of::<Option<TaskDumpRegion>>() >= 9);
    let longest = states().iter().map(|state| written(state, 20).1).max().unwrap();
    assert_eq!(longest, 12);
}

#[test]
fn told_length_is_enough() {
    for state in states() {
        let (whole, length) = written(&state, 20);
        for room in 0..length {
            let (bytes, told) = written(&state, room);
            assert_eq!(told, std::mem::size_of::<TaskState>());
            let n = bytes.iter().zip(&whole).take_while(|(a, b)| a == b).count();
            assert!(bytes[n..].iter().all(|b| *b == 0xee));
            assert_eq!(written(&state, told).1, length);
        }
        assert_eq!(written(&state, length), (whole[..length].to_vec(), length));
    }
}

#[test]
fn fields_up_to_the_first_that_does_not_fit() {
    let fields = vec![Field::U16(0x0201), Field::U64(0), Field::U8(9)];
    let mut buf = vec![0xee; 9];
    assert_eq!(marshal(&mut buf, &fields), Err(MarshalError::EndOfStream));
    assert_eq!(buf, vec![1, 2, 0xee, 0xee, 0xee, 0xee, 0xee, 0xee, 0xee]);
    let mut buf = vec![0xee; 12];
    assert_eq!(marshal(&mut buf, &fields), Ok(11));
    assert_eq!(buf, vec![1, 2, 0, 0, 0, 0, 0, 0, 0, 0, 9, 0xee]);
    let mut buf = vec![];
    assert_eq!(marshal(&mut buf, &vec![]), Ok(0));
}

#[test]
fn denied_buffers() {
    let fault = FaultInfo::StackOverflow { address: 8 };
    let mut window = Window::Denied(fault);
    assert_eq!(
        serialize_response(&mut window, &7u32),
        Err(UserError::Unrecoverable(fault))
    );
    assert_eq!(window, Window::Denied(fault));
    assert_eq!(deserialize_message::<u32>(&window), Err(UserError::Unrecoverable(fault)));
}

/// `value` as a message, cut to `length` bytes or drawn out to that.
fn message<T: Serialize>(value: &T, length: usize) -> Window {
    let mut bytes = expected(value, 32).0;
    bytes.truncate(length);
    Window::Granted(bytes)
}

const BAD: UserError =
    UserError::Unrecoverable(FaultInfo::SyscallUsage(UsageError::BadKernelMessage));

#[test]
fn requests_read_back() {
    let region = TaskDumpRegion { base: 0x2000_0000, size: 0xfffe };
    for length in 0..20 {
        assert_eq!(
            deserialize_message::<u32>(&message(&0xfedc_ba98u32, length)),
            if length < 4 { Err(BAD) } else { Ok(0xfedc_ba98) }
        );
        for start in [false, true] {
            assert_eq!(
                deserialize_message::<(u32, bool)>(&message(&(3u32, start), length)),
                if length < 5 { Err(BAD) } else { Ok((3, start)) }
            );
        }
        assert_eq!(
            deserialize_message::<(u32, u32)>(&message(&(0x0403_0201u32, 77u32), length)),
            if length < 8 { Err(BAD) } else { Ok((0x0403_0201, 77)) }
        );
        assert_eq!(
            deserialize_message::<(u32, TaskDumpRegion)>(&message(
                &(9u32, Region(region)),
                length
            )),
            if length < 12 { Err(BAD) } else { Ok((9, region)) }
        );
    }
}

#[test]
fn truth_values_are_zero_or_one() {
    for byte in 2..=255u8 {
        let window = Window::Granted(vec![0, 0, 0, 0, byte]);
        assert_eq!(deserialize_message::<(u32, bool)>(&window), Err(BAD));
    }
}

#[test]
fn a_response_reads_back() {
    for value in [0u32, 7, 0x0403_0201, u32::MAX] {
        for room in 4..8 {
            let mut window = Window::Granted(vec![0xee; room]);
            assert_eq!(serialize_response(&mut window, &value), Ok(4));
            assert_eq!(deserialize_message::<u32>(&window), Ok(value));
        }
    }
}

#[test]
fn whatever_follows_a_request_is_ignored() {
    let mut bytes = vec![5, 0, 0, 0, 1];
    let read = deserialize_message::<(u32, bool)>(&Window::Granted(bytes.clone()));
    assert_eq!(read, Ok((5, true)));
    for tail in [0, 1, 2, 0xff] {
        bytes.push(tail);
        assert_eq!(deserialize_message::<(u32, bool)>(&Window::Granted(bytes.clone())), read);
    }
}
