//! How requests and responses look as bytes.
//!
//! A value travels as the sequence of its scalar fields; the alternative of an
//! `enum` or of an `Option` is one byte in front of what the alternative holds.

use vstd::prelude::*;

use crate::abi::{
    FaultInfo, FaultSource, ReplyFaultReason, SchedState, TaskDumpRegion, TaskId, TaskState,
    UsageError,
};
use crate::marshal::{
    encoded, lemma_begins_with, lemma_common_fields, lemma_encoded_add, lemma_same_shape,
    lemma_u32_at, lemma_u8_at, read_u32, read_u32_bool, read_u32_pair, read_u32_u32, stands_at,
    u32_at, Field,
};

verus! {

/// A value that has a form on the wire.
pub trait Wire: Sized {
    /// The scalars that stand for the value, in the order of the wire.
    spec fn fields(self) -> Seq<Field>;

    /// What stands for a value stands for no other, whatever follows it.
    proof fn unambiguous(a: Self, b: Self, rest: Seq<u8>)
        requires
            encoded(a.fields()).is_prefix_of(encoded(b.fields()) + rest),
        ensures
            a == b,
    ;
}

/// A value that the kernel can answer with.
pub trait Response: Wire {
    fn to_fields(&self) -> (r: Vec<Field>)
        ensures
            r@ == self.fields(),
    ;
}

/// A value that a task can send to the kernel. What follows it in a message is
/// ignored.
pub trait Request: Wire {
    /// The value that `bytes` begin with, if they begin with one.
    spec fn decode(bytes: Seq<u8>) -> Option<Self>;

    /// A value is found just where the bytes begin with what stands for it.
    proof fn decodes_what_is_there(bytes: Seq<u8>, value: Self)
        ensures
            Self::decode(bytes) == Some(value) <==> encoded(value.fields()).is_prefix_of(bytes),
    ;

    fn read(bytes: &[u8]) -> (r: Option<Self>)
        ensures
            r == Self::decode(bytes@),
    ;
}

/// `lemma_same_shape` for a value with nothing behind it.
proof fn lemma_fixed_shape(a: Seq<Field>, b: Seq<Field>, rest: Seq<u8>)
    requires
        a.len() == b.len(),
        forall|i: int| 0 <= i < a.len() ==> (#[trigger] a[i]).width() == (#[trigger] b[i]).width(),
        encoded(a).is_prefix_of(encoded(b) + rest),
    ensures
        a == b,
{
    let none = Seq::<u8>::empty();
    assert(encoded(a) + none == encoded(a));
    lemma_same_shape(a, b, none, rest);
}

impl Wire for u32 {
    open spec fn fields(self) -> Seq<Field> {
        seq![Field::U32(self)]
    }

    proof fn unambiguous(a: Self, b: Self, rest: Seq<u8>) {
        let (fa, fb) = (a.fields(), b.fields());
        lemma_fixed_shape(fa, fb, rest);
        assert(fa[0] == fb[0]);
    }
}

impl Response for u32 {
    fn to_fields(&self) -> (r: Vec<Field>) {
        vec![Field::U32(*self)]
    }
}

impl Wire for u64 {
    open spec fn fields(self) -> Seq<Field> {
        seq![Field::U64(self)]
    }

    proof fn unambiguous(a: Self, b: Self, rest: Seq<u8>) {
        let (fa, fb) = (a.fields(), b.fields());
        lemma_fixed_shape(fa, fb, rest);
        assert(fa[0] == fb[0]);
    }
}

impl Response for u64 {
    fn to_fields(&self) -> (r: Vec<Field>) {
        vec![Field::U64(*self)]
    }
}

impl Wire for Option<TaskDumpRegion> {
    open spec fn fields(self) -> Seq<Field> {
        match self {
            None => seq![Field::U8(0)],
            Some(region) => seq![Field::U8(1), Field::U32(region.base), Field::U32(region.size)],
        }
    }

    proof fn unambiguous(a: Self, b: Self, rest: Seq<u8>) {
        let (fa, fb) = (a.fields(), b.fields());
        let none = Seq::<u8>::empty();
        assert(encoded(fa) + none == encoded(fa));
        lemma_common_fields(fa, fb, 1, none, rest);
        assert(fa[0] == fb[0]);
        lemma_fixed_shape(fa, fb, rest);
        assert(a is Some ==> fa[1] == fb[1] && fa[2] == fb[2]);
    }
}

impl Response for Option<TaskDumpRegion> {
    fn to_fields(&self) -> (r: Vec<Field>) {
        match self {
            None => vec![Field::U8(0)],
            Some(region) => vec![Field::U8(1), Field::U32(region.base), Field::U32(region.size)],
        }
    }
}

/// The scalars of an optional address.
pub open spec fn address_fields(address: Option<u32>) -> Seq<Field> {
    match address {
        None => seq![Field::U8(0)],
        Some(a) => seq![Field::U8(1), Field::U32(a)],
    }
}

/// The byte that tells the `UsageError`s apart.
pub open spec fn usage_index(error: UsageError) -> u8 {
    match error {
        UsageError::BadSyscallNumber => 0,
        UsageError::InvalidSlice => 1,
        UsageError::TaskOutOfRange => 2,
        UsageError::IllegalTask => 3,
        UsageError::LeaseOutOfRange => 4,
        UsageError::OffsetOutOfRange => 5,
        UsageError::NoIrq => 6,
        UsageError::BadKernelMessage => 7,
        UsageError::BadReplyFaultReason => 8,
        UsageError::NotSupervisor => 9,
        UsageError::ReplyTooBig => 10,
    }
}

/// The byte that tells the `FaultSource`s apart.
pub open spec fn source_index(source: FaultSource) -> u8 {
    match source {
        FaultSource::User => 0,
        FaultSource::Kernel => 1,
    }
}

/// The byte that tells the `ReplyFaultReason`s apart.
pub open spec fn reason_index(reason: ReplyFaultReason) -> u8 {
    match reason {
        ReplyFaultReason::UndefinedOperation => 0,
        ReplyFaultReason::BadMessageSize => 1,
        ReplyFaultReason::BadMessageContents => 2,
        ReplyFaultReason::BadLeases => 3,
        ReplyFaultReason::ReplyBufferTooSmall => 4,
        ReplyFaultReason::AccessViolation => 5,
    }
}

/// The scalars of a fault record.
pub open spec fn fault_fields(fault: FaultInfo) -> Seq<Field> {
    match fault {
        FaultInfo::MemoryAccess { address, source } => seq![Field::U8(0)] + address_fields(address)
            + seq![Field::U8(source_index(source))],
        FaultInfo::StackOverflow { address } => seq![Field::U8(1), Field::U32(address)],
        FaultInfo::BusError { address, source } => seq![Field::U8(2)] + address_fields(address)
            + seq![Field::U8(source_index(source))],
        FaultInfo::DivideByZero => seq![Field::U8(3)],
        FaultInfo::IllegalText => seq![Field::U8(4)],
        FaultInfo::IllegalInstruction => seq![Field::U8(5)],
        FaultInfo::InvalidOperation(bits) => seq![Field::U8(6), Field::U32(bits)],
        FaultInfo::SyscallUsage(error) => seq![Field::U8(7), Field::U8(usage_index(error))],
        FaultInfo::Panic => seq![Field::U8(8)],
        FaultInfo::Injected(by) => seq![Field::U8(9), Field::U16(by.0)],
        FaultInfo::FromServer(by, reason) => seq![
            Field::U8(10),
            Field::U16(by.0),
            Field::U8(reason_index(reason)),
        ],
    }
}

/// The scalars of a scheduling state.
pub open spec fn sched_fields(sched: SchedState) -> Seq<Field> {
    match sched {
        SchedState::Stopped => seq![Field::U8(0)],
        SchedState::Runnable => seq![Field::U8(1)],
        SchedState::InSend(peer) => seq![Field::U8(2), Field::U16(peer.0)],
        SchedState::InReply(peer) => seq![Field::U8(3), Field::U16(peer.0)],
        SchedState::InRecv(None) => seq![Field::U8(4), Field::U8(0)],
        SchedState::InRecv(Some(peer)) => seq![Field::U8(4), Field::U8(1), Field::U16(peer.0)],
    }
}

fn usage_byte(error: UsageError) -> (r: u8)
    ensures
        r == usage_index(error),
{
    match error {
        UsageError::BadSyscallNumber => 0,
        UsageError::InvalidSlice => 1,
        UsageError::TaskOutOfRange => 2,
        UsageError::IllegalTask => 3,
        UsageError::LeaseOutOfRange => 4,
        UsageError::OffsetOutOfRange => 5,
        UsageError::NoIrq => 6,
        UsageError::BadKernelMessage => 7,
        UsageError::BadReplyFaultReason => 8,
        UsageError::NotSupervisor => 9,
        UsageError::ReplyTooBig => 10,
    }
}

fn source_byte(source: FaultSource) -> (r: u8)
    ensures
        r == source_index(source),
{
    match source {
        FaultSource::User => 0,
        FaultSource::Kernel => 1,
    }
}

fn reason_byte(reason: ReplyFaultReason) -> (r: u8)
    ensures
        r == reason_index(reason),
{
    match reason {
        ReplyFaultReason::UndefinedOperation => 0,
        ReplyFaultReason::BadMessageSize => 1,
        ReplyFaultReason::BadMessageContents => 2,
        ReplyFaultReason::BadLeases => 3,
        ReplyFaultReason::ReplyBufferTooSmall => 4,
        ReplyFaultReason::AccessViolation => 5,
    }
}

fn push_address(out: &mut Vec<Field>, address: Option<u32>)
    ensures
        final(out)@ == old(out)@ + address_fields(address),
{
    match address {
        None => out.push(Field::U8(0)),
        Some(a) => {
            out.push(Field::U8(1));
            out.push(Field::U32(a));
        },
    }
}

fn push_task_id(out: &mut Vec<Field>, tag: u8, id: TaskId)
    ensures
        final(out)@ == old(out)@ + seq![Field::U8(tag), Field::U16(id.0)],
{
    out.push(Field::U8(tag));
    out.push(Field::U16(id.0));
}

fn push_fault(out: &mut Vec<Field>, fault: FaultInfo)
    ensures
        final(out)@ == old(out)@ + fault_fields(fault),
{
    match fault {
        FaultInfo::MemoryAccess { address, source } => {
            out.push(Field::U8(0));
            push_address(out, address);
            out.push(Field::U8(source_byte(source)));
        },
        FaultInfo::StackOverflow { address } => {
            out.push(Field::U8(1));
            out.push(Field::U32(address));
        },
        FaultInfo::BusError { address, source } => {
            out.push(Field::U8(2));
            push_address(out, address);
            out.push(Field::U8(source_byte(source)));
        },
        FaultInfo::DivideByZero => out.push(Field::U8(3)),
        FaultInfo::IllegalText => out.push(Field::U8(4)),
        FaultInfo::IllegalInstruction => out.push(Field::U8(5)),
        FaultInfo::InvalidOperation(bits) => {
            out.push(Field::U8(6));
            out.push(Field::U32(bits));
        },
        FaultInfo::SyscallUsage(error) => {
            out.push(Field::U8(7));
            out.push(Field::U8(usage_byte(error)));
        },
        FaultInfo::Panic => out.push(Field::U8(8)),
        FaultInfo::Injected(by) => push_task_id(out, 9, by),
        FaultInfo::FromServer(by, reason) => {
            push_task_id(out, 10, by);
            out.push(Field::U8(reason_byte(reason)));
        },
    }
    assert(out@ =~= old(out)@ + fault_fields(fault));
}

fn push_sched(out: &mut Vec<Field>, sched: SchedState)
    ensures
        final(out)@ == old(out)@ + sched_fields(sched),
{
    match sched {
        SchedState::Stopped => out.push(Field::U8(0)),
        SchedState::Runnable => out.push(Field::U8(1)),
        SchedState::InSend(peer) => push_task_id(out, 2, peer),
        SchedState::InReply(peer) => push_task_id(out, 3, peer),
        SchedState::InRecv(None) => {
            out.push(Field::U8(4));
            out.push(Field::U8(0));
        },
        SchedState::InRecv(Some(peer)) => {
            out.push(Field::U8(4));
            push_task_id(out, 1, peer);
        },
    }
    assert(out@ =~= old(out)@ + sched_fields(sched));
}

proof fn lemma_sched_unambiguous(a: SchedState, b: SchedState, x: Seq<u8>, y: Seq<u8>)
    requires
        (encoded(sched_fields(a)) + x).is_prefix_of(encoded(sched_fields(b)) + y),
    ensures
        a == b,
        x.is_prefix_of(y),
{
    let (fa, fb) = (sched_fields(a), sched_fields(b));
    lemma_common_fields(fa, fb, 1, x, y);
    assert(fa[0] == fb[0]);
    if a is InRecv {
        lemma_common_fields(fa, fb, 2, x, y);
        assert(fa[1] == fb[1]);
    }
    lemma_same_shape(fa, fb, x, y);
    assert(fa.len() > 1 ==> fa[fa.len() - 1] == fb[fa.len() - 1]);
}

/// The byte that tells the kinds of faults apart.
spec fn fault_index(fault: FaultInfo) -> u8 {
    match fault {
        FaultInfo::MemoryAccess { .. } => 0,
        FaultInfo::StackOverflow { .. } => 1,
        FaultInfo::BusError { .. } => 2,
        FaultInfo::DivideByZero => 3,
        FaultInfo::IllegalText => 4,
        FaultInfo::IllegalInstruction => 5,
        FaultInfo::InvalidOperation(_) => 6,
        FaultInfo::SyscallUsage(_) => 7,
        FaultInfo::Panic => 8,
        FaultInfo::Injected(_) => 9,
        FaultInfo::FromServer(_, _) => 10,
    }
}

proof fn lemma_fault_index(fault: FaultInfo)
    ensures
        fault_fields(fault).len() >= 1,
        fault_fields(fault)[0] == Field::U8(fault_index(fault)),
{
}

/// Faults of one kind have records of one shape, but for an address that may be
/// missing.
proof fn lemma_fault_shape(a: FaultInfo, b: FaultInfo)
    requires
        fault_index(a) == fault_index(b),
        a is MemoryAccess || a is BusError ==> fault_fields(a)[1] == fault_fields(b)[1],
    ensures
        fault_fields(a).len() == fault_fields(b).len(),
        forall|i: int|
            0 <= i < fault_fields(a).len() ==> (#[trigger] fault_fields(a)[i]).width() == (
            #[trigger] fault_fields(b)[i]).width(),
{
}

/// Faults of one kind that have the same fields are the same.
proof fn lemma_fault_fields_injective(a: FaultInfo, b: FaultInfo)
    requires
        fault_index(a) == fault_index(b),
        fault_fields(a) == fault_fields(b),
    ensures
        a == b,
{
    let (fa, fb) = (fault_fields(a), fault_fields(b));
    assert(fa.len() > 1 ==> fa[1] == fb[1]);
    assert(fa.len() > 2 ==> fa[2] == fb[2]);
    assert(fa.len() > 3 ==> fa[3] == fb[3]);
}

proof fn lemma_fault_unambiguous(a: FaultInfo, b: FaultInfo, x: Seq<u8>, y: Seq<u8>)
    requires
        (encoded(fault_fields(a)) + x).is_prefix_of(encoded(fault_fields(b)) + y),
    ensures
        a == b,
        x.is_prefix_of(y),
{
    let (fa, fb) = (fault_fields(a), fault_fields(b));
    lemma_fault_index(a);
    lemma_fault_index(b);
    lemma_common_fields(fa, fb, 1, x, y);
    assert(fa[0] == fb[0]);
    assert(fault_index(a) == fault_index(b));
    if a is MemoryAccess || a is BusError {
        lemma_common_fields(fa, fb, 2, x, y);
        assert(fa[1] == fb[1]);
    }
    lemma_fault_shape(a, b);
    lemma_same_shape(fa, fb, x, y);
    lemma_fault_fields_injective(a, b);
}

impl Wire for TaskState {
    open spec fn fields(self) -> Seq<Field> {
        match self {
            TaskState::Healthy(sched) => seq![Field::U8(0)] + sched_fields(sched),
            TaskState::Faulted { fault, original_state } => seq![Field::U8(1)] + fault_fields(fault)
                + sched_fields(original_state),
        }
    }

    proof fn unambiguous(a: Self, b: Self, rest: Seq<u8>) {
        let (fa, fb) = (a.fields(), b.fields());
        let none = Seq::<u8>::empty();
        assert(encoded(fa) + none == encoded(fa));
        lemma_common_fields(fa, fb, 1, none, rest);
        assert(fa[0] == fb[0]);
        match (a, b) {
            (TaskState::Healthy(sa), TaskState::Healthy(sb)) => {
                assert(fa.skip(1) == sched_fields(sa));
                assert(fb.skip(1) == sched_fields(sb));
                lemma_sched_unambiguous(sa, sb, none, rest);
            },
            (
                TaskState::Faulted { fault: ua, original_state: sa },
                TaskState::Faulted { fault: ub, original_state: sb },
            ) => {
                assert(fa.skip(1) == fault_fields(ua) + sched_fields(sa));
                assert(fb.skip(1) == fault_fields(ub) + sched_fields(sb));
                lemma_encoded_add(fault_fields(ua), sched_fields(sa));
                lemma_encoded_add(fault_fields(ub), sched_fields(sb));
                let (x, y) = (encoded(sched_fields(sa)) + none, encoded(sched_fields(sb)) + rest);
                assert(encoded(fa.skip(1)) + none == encoded(fault_fields(ua)) + x);
                assert(encoded(fb.skip(1)) + rest == encoded(fault_fields(ub)) + y);
                lemma_fault_unambiguous(ua, ub, x, y);
                lemma_sched_unambiguous(sa, sb, none, rest);
            },
            _ => {},
        }
    }
}

impl Response for TaskState {
    fn to_fields(&self) -> (r: Vec<Field>) {
        let mut out: Vec<Field> = Vec::new();
        match *self {
            TaskState::Healthy(sched) => {
                out.push(Field::U8(0));
                push_sched(&mut out, sched);
            },
            TaskState::Faulted { fault, original_state } => {
                out.push(Field::U8(1));
                push_fault(&mut out, fault);
                push_sched(&mut out, original_state);
            },
        }
        assert(out@ =~= self.fields());
        out
    }
}

impl Request for u32 {
    open spec fn decode(bytes: Seq<u8>) -> Option<u32> {
        if bytes.len() >= 4 {
            Some(u32_at(bytes, 0))
        } else {
            None
        }
    }

    proof fn decodes_what_is_there(bytes: Seq<u8>, value: Self) {
        let fields = value.fields();
        lemma_begins_with(fields, bytes, 0);
        assert(bytes.skip(0) == bytes);
        if bytes.len() >= 4 {
            lemma_begins_with(fields.drop_first(), bytes, 4);
            lemma_u32_at(bytes, 0, value);
        }
        assert(Self::decode(bytes) == Some(value) <==> stands_at(Field::U32(value), bytes, 0));
    }

    fn read(bytes: &[u8]) -> (r: Option<u32>) {
        if bytes.len() < 4 {
            return None;
        }
        match read_u32(bytes) {
            Ok((value, _)) => Some(value),
            Err(_) => None,
        }
    }
}

impl Wire for (u32, bool) {
    open spec fn fields(self) -> Seq<Field> {
        seq![
            Field::U32(self.0),
            Field::U8(
                if self.1 {
                    1
                } else {
                    0
                },
            ),
        ]
    }

    proof fn unambiguous(a: Self, b: Self, rest: Seq<u8>) {
        let (fa, fb) = (a.fields(), b.fields());
        lemma_fixed_shape(fa, fb, rest);
        assert(fa[0] == fb[0]);
        assert(fa[1] == fb[1]);
    }
}

impl Request for (u32, bool) {
    open spec fn decode(bytes: Seq<u8>) -> Option<(u32, bool)> {
        if bytes.len() >= 5 && bytes[4] <= 1 {
            Some((u32_at(bytes, 0), bytes[4] == 1))
        } else {
            None
        }
    }

    proof fn decodes_what_is_there(bytes: Seq<u8>, value: Self) {
        let fields = value.fields();
        let flag: u8 = if value.1 {
            1
        } else {
            0
        };
        lemma_begins_with(fields, bytes, 0);
        assert(bytes.skip(0) == bytes);
        if bytes.len() >= 4 {
            lemma_begins_with(fields.drop_first(), bytes, 4);
            lemma_u32_at(bytes, 0, value.0);
        }
        if bytes.len() >= 5 {
            lemma_begins_with(fields.drop_first().drop_first(), bytes, 5);
            lemma_u8_at(bytes, 4, flag);
        }
        assert(Self::decode(bytes) == Some(value) <==> {
            &&& stands_at(Field::U32(value.0), bytes, 0)
            &&& stands_at(Field::U8(flag), bytes, 4)
        });
    }

    fn read(bytes: &[u8]) -> (r: Option<(u32, bool)>) {
        if bytes.len() < 5 {
            return None;
        }
        match read_u32_bool(bytes) {
            Ok((value, _)) => Some(value),
            Err(_) => None,
        }
    }
}

impl Wire for (u32, u32) {
    open spec fn fields(self) -> Seq<Field> {
        seq![Field::U32(self.0), Field::U32(self.1)]
    }

    proof fn unambiguous(a: Self, b: Self, rest: Seq<u8>) {
        let (fa, fb) = (a.fields(), b.fields());
        lemma_fixed_shape(fa, fb, rest);
        assert(fa[0] == fb[0]);
        assert(fa[1] == fb[1]);
    }
}

impl Request for (u32, u32) {
    open spec fn decode(bytes: Seq<u8>) -> Option<(u32, u32)> {
        if bytes.len() >= 8 {
            Some((u32_at(bytes, 0), u32_at(bytes, 4)))
        } else {
            None
        }
    }

    proof fn decodes_what_is_there(bytes: Seq<u8>, value: Self) {
        let fields = value.fields();
        lemma_begins_with(fields, bytes, 0);
        assert(bytes.skip(0) == bytes);
        if bytes.len() >= 4 {
            lemma_begins_with(fields.drop_first(), bytes, 4);
            lemma_u32_at(bytes, 0, value.0);
        }
        if bytes.len() >= 8 {
            lemma_begins_with(fields.drop_first().drop_first(), bytes, 8);
            lemma_u32_at(bytes, 4, value.1);
        }
        assert(Self::decode(bytes) == Some(value) <==> {
            &&& stands_at(Field::U32(value.0), bytes, 0)
            &&& stands_at(Field::U32(value.1), bytes, 4)
        });
    }

    fn read(bytes: &[u8]) -> (r: Option<(u32, u32)>) {
        if bytes.len() < 8 {
            return None;
        }
        match read_u32_u32(bytes) {
            Ok((value, _)) => Some(value),
            Err(_) => None,
        }
    }
}

impl Wire for (u32, TaskDumpRegion) {
    open spec fn fields(self) -> Seq<Field> {
        seq![Field::U32(self.0), Field::U32(self.1.base), Field::U32(self.1.size)]
    }

    proof fn unambiguous(a: Self, b: Self, rest: Seq<u8>) {
        let (fa, fb) = (a.fields(), b.fields());
        lemma_fixed_shape(fa, fb, rest);
        assert(fa[0] == fb[0]);
        assert(fa[1] == fb[1]);
        assert(fa[2] == fb[2]);
    }
}

impl Request for (u32, TaskDumpRegion) {
    open spec fn decode(bytes: Seq<u8>) -> Option<(u32, TaskDumpRegion)> {
        if bytes.len() >= 12 {
            Some(
                (
                    u32_at(bytes, 0),
                    TaskDumpRegion { base: u32_at(bytes, 4), size: u32_at(bytes, 8) },
                ),
            )
        } else {
            None
        }
    }

    proof fn decodes_what_is_there(bytes: Seq<u8>, value: Self) {
        let fields = value.fields();
        let tail = fields.drop_first();
        lemma_begins_with(fields, bytes, 0);
        assert(bytes.skip(0) == bytes);
        if bytes.len() >= 4 {
            lemma_begins_with(tail, bytes, 4);
            lemma_u32_at(bytes, 0, value.0);
        }
        if bytes.len() >= 8 {
            lemma_begins_with(tail.drop_first(), bytes, 8);
            lemma_u32_at(bytes, 4, value.1.base);
        }
        if bytes.len() >= 12 {
            lemma_begins_with(tail.drop_first().drop_first(), bytes, 12);
            lemma_u32_at(bytes, 8, value.1.size);
        }
        assert(Self::decode(bytes) == Some(value) <==> {
            &&& stands_at(Field::U32(value.0), bytes, 0)
            &&& stands_at(Field::U32(value.1.base), bytes, 4)
            &&& stands_at(Field::U32(value.1.size), bytes, 8)
        });
    }

    fn read(bytes: &[u8]) -> (r: Option<(u32, TaskDumpRegion)>) {
        if bytes.len() < 12 {
            return None;
        }
        match read_u32_pair(bytes) {
            Ok(((index, (base, size)), _)) => Some((index, TaskDumpRegion { base, size })),
            Err(_) => None,
        }
    }
}

} // verus!
