//! What requests and responses are, byte for byte.

use vstd::prelude::*;

use crate::abi::{
    FaultInfo, FaultSource, ReplyFaultReason, SchedState, TaskDumpRegion, TaskId, TaskState,
    UsageError, UserError,
};
use crate::kipc::received;
use crate::marshal::{encoded, le, lemma_encoded_add, lemma_encoded_first, u32_at, unle, Field};
use crate::wire::{
    address_fields, fault_fields, reason_index, sched_fields, source_index, usage_index, Wire,
};

verus! {

/// The number that four bytes spell, the lowest first.
pub open spec fn number_at(bytes: Seq<u8>, at: int) -> int {
    bytes[at] + 0x100 * bytes[at + 1] + 0x1_0000 * bytes[at + 2] + 0x100_0000 * bytes[at + 3]
}

proof fn lemma_number_at(bytes: Seq<u8>, at: int)
    requires
        0 <= at,
        at + 4 <= bytes.len(),
    ensures
        u32_at(bytes, at) == number_at(bytes, at),
{
    let four = bytes.subrange(at, at + 4);
    reveal_with_fuel(unle, 5);
    assert(four.drop_first()[0] == bytes[at + 1]);
    assert(four.drop_first().drop_first()[0] == bytes[at + 2]);
    assert(four.drop_first().drop_first().drop_first()[0] == bytes[at + 3]);
    assert(unle(four) == number_at(bytes, at));
}

/// What the kernel makes of the caller's message: the fault of a message that
/// cannot be read; the numbers, lowest byte first, that it begins with; or, if it
/// is too short for them or spells no truth value, a refusal.
pub proof fn law_messages_are_numbers(bytes: Seq<u8>, fault: FaultInfo)
    ensures
        ({
            let bad = UserError::Unrecoverable(
                FaultInfo::SyscallUsage(UsageError::BadKernelMessage),
            );
            let denied = UserError::Unrecoverable(fault);
            &&& received::<u32>(Err(fault)) == Err::<u32, _>(denied)
            &&& received::<(u32, bool)>(Err(fault)) == Err::<(u32, bool), _>(denied)
            &&& received::<(u32, u32)>(Err(fault)) == Err::<(u32, u32), _>(denied)
            &&& received::<(u32, TaskDumpRegion)>(Err(fault)) == Err::<(u32, TaskDumpRegion), _>(
                denied,
            )
            &&& match received::<u32>(Ok(bytes)) {
                Ok(n) => bytes.len() >= 4 && n == number_at(bytes, 0),
                Err(error) => bytes.len() < 4 && error == bad,
            }
            &&& match received::<(u32, bool)>(Ok(bytes)) {
                Ok((n, flag)) => {
                    &&& bytes.len() >= 5
                    &&& n == number_at(bytes, 0)
                    &&& bytes[4] == 0 && !flag || bytes[4] == 1 && flag
                },
                Err(error) => (bytes.len() < 5 || bytes[4] > 1) && error == bad,
            }
            &&& match received::<(u32, u32)>(Ok(bytes)) {
                Ok((m, n)) => {
                    &&& bytes.len() >= 8
                    &&& m == number_at(bytes, 0)
                    &&& n == number_at(bytes, 4)
                },
                Err(error) => bytes.len() < 8 && error == bad,
            }
            &&& match received::<(u32, TaskDumpRegion)>(Ok(bytes)) {
                Ok((n, region)) => {
                    &&& bytes.len() >= 12
                    &&& n == number_at(bytes, 0)
                    &&& region.base == number_at(bytes, 4)
                    &&& region.size == number_at(bytes, 8)
                },
                Err(error) => bytes.len() < 12 && error == bad,
            }
        }),
{
    if bytes.len() >= 4 {
        lemma_number_at(bytes, 0);
    }
    if bytes.len() >= 8 {
        lemma_number_at(bytes, 4);
    }
    if bytes.len() >= 12 {
        lemma_number_at(bytes, 8);
    }
}

/// The four bytes of a number, the lowest first.
pub open spec fn word_bytes(value: u32) -> Seq<u8> {
    seq![
        (value % 0x100) as u8,
        (value / 0x100 % 0x100) as u8,
        (value / 0x1_0000 % 0x100) as u8,
        (value / 0x100_0000) as u8,
    ]
}

/// The two bytes of the name of a task, the lower first.
pub open spec fn id_bytes(id: TaskId) -> Seq<u8> {
    seq![(id.0 % 0x100) as u8, (id.0 / 0x100) as u8]
}

/// Each scalar takes as many bytes as its width says, the lowest first.
pub proof fn law_scalars_are_little_endian(byte: u8, id: TaskId, word: u32, long: u64)
    ensures
        Field::U8(byte).bytes() == seq![byte],
        Field::U16(id.0).bytes() == id_bytes(id),
        Field::U32(word).bytes() == word_bytes(word),
        Field::U64(long).bytes().len() == 8,
        number_at(word_bytes(word), 0) == word,
        number_at(Field::U64(long).bytes(), 0) + 0x1_0000_0000 * number_at(
            Field::U64(long).bytes(),
            4,
        ) == long,
{
    reveal_with_fuel(le, 9);
    assert(Field::U8(byte).bytes() =~= seq![byte]);
    assert(Field::U16(id.0).bytes() =~= id_bytes(id));
    assert(Field::U32(word).bytes() =~= word_bytes(word));
    lemma_long(long);
}

proof fn lemma_long(long: u64)
    ensures
        Field::U64(long).bytes().len() == 8,
        number_at(Field::U64(long).bytes(), 0) + 0x1_0000_0000 * number_at(
            Field::U64(long).bytes(),
            4,
        ) == long,
{
    let v = long as nat;
    let low = le(v, 8);
    lemma_digit(v, 8);
    lemma_digit(v / 256, 7);
    lemma_digit(v / 256 / 256, 6);
    lemma_digit(v / 256 / 256 / 256, 5);
    lemma_digit(v / 256 / 256 / 256 / 256, 4);
    lemma_digit(v / 256 / 256 / 256 / 256 / 256, 3);
    lemma_digit(v / 256 / 256 / 256 / 256 / 256 / 256, 2);
    lemma_digit(v / 256 / 256 / 256 / 256 / 256 / 256 / 256, 1);
    assert(low[0] == v % 256);
    assert(low[1] == v / 256 % 256);
    assert(low[2] == v / 256 / 256 % 256);
    assert(low[3] == v / 256 / 256 / 256 % 256);
    assert(low[4] == v / 256 / 256 / 256 / 256 % 256);
    assert(low[5] == v / 256 / 256 / 256 / 256 / 256 % 256);
    assert(low[6] == v / 256 / 256 / 256 / 256 / 256 / 256 % 256);
    assert(low[7] == v / 256 / 256 / 256 / 256 / 256 / 256 / 256 % 256);
}

proof fn lemma_digit(value: nat, width: nat)
    requires
        width > 0,
    ensures
        le(value, width).len() == width,
        le(value, width)[0] == value % 256,
        forall|i: int|
            1 <= i < width ==> #[trigger] le(value, width)[i] == le(
                value / 256,
                (width - 1) as nat,
            )[i - 1],
    decreases width,
{
    if width > 1 {
        lemma_digit(value / 256, (width - 1) as nat);
    } else {
        reveal_with_fuel(le, 2);
    }
}

/// The bytes of a scheduling state.
pub open spec fn sched_bytes(sched: SchedState) -> Seq<u8> {
    match sched {
        SchedState::Stopped => seq![0u8],
        SchedState::Runnable => seq![1u8],
        SchedState::InSend(peer) => seq![2u8] + id_bytes(peer),
        SchedState::InReply(peer) => seq![3u8] + id_bytes(peer),
        SchedState::InRecv(None) => seq![4u8, 0u8],
        SchedState::InRecv(Some(peer)) => seq![4u8, 1u8] + id_bytes(peer),
    }
}

/// The bytes of an optional address.
pub open spec fn address_bytes(address: Option<u32>) -> Seq<u8> {
    match address {
        None => seq![0u8],
        Some(a) => seq![1u8] + word_bytes(a),
    }
}

/// The bytes of a fault record.
pub open spec fn fault_bytes(fault: FaultInfo) -> Seq<u8> {
    match fault {
        FaultInfo::MemoryAccess { address, source } => seq![0u8] + address_bytes(address) + seq![
            source_index(source),
        ],
        FaultInfo::StackOverflow { address } => seq![1u8] + word_bytes(address),
        FaultInfo::BusError { address, source } => seq![2u8] + address_bytes(address) + seq![
            source_index(source),
        ],
        FaultInfo::DivideByZero => seq![3u8],
        FaultInfo::IllegalText => seq![4u8],
        FaultInfo::IllegalInstruction => seq![5u8],
        FaultInfo::InvalidOperation(bits) => seq![6u8] + word_bytes(bits),
        FaultInfo::SyscallUsage(error) => seq![7u8, usage_index(error)],
        FaultInfo::Panic => seq![8u8],
        FaultInfo::Injected(by) => seq![9u8] + id_bytes(by),
        FaultInfo::FromServer(by, reason) => seq![10u8] + id_bytes(by) + seq![reason_index(reason)],
    }
}

/// The bytes of a status report.
pub open spec fn status_bytes(state: TaskState) -> Seq<u8> {
    match state {
        TaskState::Healthy(sched) => seq![0u8] + sched_bytes(sched),
        TaskState::Faulted { fault, original_state } => seq![1u8] + fault_bytes(fault)
            + sched_bytes(original_state),
    }
}

/// The bytes of an answer that names a region, or none.
pub open spec fn region_bytes(region: Option<TaskDumpRegion>) -> Seq<u8> {
    match region {
        None => seq![0u8],
        Some(region) => seq![1u8] + word_bytes(region.base) + word_bytes(region.size),
    }
}

proof fn lemma_scalar_bytes(field: Field)
    ensures
        field matches Field::U8(v) ==> field.bytes() == seq![v],
        field matches Field::U16(v) ==> field.bytes() == id_bytes(TaskId(v)),
        field matches Field::U32(v) ==> field.bytes() == word_bytes(v),
{
    match field {
        Field::U8(v) => law_scalars_are_little_endian(v, TaskId(0), 0, 0),
        Field::U16(v) => law_scalars_are_little_endian(0, TaskId(v), 0, 0),
        Field::U32(v) => law_scalars_are_little_endian(0, TaskId(0), v, 0),
        Field::U64(_) => {},
    }
}

/// What up to four fields look like, one after the other.
proof fn lemma_few_fields(fields: Seq<Field>)
    requires
        fields.len() <= 4,
    ensures
        fields.len() == 1 ==> encoded(fields) == fields[0].bytes(),
        fields.len() == 2 ==> encoded(fields) == fields[0].bytes() + fields[1].bytes(),
        fields.len() == 3 ==> encoded(fields) == fields[0].bytes() + fields[1].bytes()
            + fields[2].bytes(),
        fields.len() == 4 ==> encoded(fields) == fields[0].bytes() + fields[1].bytes()
            + fields[2].bytes() + fields[3].bytes(),
        forall|i: int|
            0 <= i < fields.len() ==> {
                &&& (#[trigger] fields[i]) matches Field::U8(v) ==> fields[i].bytes() == seq![v]
                &&& fields[i] matches Field::U16(v) ==> fields[i].bytes() == id_bytes(TaskId(v))
                &&& fields[i] matches Field::U32(v) ==> fields[i].bytes() == word_bytes(v)
            },
{
    assert forall|i: int| 0 <= i < fields.len() implies {
        &&& (#[trigger] fields[i]) matches Field::U8(v) ==> fields[i].bytes() == seq![v]
        &&& fields[i] matches Field::U16(v) ==> fields[i].bytes() == id_bytes(TaskId(v))
        &&& fields[i] matches Field::U32(v) ==> fields[i].bytes() == word_bytes(v)
    } by {
        lemma_scalar_bytes(fields[i]);
    }
    let nothing = Seq::<Field>::empty();
    assert(encoded(nothing) == Seq::<u8>::empty());
    if fields.len() >= 1 {
        lemma_encoded_first(fields);
        let rest = fields.drop_first();
        if rest.len() == 0 {
            assert(rest == nothing);
            assert(encoded(fields) =~= fields[0].bytes());
        } else {
            lemma_few_tail(rest);
            assert(rest[0] == fields[1]);
            if rest.len() >= 2 {
                assert(rest[1] == fields[2]);
            }
            if rest.len() >= 3 {
                assert(rest[2] == fields[3]);
                assert(encoded(fields) =~= fields[0].bytes() + fields[1].bytes()
                    + fields[2].bytes() + fields[3].bytes());
            }
            if rest.len() == 2 {
                assert(encoded(fields) =~= fields[0].bytes() + fields[1].bytes()
                    + fields[2].bytes());
            }
        }
    }
}

proof fn lemma_few_tail(fields: Seq<Field>)
    requires
        1 <= fields.len() <= 3,
    ensures
        fields.len() == 1 ==> encoded(fields) == fields[0].bytes(),
        fields.len() == 2 ==> encoded(fields) == fields[0].bytes() + fields[1].bytes(),
        fields.len() == 3 ==> encoded(fields) == fields[0].bytes() + fields[1].bytes()
            + fields[2].bytes(),
    decreases fields.len(),
{
    lemma_encoded_first(fields);
    let rest = fields.drop_first();
    if rest.len() == 0 {
        assert(rest == Seq::<Field>::empty());
        assert(encoded(fields) =~= fields[0].bytes());
    } else {
        lemma_few_tail(rest);
        assert(rest[0] == fields[1]);
        if rest.len() == 2 {
            assert(rest[1] == fields[2]);
            assert(encoded(fields) =~= fields[0].bytes() + fields[1].bytes() + fields[2].bytes());
        }
    }
}

proof fn lemma_sched_bytes(sched: SchedState)
    ensures
        encoded(sched_fields(sched)) == sched_bytes(sched),
{
    let fields = sched_fields(sched);
    lemma_few_fields(fields);
    if fields.len() == 3 {
        assert(encoded(fields) =~= sched_bytes(sched));
    }
    if sched == SchedState::InRecv(None) {
        assert(encoded(fields) =~= sched_bytes(sched));
    }
}

proof fn lemma_fault_bytes(fault: FaultInfo)
    ensures
        encoded(fault_fields(fault)) == fault_bytes(fault),
{
    let fields = fault_fields(fault);
    lemma_few_fields(fields);
    match fault {
        FaultInfo::MemoryAccess { address, source } => {
            lemma_address(fields, 0, address, source_index(source));
        },
        FaultInfo::BusError { address, source } => {
            lemma_address(fields, 2, address, source_index(source));
        },
        FaultInfo::SyscallUsage(error) => {
            assert(encoded(fields) =~= seq![7u8, usage_index(error)]);
        },
        _ => {},
    }
}

proof fn lemma_address(fields: Seq<Field>, tag: u8, address: Option<u32>, source: u8)
    requires
        fields == seq![Field::U8(tag)] + address_fields(address) + seq![Field::U8(source)],
    ensures
        encoded(fields) == seq![tag] + address_bytes(address) + seq![source],
{
    lemma_few_fields(fields);
    match address {
        None => {
            assert(fields =~= seq![Field::U8(tag), Field::U8(0), Field::U8(source)]);
        },
        Some(a) => {
            assert(fields =~= seq![
                Field::U8(tag),
                Field::U8(1),
                Field::U32(a),
                Field::U8(source),
            ]);
            assert(encoded(fields) =~= seq![tag] + address_bytes(address) + seq![source]);
        },
    }
}

/// What the answers of the kernel look like, byte for byte.
pub proof fn law_answers_as_bytes(number: u32, region: Option<TaskDumpRegion>, state: TaskState)
    ensures
        encoded(number.fields()) == word_bytes(number),
        encoded(region.fields()) == region_bytes(region),
        encoded(state.fields()) == status_bytes(state),
{
    lemma_few_fields(number.fields());
    lemma_few_fields(region.fields());
    match state {
        TaskState::Healthy(sched) => {
            let tag = seq![Field::U8(0)];
            lemma_few_fields(tag);
            lemma_sched_bytes(sched);
            lemma_encoded_add(tag, sched_fields(sched));
            assert(state.fields() == tag + sched_fields(sched));
        },
        TaskState::Faulted { fault, original_state } => {
            let tag = seq![Field::U8(1)];
            lemma_few_fields(tag);
            lemma_fault_bytes(fault);
            lemma_sched_bytes(original_state);
            lemma_encoded_add(tag, fault_fields(fault));
            lemma_encoded_add(tag + fault_fields(fault), sched_fields(original_state));
            assert(state.fields() == tag + fault_fields(fault) + sched_fields(original_state));
        },
    }
}

/// The bytes that tell apart what a fault record can hold are these.
pub proof fn law_indices_of_alternatives()
    ensures
        source_index(FaultSource::User) == 0,
        source_index(FaultSource::Kernel) == 1,
        usage_index(UsageError::BadSyscallNumber) == 0,
        usage_index(UsageError::InvalidSlice) == 1,
        usage_index(UsageError::TaskOutOfRange) == 2,
        usage_index(UsageError::IllegalTask) == 3,
        usage_index(UsageError::LeaseOutOfRange) == 4,
        usage_index(UsageError::OffsetOutOfRange) == 5,
        usage_index(UsageError::NoIrq) == 6,
        usage_index(UsageError::BadKernelMessage) == 7,
        usage_index(UsageError::BadReplyFaultReason) == 8,
        usage_index(UsageError::NotSupervisor) == 9,
        usage_index(UsageError::ReplyTooBig) == 10,
        reason_index(ReplyFaultReason::UndefinedOperation) == 0,
        reason_index(ReplyFaultReason::BadMessageSize) == 1,
        reason_index(ReplyFaultReason::BadMessageContents) == 2,
        reason_index(ReplyFaultReason::BadLeases) == 3,
        reason_index(ReplyFaultReason::ReplyBufferTooSmall) == 4,
        reason_index(ReplyFaultReason::AccessViolation) == 5,
{
}

} // verus!
