//! What holds of requests and responses as bytes.

use vstd::prelude::*;

use crate::abi::{SchedState, TaskDumpRegion, TaskState, UserError};
use crate::kipc::{filled, received, reported_length};
use crate::marshal::{
    encoded, le, lemma_encoded_first, lemma_encoded_len_add, lemma_encoded_len_upto_4,
    lemma_field_span, lemma_longest_fit, longest_fit, Field,
};
use crate::wire::{fault_fields, sched_fields, Request, Response, Wire};

verus! {

/// What stands for a value on the wire stands for no other of its type, whatever
/// follows it.
pub proof fn law_unambiguous<T: Wire>(a: T, b: T, rest: Seq<u8>)
    requires
        encoded(a.fields()).is_prefix_of(encoded(b.fields()) + rest),
    ensures
        a == b,
{
    T::unambiguous(a, b, rest);
}

/// What follows a request in a message is ignored: a message that can be read is
/// read as the same request, whatever is put behind it.
pub proof fn law_tail_is_ignored<T: Request>(message: Seq<u8>, rest: Seq<u8>)
    requires
        received::<T>(Ok(message)) is Ok,
    ensures
        received::<T>(Ok(message + rest)) == received::<T>(Ok(message)),
        T::decode(message + rest) == T::decode(message),
{
    let value = T::decode(message)->Some_0;
    let form = encoded(value.fields());
    T::decodes_what_is_there(message, value);
    assert forall|i: int| 0 <= i < form.len() implies form[i] == (message + rest)[i] by {
        assert(message.subrange(0, form.len() as int)[i] == message[i]);
    }
    assert(form =~= (message + rest).subrange(0, form.len() as int));
    T::decodes_what_is_there(message + rest, value);
}

/// A request reads back as what was written, whatever follows it.
pub proof fn law_request_reads_back<T: Request>(value: T, rest: Seq<u8>)
    ensures
        T::decode(encoded(value.fields()) + rest) == Some(value),
        received::<T>(Ok(encoded(value.fields()) + rest)) == Ok::<T, UserError>(value),
{
    let form = encoded(value.fields());
    assert(form =~= (form + rest).subrange(0, form.len() as int));
    T::decodes_what_is_there(form + rest, value);
}

/// A message that is read as a request begins with what stands for the request,
/// and one that begins so is read as it.
pub proof fn law_request_is_what_is_there<T: Request>(message: Seq<u8>, value: T)
    ensures
        received::<T>(Ok(message)) == Ok::<T, UserError>(value) <==> encoded(
            value.fields(),
        ).is_prefix_of(message),
{
    T::decodes_what_is_there(message, value);
}

/// A value that can be both sent and answered reads back out of the response
/// buffer that it was written to, if it fits.
pub proof fn law_response_reads_back<T: Request + Response>(value: T, buffer: Seq<u8>)
    requires
        encoded(value.fields()).len() <= buffer.len(),
    ensures
        received::<T>(Ok(filled(value, buffer))) == Ok::<T, UserError>(value),
{
    law_answer_stays_in_buffer(value, buffer);
    law_request_reads_back(value, buffer.skip(encoded(value.fields()).len() as int));
}

/// An answer that fits into its buffer is the only one of its type that the buffer
/// begins with then: who knows the type knows the value.
pub proof fn law_response_tells_value<T: Response>(value: T, buffer: Seq<u8>, other: T)
    requires
        encoded(value.fields()).len() <= buffer.len(),
    ensures
        encoded(other.fields()).is_prefix_of(filled(value, buffer)) <==> other == value,
{
    let form = encoded(value.fields());
    let shown = filled(value, buffer);
    let rest = buffer.skip(form.len() as int);
    law_answer_stays_in_buffer(value, buffer);
    assert(form =~= shown.subrange(0, form.len() as int));
    if encoded(other.fields()).is_prefix_of(shown) {
        T::unambiguous(other, value, rest);
    }
}

/// The region that the kernel names in answer to a question for one reads back as
/// that region: the byte 1, its base, and its size.
pub proof fn law_dump_region_reads_back(region: TaskDumpRegion, rest: Seq<u8>)
    ensures
        ({
            let bytes = encoded(Some(region).fields()) + rest;
            &&& bytes[0] == 1
            &&& <(u32, u32)>::decode(bytes.skip(1)) == Some((region.base, region.size))
        }),
        encoded(None::<TaskDumpRegion>.fields()) == seq![0u8],
{
    let fields = Some(region).fields();
    let bytes = encoded(fields) + rest;
    let numbers = (region.base, region.size);
    lemma_encoded_first(fields);
    lemma_field_span(Field::U8(1));
    reveal_with_fuel(le, 2);
    assert(fields.drop_first() == numbers.fields());
    assert(bytes.skip(1) == encoded(numbers.fields()) + rest);
    law_request_reads_back(numbers, rest);
    reveal_with_fuel(encoded, 2);
    let none = None::<TaskDumpRegion>.fields();
    assert(encoded(none) == Field::U8(0).bytes());
    assert(Field::U8(0).bytes() == seq![0u8]);
}

/// No answer is longer than this: four bytes for a number, eight for the identity
/// of the image, nine for a region, twelve for a status.
pub proof fn law_answer_widths(
    number: u32,
    image_id: u64,
    region: Option<TaskDumpRegion>,
    state: TaskState,
)
    ensures
        encoded(number.fields()).len() == 4,
        encoded(image_id.fields()).len() == 8,
        encoded(region.fields()).len() <= 9,
        encoded(state.fields()).len() <= 12,
{
    lemma_encoded_len_upto_4(number.fields());
    lemma_encoded_len_upto_4(image_id.fields());
    lemma_encoded_len_upto_4(region.fields());
    let sched = state.sched();
    lemma_encoded_len_upto_4(sched_fields(sched));
    assert(encoded(sched_fields(sched)).len() <= 4);
    let tag = seq![state.fields()[0]];
    lemma_encoded_len_upto_4(tag);
    match state {
        TaskState::Healthy(_) => {
            lemma_encoded_len_add(tag, sched_fields(sched));
        },
        TaskState::Faulted { fault, .. } => {
            lemma_encoded_len_upto_4(fault_fields(fault));
            assert(encoded(fault_fields(fault)).len() <= 7);
            lemma_encoded_len_add(tag, fault_fields(fault));
            lemma_encoded_len_add(tag + fault_fields(fault), sched_fields(sched));
        },
    }
}

/// An answer never runs over its buffer. One that fits is there as a whole, and
/// what is behind it is as it was; of one that does not fit, a part is there that
/// begins as the answer does.
pub proof fn law_answer_stays_in_buffer<T: Response>(value: T, buffer: Seq<u8>)
    ensures
        filled(value, buffer).len() == buffer.len(),
        encoded(value.fields()).len() <= buffer.len() ==> filled(value, buffer) == encoded(
            value.fields(),
        ) + buffer.skip(encoded(value.fields()).len() as int),
        encoded(value.fields()).len() > buffer.len() ==> exists|n: int|
            0 <= n <= buffer.len() && #[trigger] (encoded(value.fields()).take(n) + buffer.skip(n))
                == filled(value, buffer),
{
    let whole = encoded(value.fields());
    let written = encoded(longest_fit(value.fields(), buffer.len()));
    lemma_longest_fit(value.fields(), buffer.len());
    if whole.len() <= buffer.len() {
        assert(filled(value, buffer) =~= whole + buffer.skip(whole.len() as int));
    } else {
        let n = written.len() as int;
        assert(written =~= whole.take(n));
        assert(whole.take(n) + buffer.skip(n) =~= filled(value, buffer));
    }
}

/// A caller that was told a length and comes back with a buffer of as many bytes
/// gets the whole answer, which is no longer than it was told. This is said of
/// values that are no longer on the wire than in memory.
pub proof fn law_reported_length_would_do<T: Response>(value: T, room: nat, buffer: Seq<u8>)
    requires
        encoded(value.fields()).len() <= vstd::layout::size_of::<T>(),
        reported_length(value, room) <= buffer.len(),
    ensures
        reported_length(value, buffer.len()) == encoded(value.fields()).len(),
        reported_length(value, buffer.len()) <= reported_length(value, room),
        encoded(value.fields()).is_prefix_of(filled(value, buffer)),
{
    law_response_tells_value(value, buffer, value);
}

/// `law_reported_length_would_do` for every number and every image identity: both
/// are as long in memory as on the wire.
pub proof fn law_reported_length_would_do_for_numbers(
    number: u32,
    image_id: u64,
    room: nat,
    buffer: Seq<u8>,
)
    ensures
        reported_length(number, room) == 4,
        buffer.len() >= 4 ==> reported_length(number, buffer.len()) == 4 && encoded(
            number.fields(),
        ).is_prefix_of(filled(number, buffer)),
        reported_length(image_id, room) == 8,
        buffer.len() >= 8 ==> reported_length(image_id, buffer.len()) == 8 && encoded(
            image_id.fields(),
        ).is_prefix_of(filled(image_id, buffer)),
{
    broadcast use vstd::layout::layout_of_primitives;

    law_answer_widths(number, image_id, None, TaskState::Healthy(SchedState::Stopped));
    if buffer.len() >= 4 {
        law_reported_length_would_do(number, room, buffer);
    }
    if buffer.len() >= 8 {
        law_reported_length_would_do(image_id, room, buffer);
    }
}

/// `law_reported_length_would_do` for regions and for states, where a region takes
/// nine bytes of memory, and a state twelve.
pub proof fn law_reported_length_would_do_for_records(
    region: Option<TaskDumpRegion>,
    state: TaskState,
    room: nat,
    buffer: Seq<u8>,
)
    requires
        vstd::layout::size_of::<Option<TaskDumpRegion>>() >= 9,
        vstd::layout::size_of::<TaskState>() >= 12,
    ensures
        reported_length(region, room) <= buffer.len() ==> reported_length(region, buffer.len())
            <= reported_length(region, room) && encoded(region.fields()).is_prefix_of(
            filled(region, buffer),
        ),
        reported_length(state, room) <= buffer.len() ==> reported_length(state, buffer.len())
            <= reported_length(state, room) && encoded(state.fields()).is_prefix_of(
            filled(state, buffer),
        ),
{
    law_answer_widths(0, 0, region, state);
    if reported_length(region, room) <= buffer.len() {
        law_reported_length_would_do(region, room, buffer);
    }
    if reported_length(state, room) <= buffer.len() {
        law_reported_length_would_do(state, room, buffer);
    }
}

} // verus!
