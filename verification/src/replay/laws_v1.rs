//! What holds of the version-1 input stream: which events it can hold,
//! and that reading undoes writing.
use vstd::prelude::*;
use crate::error::TcmErrorView;
use crate::input::{Input, InputCommand};
use crate::replay::laws_v2::lemma_take_skip_concat;
use crate::replay::stream_v1::{
    lemma_decode_entries_end, lemma_decode_entries_step, lemma_encode_entries_end,
    lemma_encode_entries_step, spec_decode_entries, spec_decode_entry, spec_decode_inputs_v1,
    spec_encode_entries, spec_encode_entry, spec_encode_inputs_v1, spec_low32,
    spec_unsupported_input,
};
use crate::replay::v1::{
    lemma_input_round_trip, spec_representable, spec_serialize_input, EOM,
};
use crate::replay::varint::{lemma_var_u32_len, lemma_var_u32_round_trip, spec_var_u32};

verus! {

/// Version 1 has no control byte for the event: it is a rate change or a
/// marker.
pub open spec fn spec_unsupported(input: Input) -> bool {
    input is Tps || input is Bugpoint
}

/// No event from the one at `i` on is a rate change or a marker.
pub open spec fn spec_all_supported_from(inputs: Seq<InputCommand>, i: int) -> bool {
    forall|k: int| i <= k < inputs.len() ==> !spec_unsupported((#[trigger] inputs[k]).input)
}

/// Writing events in version 1 fails exactly where one of them is a rate
/// change or a marker, and then with the error for an unsupported input
/// type.
pub proof fn lemma_encode_entries_fails(inputs: Seq<InputCommand>, i: int)
    requires
        0 <= i <= inputs.len(),
    ensures
        spec_encode_entries(inputs, i) is Ok <==> spec_all_supported_from(inputs, i),
        spec_encode_entries(inputs, i) is Err ==> spec_encode_entries(inputs, i) == Err::<
            Seq<u8>,
            TcmErrorView,
        >(spec_unsupported_input()),
    decreases inputs.len() - i,
{
    if i >= inputs.len() {
        lemma_encode_entries_end(inputs, i);
    } else {
        lemma_encode_entries_step(inputs, i);
        lemma_encode_entries_fails(inputs, i + 1);
        if spec_all_supported_from(inputs, i) {
            assert(!spec_unsupported(inputs[i].input));
            assert(spec_all_supported_from(inputs, i + 1));
        } else if !spec_unsupported(inputs[i].input) {
            assert(!spec_all_supported_from(inputs, i + 1));
        }
    }
}

/// A version-1 input stream can be written for the events exactly where
/// none of them is a rate change or a marker; where one is, writing fails
/// with the error for an unsupported input type.
pub proof fn lemma_encode_inputs_v1_fails(inputs: Seq<InputCommand>)
    ensures
        spec_encode_inputs_v1(inputs) is Ok <==> spec_all_supported_from(inputs, 0),
        spec_encode_inputs_v1(inputs) is Err ==> spec_encode_inputs_v1(inputs) == Err::<
            Seq<u8>,
            TcmErrorView,
        >(spec_unsupported_input()),
{
    lemma_encode_entries_fails(inputs, 0);
}

/// The events can be written in version 1 so that reading gives them
/// back: their number and their frames fit in 32 bits, each is a button
/// event or a restart, and no restart has a seed.
pub open spec fn spec_valid_inputs_v1(inputs: Seq<InputCommand>) -> bool {
    &&& inputs.len() <= 0xFFFF_FFFF
    &&& forall|k: int|
        0 <= k < inputs.len() ==> (#[trigger] inputs[k]).frame <= 0xFFFF_FFFF && spec_representable(
            inputs[k].input,
        )
}

/// One event is read as it was written, whatever follows it.
pub proof fn lemma_entry_round_trip(command: InputCommand, rest: Seq<u8>)
    requires
        command.frame <= 0xFFFF_FFFF,
        spec_representable(command.input),
    ensures
        spec_encode_entry(command) is Ok,
        spec_decode_entry(spec_encode_entry(command)->Ok_0 + rest) == Ok::<
            (InputCommand, nat),
            TcmErrorView,
        >((command, spec_encode_entry(command)->Ok_0.len())),
{
    lemma_input_round_trip(command.input);
    let frame = spec_low32(command.frame as int);
    let byte = spec_serialize_input(command.input).unwrap();
    let head = spec_var_u32(frame);
    let bytes = head + seq![byte];
    lemma_var_u32_len(frame);
    lemma_var_u32_round_trip(frame, seq![byte] + rest);
    assert(bytes + rest =~= head + (seq![byte] + rest));
    assert((bytes + rest)[head.len() as int] == byte);
}

/// The events from the one at `i` on are read as they were written,
/// whatever follows them.
pub proof fn lemma_entries_round_trip(inputs: Seq<InputCommand>, i: int, rest: Seq<u8>)
    requires
        0 <= i <= inputs.len(),
        spec_valid_inputs_v1(inputs),
    ensures
        spec_encode_entries(inputs, i) is Ok,
        spec_decode_entries(
            spec_encode_entries(inputs, i)->Ok_0 + rest,
            (inputs.len() - i) as nat,
        ) == Ok::<(Seq<InputCommand>, nat), TcmErrorView>(
            (inputs.skip(i), spec_encode_entries(inputs, i)->Ok_0.len()),
        ),
    decreases inputs.len() - i,
{
    if i >= inputs.len() {
        lemma_encode_entries_end(inputs, i);
        lemma_decode_entries_end(Seq::<u8>::empty() + rest);
        assert(inputs.skip(i) =~= Seq::<InputCommand>::empty());
    } else {
        lemma_encode_entries_step(inputs, i);
        lemma_entries_round_trip(inputs, i + 1, rest);
        let piece = spec_encode_entry(inputs[i])->Ok_0;
        let tail = spec_encode_entries(inputs, i + 1)->Ok_0;
        lemma_entry_round_trip(inputs[i], tail + rest);
        assert((piece + tail) + rest =~= piece + (tail + rest));
        lemma_take_skip_concat(piece, tail + rest);
        lemma_decode_entries_step((piece + tail) + rest, (inputs.len() - i) as nat);
        assert(seq![inputs[i]] + inputs.skip(i + 1) =~= inputs.skip(i));
    }
}

/// Reading a version-1 input stream that was written for valid events
/// gives the events back, field for field, and stops before the
/// terminator; so it does for no events.
pub proof fn lemma_inputs_v1_round_trip(inputs: Seq<InputCommand>)
    requires
        spec_valid_inputs_v1(inputs),
    ensures
        spec_encode_inputs_v1(inputs) is Ok,
        spec_decode_inputs_v1(spec_encode_inputs_v1(inputs)->Ok_0) == Ok::<
            (Seq<InputCommand>, nat),
            TcmErrorView,
        >((inputs, (spec_encode_inputs_v1(inputs)->Ok_0.len() - 1) as nat)),
{
    let count = spec_low32(inputs.len() as int);
    let head = spec_var_u32(count);
    lemma_entries_round_trip(inputs, 0, seq![EOM]);
    let entries = spec_encode_entries(inputs, 0)->Ok_0;
    let bytes = head + entries + seq![EOM];
    assert(bytes =~= head + (entries + seq![EOM]));
    lemma_var_u32_round_trip(count, entries + seq![EOM]);
    lemma_take_skip_concat(head, entries + seq![EOM]);
    assert(inputs.skip(0) =~= inputs);
}

} // verus!
