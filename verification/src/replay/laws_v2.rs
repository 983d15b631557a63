//! What holds of the version-2 input stream: that reading undoes writing,
//! and how swift pairs, repeated gaps and restarts are written.
use vstd::prelude::*;
use crate::error::TcmErrorView;
use crate::input::{Input, InputCommand};
use crate::replay::reader::{lemma_le_bytes_len, lemma_le_round_trip, lemma_pow256_values};
use crate::replay::stream_v2::{
    lemma_decode_actions_end, lemma_decode_actions_step, lemma_encode_actions_end,
    lemma_encode_actions_step, spec_action_byte, spec_action_events, spec_action_step,
    spec_button_events, spec_decode_actions, spec_decode_inputs_v2, spec_delta_info,
    spec_delta_step, spec_encode_actions, spec_encode_inputs_v2, spec_follow_up, spec_gap,
    spec_is_swift_pair, spec_next_action, spec_remembered, spec_swift_at,
};
use crate::replay::v2::{
    spec_bit, spec_delta_bits, spec_parse_action, spec_serialize_input, Action, ByteBlob,
    DeserializerDeltaInfo, SerializerDeltaInfo,
};
use crate::replay::varint::{lemma_var_u32_round_trip, spec_var_u32};
use crate::Frame;

verus! {

/// What the control byte of `input` announces.
pub open spec fn spec_action_of(input: Input, swift: bool) -> Action {
    match input {
        Input::Vanilla(v) => Action::Button { input: v, swift },
        Input::Restart(r) => Action::Restart {
            restart_type: r.restart_type,
            seeded: r.new_seed is Some,
        },
        Input::Tps(_) => Action::Tps,
        Input::Bugpoint(_) => Action::Bugpoint,
    }
}

/// How a gap written as `info` after `last_delta` is read.
pub open spec fn spec_reader_of(info: SerializerDeltaInfo, last_delta: Frame) -> DeserializerDeltaInfo {
    DeserializerDeltaInfo {
        blob: info.blob,
        last_delta: if info.magic is Some {
            Some(last_delta)
        } else {
            None
        },
    }
}

proof fn lemma_split_control(low: u8, high: u8, byte: u8)
    by (bit_vector)
    requires
        low < 32,
        high < 8,
        byte == low + 32 * high,
    ensures
        byte / 32 == high,
        byte % 4 == low % 4,
        (byte / 4) % 2 == (low / 4) % 2,
        (byte / 8) % 2 == (low / 8) % 2,
        (byte / 16) % 2 == (low / 16) % 2,
        (byte / 4) % 4 == (low / 4) % 4,
{
}

proof fn lemma_split_event(code: u8, b2: u8, b3: u8, b4: u8, low: u8)
    by (bit_vector)
    requires
        code < 4,
        b2 <= 1,
        b3 <= 1,
        b4 <= 1,
        low == code + 4 * b2 + 8 * b3 + 16 * b4,
    ensures
        low < 32,
        low % 4 == code,
        (low / 4) % 2 == b2,
        (low / 8) % 2 == b3,
        (low / 16) % 2 == b4,
        (low / 4) % 4 == b2 + 2 * b3,
{
}

proof fn lemma_split_delta(flag: u8, code: u8, bits: u8)
    by (bit_vector)
    requires
        flag <= 1,
        code <= 3,
        bits == flag + 2 * code,
    ensures
        bits < 8,
        bits % 2 == flag,
        (bits / 2) % 4 == code,
{
}

/// A control byte is read as it was written: the event in its low five
/// bits, the delta control in its high three.
pub proof fn lemma_action_byte_parse(
    input: Input,
    swift: bool,
    info: SerializerDeltaInfo,
    last_delta: Frame,
)
    requires
        swift ==> input is Vanilla,
    ensures
        spec_parse_action(spec_action_byte(input, swift, info)) == spec_action_of(input, swift),
        DeserializerDeltaInfo::spec_new(
            spec_delta_bits(spec_action_byte(input, swift, info)),
            last_delta,
        ) == spec_reader_of(info, last_delta),
{
    let low = spec_serialize_input(input, swift);
    let high = info.spec_craft();
    let byte = spec_action_byte(input, swift, info);
    lemma_split_delta(spec_bit(info.spec_magic()) as u8, info.blob.spec_selector(), high);
    match input {
        Input::Vanilla(v) => {
            lemma_split_event(
                v.button.spec_code(),
                spec_bit(v.push) as u8,
                spec_bit(v.player2) as u8,
                spec_bit(swift) as u8,
                low,
            );
        },
        Input::Restart(r) => {
            lemma_split_event(
                0,
                (r.restart_type.spec_code() % 2) as u8,
                (r.restart_type.spec_code() / 2) as u8,
                spec_bit(r.new_seed is Some) as u8,
                low,
            );
        },
        Input::Tps(_) => {
            lemma_split_event(0, 1, 1, 0, low);
        },
        Input::Bugpoint(_) => {
            lemma_split_event(0, 1, 1, 1, low);
        },
    }
    lemma_split_control(low, high, byte);
}

/// The bytes `piece` followed by `rest` start with `piece`, and `rest` is
/// what follows.
pub proof fn lemma_take_skip_concat(piece: Seq<u8>, rest: Seq<u8>)
    ensures
        (piece + rest).take(piece.len() as int) == piece,
        (piece + rest).skip(piece.len() as int) == rest,
{
    assert((piece + rest).take(piece.len() as int) =~= piece);
    assert((piece + rest).skip(piece.len() as int) =~= rest);
}

/// A gap is read as it was written: the reader gets the gap itself, takes
/// the bytes that were written for it, and remembers what the writer
/// remembers.
pub proof fn lemma_delta_round_trip(
    info: SerializerDeltaInfo,
    last_delta: Frame,
    base: Frame,
    rest: Seq<u8>,
)
    requires
        info.wf(),
        info.magic is Some ==> info.magic == Some(last_delta),
        base + info.delta <= u64::MAX,
    ensures
        spec_delta_step(spec_reader_of(info, last_delta), info.spec_bytes() + rest, base, last_delta)
            == Ok::<(Frame, Frame, nat), TcmErrorView>(
            (
                (base + info.delta) as Frame,
                spec_remembered(info, last_delta),
                info.spec_bytes().len(),
            ),
        ),
        info.spec_bytes().len() == info.blob.spec_width(),
{
    let reader = spec_reader_of(info, last_delta);
    let width = info.blob.spec_width();
    let stored = info.spec_stored();
    let bytes = info.spec_bytes();
    lemma_le_bytes_len(stored as nat, width);
    lemma_pow256_values();
    lemma_le_round_trip(stored as nat, width);
    lemma_take_skip_concat(bytes, rest);
}

/// The payload of an action is read as it was written.
pub proof fn lemma_payload_round_trip(input: Input, swift: bool, frame: Frame, rest: Seq<u8>)
    requires
        swift ==> input is Vanilla,
    ensures
        spec_action_events(spec_action_of(input, swift), spec_follow_up(input) + rest, frame)
            == Ok::<(Seq<InputCommand>, Frame, nat), TcmErrorView>(
            (
                spec_events_of(input, swift, frame),
                (InputCommand { frame, input }).spec_adjusted_frame(),
                spec_follow_up(input).len(),
            ),
        ),
{
    let payload = spec_follow_up(input);
    lemma_pow256_values();
    lemma_take_skip_concat(payload, rest);
    match input {
        Input::Tps(t) => {
            lemma_le_bytes_len(t.tps as nat, 4);
            lemma_le_round_trip(t.tps as nat, 4);
        },
        Input::Restart(r) => {
            match r.new_seed {
                Some(seed) => {
                    lemma_le_bytes_len(seed as nat, 8);
                    lemma_le_round_trip(seed as nat, 8);
                },
                None => {},
            }
        },
        _ => {},
    }
}

/// The events that one action stands for: the event itself and, for a
/// swift action, its twin.
pub open spec fn spec_events_of(input: Input, swift: bool, frame: Frame) -> Seq<InputCommand> {
    match input {
        Input::Vanilla(v) => spec_button_events(frame, v, swift),
        _ => seq![InputCommand { frame, input }],
    }
}

/// Within a segment the frames do not go back: each event lies on or
/// after the frame that the event before it leaves, which is zero after a
/// restart.
pub open spec fn spec_frames_ordered(inputs: Seq<InputCommand>) -> bool {
    forall|k: int|
        0 < k < inputs.len() ==> inputs[k - 1].spec_adjusted_frame() <= (#[trigger] inputs[k]).frame
}

/// The bytes of the action at `i`, written as `info` says.
pub open spec fn spec_action_bytes(inputs: Seq<InputCommand>, i: int, info: SerializerDeltaInfo) -> Seq<
    u8,
> {
    seq![spec_action_byte(inputs[i].input, spec_swift_at(inputs, i), info)] + spec_follow_up(
        inputs[i].input,
    ) + info.spec_bytes()
}

/// The running frame after the action at `i`: the frame of the next
/// action, or where there is none the frame that the action leaves.
pub open spec fn spec_frame_after(inputs: Seq<InputCommand>, i: int) -> Frame {
    if spec_next_action(inputs, i) < inputs.len() {
        inputs[spec_next_action(inputs, i)].frame
    } else {
        inputs[i].spec_adjusted_frame()
    }
}

/// The action at `i` leaves a frame that the next action does not lie
/// before, and its gap is the distance between the two.
pub proof fn lemma_gap_reaches_next(inputs: Seq<InputCommand>, i: int)
    requires
        0 <= i,
        spec_next_action(inputs, i) < inputs.len(),
        spec_frames_ordered(inputs),
    ensures
        inputs[i].spec_adjusted_frame() + spec_gap(inputs, i) == inputs[spec_next_action(
            inputs,
            i,
        )].frame,
{
    if spec_swift_at(inputs, i) {
        assert(inputs[i + 1].spec_adjusted_frame() <= inputs[i + 2].frame);
    } else {
        assert(inputs[i].spec_adjusted_frame() <= inputs[i + 1].frame);
    }
}

/// How the gap after the action at `i` is written is well formed, holds
/// the remembered gap where it is relative, and reaches the frame after
/// the action.
pub proof fn lemma_delta_info_fits(inputs: Seq<InputCommand>, i: int, last_delta: Frame)
    requires
        0 <= i < inputs.len(),
        spec_frames_ordered(inputs),
        spec_delta_info(inputs, i, last_delta) is Some,
    ensures
        ({
            let info = spec_delta_info(inputs, i, last_delta).unwrap();
            &&& info.wf()
            &&& info.magic is Some ==> info.magic == Some(last_delta)
            &&& inputs[i].spec_adjusted_frame() + info.delta == spec_frame_after(inputs, i)
        }),
{
    if spec_next_action(inputs, i) < inputs.len() {
        SerializerDeltaInfo::lemma_choose_some(spec_gap(inputs, i), last_delta);
        lemma_gap_reaches_next(inputs, i);
    }
}

/// The events of the action at `i` are the events from `i` up to the
/// next action.
pub proof fn lemma_events_of_action(inputs: Seq<InputCommand>, i: int)
    requires
        0 <= i < inputs.len(),
    ensures
        spec_events_of(inputs[i].input, spec_swift_at(inputs, i), inputs[i].frame)
            == inputs.subrange(i, spec_next_action(inputs, i)),
        spec_swift_at(inputs, i) ==> inputs[i].input is Vanilla,
{
    assert(spec_events_of(inputs[i].input, spec_swift_at(inputs, i), inputs[i].frame)
        =~= inputs.subrange(i, spec_next_action(inputs, i)));
}

/// One action is read as it was written: its events, the frame of the
/// next action and the remembered gap come back, and the bytes that were
/// written for it are taken.
pub proof fn lemma_action_round_trip(
    inputs: Seq<InputCommand>,
    i: int,
    last_delta: Frame,
    rest: Seq<u8>,
)
    requires
        0 <= i < inputs.len(),
        spec_frames_ordered(inputs),
        spec_delta_info(inputs, i, last_delta) is Some,
    ensures
        ({
            let info = spec_delta_info(inputs, i, last_delta).unwrap();
            let piece = spec_action_bytes(inputs, i, info);
            spec_action_step(piece + rest, inputs[i].frame, last_delta) == Ok::<
                (Seq<InputCommand>, Frame, Frame, nat),
                TcmErrorView,
            >(
                (
                    inputs.subrange(i, spec_next_action(inputs, i)),
                    spec_frame_after(inputs, i),
                    spec_remembered(info, last_delta),
                    piece.len(),
                ),
            )
        }),
{
    let info = spec_delta_info(inputs, i, last_delta).unwrap();
    let input = inputs[i].input;
    let frame = inputs[i].frame;
    let swift = spec_swift_at(inputs, i);
    let byte = spec_action_byte(input, swift, info);
    let payload = spec_follow_up(input);
    let piece = spec_action_bytes(inputs, i, info);
    let s = piece + rest;
    let base = inputs[i].spec_adjusted_frame();
    let after_byte = payload + (info.spec_bytes() + rest);
    let after_payload = info.spec_bytes() + rest;
    lemma_events_of_action(inputs, i);
    lemma_delta_info_fits(inputs, i, last_delta);
    lemma_action_byte_parse(input, swift, info, last_delta);
    lemma_payload_round_trip(input, swift, frame, after_payload);
    lemma_delta_round_trip(info, last_delta, base, rest);
    assert(s[0] == byte);
    assert(s.skip(1) == after_byte) by {
        assert(s.skip(1) =~= after_byte);
    }
    assert(s.skip(1 + payload.len() as int) == after_payload) by {
        assert(s.skip(1 + payload.len() as int) =~= after_payload);
    }
    assert(piece.len() == 1 + payload.len() + info.spec_bytes().len());
    lemma_action_step_of_parts(
        s,
        frame,
        last_delta,
        inputs.subrange(i, spec_next_action(inputs, i)),
        base,
        payload.len(),
        spec_frame_after(inputs, i),
        spec_remembered(info, last_delta),
        info.spec_bytes().len(),
    );
}

/// An action is made of what its control byte and payload hold and of
/// the gap that follows them.
pub proof fn lemma_action_step_of_parts(
    s: Seq<u8>,
    frame: Frame,
    last_delta: Frame,
    events: Seq<InputCommand>,
    base: Frame,
    m: nat,
    next: Frame,
    remembered: Frame,
    n: nat,
)
    requires
        s.len() > 0,
        spec_action_events(spec_parse_action(s[0]), s.skip(1), frame) == Ok::<
            (Seq<InputCommand>, Frame, nat),
            TcmErrorView,
        >((events, base, m)),
        spec_delta_step(
            DeserializerDeltaInfo::spec_new(spec_delta_bits(s[0]), last_delta),
            s.skip(1 + m as int),
            base,
            last_delta,
        ) == Ok::<(Frame, Frame, nat), TcmErrorView>((next, remembered, n)),
    ensures
        spec_action_step(s, frame, last_delta) == Ok::<
            (Seq<InputCommand>, Frame, Frame, nat),
            TcmErrorView,
        >((events, next, remembered, 1 + m + n)),
{
}

/// Reading the actions that were written for the events from `i` on gives
/// those events back.
pub proof fn lemma_actions_round_trip(
    inputs: Seq<InputCommand>,
    i: int,
    frame: Frame,
    last_delta: Frame,
)
    requires
        0 <= i <= inputs.len(),
        i < inputs.len() ==> frame == inputs[i].frame,
        spec_frames_ordered(inputs),
        spec_encode_actions(inputs, i, last_delta) is Ok,
    ensures
        spec_decode_actions(spec_encode_actions(inputs, i, last_delta)->Ok_0, frame, last_delta)
            == Ok::<Seq<InputCommand>, TcmErrorView>(inputs.skip(i)),
    decreases inputs.len() - i,
{
    if i >= inputs.len() {
        lemma_encode_actions_end(inputs, i, last_delta);
        lemma_decode_actions_end(Seq::<u8>::empty(), frame, last_delta);
        assert(inputs.skip(i) =~= Seq::<InputCommand>::empty());
    } else {
        lemma_encode_actions_step(inputs, i, last_delta);
        let info = spec_delta_info(inputs, i, last_delta).unwrap();
        let j = spec_next_action(inputs, i);
        let remembered = spec_remembered(info, last_delta);
        let piece = spec_action_bytes(inputs, i, info);
        let rest = spec_encode_actions(inputs, j, remembered)->Ok_0;
        let bytes = piece + rest;
        lemma_action_round_trip(inputs, i, last_delta, rest);
        lemma_decode_actions_step(bytes, frame, last_delta);
        lemma_take_skip_concat(piece, rest);
        lemma_actions_round_trip(inputs, j, spec_frame_after(inputs, i), remembered);
        assert(inputs.subrange(i, j) + inputs.skip(j) =~= inputs.skip(i));
    }
}

/// The events can be written in version 2 so that reading gives them
/// back: the first frame fits in 32 bits, and within a segment the frames
/// do not go back.
pub open spec fn spec_valid_inputs_v2(inputs: Seq<InputCommand>) -> bool {
    &&& spec_frames_ordered(inputs)
    &&& inputs.len() > 0 ==> inputs[0].frame <= 0xFFFF_FFFF
}

/// Reading a version-2 input stream that was written for valid events
/// gives the events back, field for field; so it does for no events.
pub proof fn lemma_inputs_v2_round_trip(inputs: Seq<InputCommand>)
    requires
        spec_valid_inputs_v2(inputs),
        spec_encode_inputs_v2(inputs) is Ok,
    ensures
        spec_decode_inputs_v2(spec_encode_inputs_v2(inputs)->Ok_0) == Ok::<
            Seq<InputCommand>,
            TcmErrorView,
        >(inputs),
{
    if inputs.len() > 0 {
        let start = (inputs[0].frame % 0x1_0000_0000) as u32;
        let actions = spec_encode_actions(inputs, 0, 0)->Ok_0;
        let head = spec_var_u32(start);
        let bytes = head + actions;
        assert(spec_encode_inputs_v2(inputs) == Ok::<Seq<u8>, TcmErrorView>(bytes));
        lemma_var_u32_round_trip(start, actions);
        crate::replay::varint::lemma_var_u32_len(start);
        assert(bytes.len() > 0);
        lemma_take_skip_concat(head, actions);
        lemma_actions_round_trip(inputs, 0, inputs[0].frame, 0);
        assert(inputs.skip(0) =~= inputs);
        assert(start as Frame == inputs[0].frame);
    } else {
        assert(inputs =~= Seq::<InputCommand>::empty());
    }
}

/// Two button events on one frame, for one button and one player, that
/// differ in `push` alone are written as a single control byte with the
/// extra bit set, and that byte is read as exactly those two events, in
/// their order.
pub proof fn lemma_swift_pair(first: InputCommand, second: InputCommand, last_delta: Frame)
    requires
        spec_is_swift_pair(first, second),
    ensures
        ({
            let byte = spec_serialize_input(first.input, true);
            &&& spec_encode_actions(seq![first, second], 0, last_delta) == Ok::<
                Seq<u8>,
                TcmErrorView,
            >(seq![byte])
            &&& (byte / 16) % 2 == 1
            &&& spec_decode_actions(seq![byte], first.frame, last_delta) == Ok::<
                Seq<InputCommand>,
                TcmErrorView,
            >(seq![first, second])
        }),
{
    let inputs = seq![first, second];
    let info = SerializerDeltaInfo { blob: ByteBlob::Zero, magic: None, delta: 0 };
    let byte = spec_serialize_input(first.input, true);
    assert(spec_swift_at(inputs, 0));
    assert(spec_next_action(inputs, 0) == 2);
    assert(spec_delta_info(inputs, 0, last_delta) == Some(info));
    lemma_encode_actions_step(inputs, 0, last_delta);
    lemma_encode_actions_end(inputs, 2, last_delta);
    lemma_le_bytes_len(0, 0);
    assert(spec_follow_up(first.input) =~= Seq::<u8>::empty());
    assert(info.spec_bytes() =~= Seq::<u8>::empty());
    assert(spec_action_byte(first.input, true, info) == byte);
    assert(spec_action_bytes(inputs, 0, info) + Seq::<u8>::empty() =~= seq![byte]);
    assert(spec_encode_actions(inputs, 0, last_delta) == Ok::<Seq<u8>, TcmErrorView>(seq![byte]));
    lemma_action_byte_parse(first.input, true, info, last_delta);
    assert(spec_frames_ordered(inputs)) by {
        assert(inputs[0].spec_adjusted_frame() <= inputs[1].frame);
    }
    lemma_actions_round_trip(inputs, 0, first.frame, last_delta);
    assert(inputs.skip(0) =~= inputs);
}

/// A gap above 255 that repeats the gap before it is written with the
/// magic flag in no bytes at all, while every width that holds it
/// directly takes two bytes or more.
pub proof fn lemma_repeated_delta(delta: Frame)
    requires
        delta > 255,
    ensures
        SerializerDeltaInfo::spec_choose(delta, delta) == Some(
            SerializerDeltaInfo { blob: ByteBlob::Zero, magic: Some(delta), delta },
        ),
        forall|blob: ByteBlob|
            delta <= blob.spec_max() ==> #[trigger] blob.spec_width() >= 2
                && ByteBlob::Zero.spec_width() < blob.spec_width(),
{
}

/// Of three actions in a row, none of the first two a restart, whose
/// frames rise by the same gap above 255 each time, the second gap is
/// written relative to the first, in no bytes, where writing it directly
/// takes two bytes or more.
pub proof fn lemma_delta_law(inputs: Seq<InputCommand>, i: int, last_delta: Frame)
    requires
        0 <= i,
        spec_next_action(inputs, spec_next_action(inputs, i)) < inputs.len(),
        !(inputs[i].input is Restart),
        !(inputs[spec_next_action(inputs, i)].input is Restart),
        spec_delta_info(inputs, i, last_delta) is Some,
        ({
            let j = spec_next_action(inputs, i);
            let k = spec_next_action(inputs, j);
            &&& inputs[i].frame < inputs[j].frame < inputs[k].frame
            &&& inputs[j].frame - inputs[i].frame == inputs[k].frame - inputs[j].frame
            &&& inputs[j].frame - inputs[i].frame > 255
        }),
    ensures
        ({
            let j = spec_next_action(inputs, i);
            let gap = (inputs[j].frame - inputs[i].frame) as Frame;
            let first = spec_delta_info(inputs, i, last_delta).unwrap();
            let second = spec_delta_info(inputs, j, spec_remembered(first, last_delta));
            &&& first.delta == gap
            &&& second == Some(SerializerDeltaInfo { blob: ByteBlob::Zero, magic: Some(gap), delta: gap })
            &&& second.unwrap().spec_bytes().len() == 0
            &&& forall|blob: ByteBlob|
                gap <= blob.spec_max() ==> #[trigger] blob.spec_width() >= 2
        }),
{
    let j = spec_next_action(inputs, i);
    let gap = (inputs[j].frame - inputs[i].frame) as Frame;
    SerializerDeltaInfo::lemma_choose_some(spec_gap(inputs, i), last_delta);
    lemma_repeated_delta(gap);
    lemma_le_bytes_len(0, 0);
}

/// A restart puts the running frame back to zero.  Whatever frame the
/// restart itself lies on, its action takes the same bytes and leaves the
/// same remembered gap, and the running frame that it leaves is the gap
/// stored after it, counted from zero.  So the events after a restart
/// are the same for every frame that the restart may lie on.
pub proof fn lemma_restart_resets_frame(s: Seq<u8>, frame: Frame, other: Frame, last_delta: Frame)
    requires
        s.len() > 0,
        spec_parse_action(s[0]) is Restart,
    ensures
        match spec_action_step(s, frame, last_delta) {
            Ok((events, next, remembered, n)) => {
                &&& events.len() == 1
                &&& events[0].frame == frame
                &&& events[0].input is Restart
                &&& spec_action_step(s, other, last_delta) == Ok::<
                    (Seq<InputCommand>, Frame, Frame, nat),
                    TcmErrorView,
                >((seq![InputCommand { frame: other, input: events[0].input }], next, remembered, n))
                &&& spec_delta_step(
                    DeserializerDeltaInfo::spec_new(spec_delta_bits(s[0]), last_delta),
                    s.skip(1 + spec_seed_len(s[0])),
                    0,
                    last_delta,
                ) matches Ok((from_zero, _, _)) && next == from_zero
            },
            Err(e) => spec_action_step(s, other, last_delta) == Err::<
                (Seq<InputCommand>, Frame, Frame, nat),
                TcmErrorView,
            >(e),
        },
        match spec_decode_actions(s, frame, last_delta) {
            Ok(events) => {
                &&& events.len() >= 1
                &&& events[0].frame == frame
                &&& events[0].input is Restart
                &&& spec_decode_actions(s, other, last_delta) == Ok::<
                    Seq<InputCommand>,
                    TcmErrorView,
                >(seq![InputCommand { frame: other, input: events[0].input }] + events.skip(1))
            },
            Err(e) => spec_decode_actions(s, other, last_delta) == Err::<
                Seq<InputCommand>,
                TcmErrorView,
            >(e),
        },
{
    lemma_decode_actions_step(s, frame, last_delta);
    lemma_decode_actions_step(s, other, last_delta);
    match spec_action_step(s, frame, last_delta) {
        Ok((events, next, remembered, n)) => {
            let moved = seq![InputCommand { frame: other, input: events[0].input }];
            assert(spec_action_step(s, other, last_delta) == Ok::<
                (Seq<InputCommand>, Frame, Frame, nat),
                TcmErrorView,
            >((moved, next, remembered, n))) by {
                assert(spec_action_step(s, other, last_delta)->Ok_0.0 =~= moved);
            }
            match spec_decode_actions(s.skip(n as int), next, remembered) {
                Ok(tail) => {
                    assert((events + tail).skip(1) =~= tail);
                },
                Err(e) => {},
            }
        },
        Err(e) => {},
    }
}

/// How many bytes of seed follow the control byte of a restart.
pub open spec fn spec_seed_len(byte: u8) -> int {
    match spec_parse_action(byte) {
        Action::Restart { restart_type, seeded } => if seeded {
            8
        } else {
            0
        },
        _ => 0,
    }
}

/// Events whose frames all fit in 32 bits can be written from any of
/// them on: every gap fits the widest width.
pub proof fn lemma_encode_actions_succeeds(inputs: Seq<InputCommand>, i: int, last_delta: Frame)
    requires
        0 <= i <= inputs.len(),
        forall|k: int| 0 <= k < inputs.len() ==> (#[trigger] inputs[k]).frame <= 0xFFFF_FFFF,
    ensures
        spec_encode_actions(inputs, i, last_delta) is Ok,
    decreases inputs.len() - i,
{
    if i >= inputs.len() {
        lemma_encode_actions_end(inputs, i, last_delta);
    } else {
        lemma_encode_actions_step(inputs, i, last_delta);
        let j = spec_next_action(inputs, i);
        if j < inputs.len() {
            assert(inputs[j].frame <= 0xFFFF_FFFF);
            SerializerDeltaInfo::lemma_choose_some(spec_gap(inputs, i), last_delta);
        }
        let info = spec_delta_info(inputs, i, last_delta).unwrap();
        lemma_encode_actions_succeeds(inputs, j, spec_remembered(info, last_delta));
    }
}

/// Events whose frames all fit in 32 bits can be written in version 2.
pub proof fn lemma_encode_inputs_v2_succeeds(inputs: Seq<InputCommand>)
    requires
        forall|k: int| 0 <= k < inputs.len() ==> (#[trigger] inputs[k]).frame <= 0xFFFF_FFFF,
    ensures
        spec_encode_inputs_v2(inputs) is Ok,
{
    lemma_encode_actions_succeeds(inputs, 0, 0);
}

} // verus!
