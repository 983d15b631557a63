//! The version-2 input stream: a start frame, then one action after the
//! other until the bytes end.  An action is a control byte, the payload of
//! a rate change or of a reseeding restart, and the gap to the next
//! action.
use vstd::prelude::*;
use crate::error::{TcmError, TcmErrorView};
use crate::input::{
    BugpointInput, Input, InputCommand, RestartInput, RestartType, TpsInput, VanillaInput,
};
use crate::replay::reader::{
    lemma_le_value_bound, lemma_pow256_values, spec_le_bytes, spec_le_value, write_le, ByteReader,
};
use crate::replay::v2::{
    delta_bits, parse_action, serialize_input, spec_delta_bits, spec_parse_action,
    spec_serialize_input, Action, ByteBlob, DeserializerBlob, DeserializerDeltaInfo,
    SerializerBlob, SerializerDeltaInfo,
};
use crate::replay::varint::{read_var_u32, spec_read_var_u32, spec_var_u32, write_var_u32};
use crate::replay::Replay;
use crate::{FloatBits, Frame};

verus! {

/// `events` put before what `r` holds; an error stays.
pub open spec fn spec_prepend<T>(events: Seq<T>, r: Result<Seq<T>, TcmErrorView>) -> Result<
    Seq<T>,
    TcmErrorView,
> {
    match r {
        Ok(rest) => Ok(events + rest),
        Err(e) => Err(e),
    }
}

/// Two button events on one frame, for one button and one player, of
/// which one pushes and the other releases: they share an action byte.
pub open spec fn spec_is_swift_pair(a: InputCommand, b: InputCommand) -> bool {
    a.frame == b.frame && match (a.input, b.input) {
        (Input::Vanilla(x), Input::Vanilla(y)) => x.button == y.button && x.push != y.push
            && x.player2 == y.player2,
        _ => false,
    }
}

/// The error for a stream that ends inside the payload of a rate change.
pub open spec fn spec_tps_eof() -> TcmErrorView {
    TcmErrorView::UnexpectedEof { context: "tps value"@ }
}

/// The error for a stream that ends inside the seed of a restart.
pub open spec fn spec_seed_eof() -> TcmErrorView {
    TcmErrorView::UnexpectedEof { context: "restart seed"@ }
}

/// The error for a running frame beyond 64 bits.
pub open spec fn spec_frame_overflow() -> TcmErrorView {
    TcmErrorView::DeserializationError { message: "frame number overflows"@ }
}

/// The error for a gap that no width can hold.
pub open spec fn spec_delta_too_big() -> TcmErrorView {
    TcmErrorView::SerializationError { message: "Delta too big"@ }
}

/// The button event on `frame`, followed where `swift` holds by the one
/// that differs from it in `push` alone.
pub open spec fn spec_button_events(frame: Frame, input: VanillaInput, swift: bool) -> Seq<
    InputCommand,
> {
    let first = InputCommand { frame, input: Input::Vanilla(input) };
    let twin = InputCommand {
        frame,
        input: Input::Vanilla(
            VanillaInput { button: input.button, push: !input.push, player2: input.player2 },
        ),
    };
    if swift {
        seq![first, twin]
    } else {
        seq![first]
    }
}

/// The rate change on `frame` whose payload starts `s`.
pub open spec fn spec_tps_event(s: Seq<u8>, frame: Frame) -> InputCommand {
    InputCommand { frame, input: Input::Tps(TpsInput { tps: spec_le_value(s.take(4)) as FloatBits }) }
}

/// The restart on `frame` whose seed starts `s`.
pub open spec fn spec_seeded_restart(s: Seq<u8>, restart_type: RestartType, frame: Frame) -> InputCommand {
    InputCommand {
        frame,
        input: Input::Restart(
            RestartInput { restart_type, new_seed: Some(spec_le_value(s.take(8)) as u64) },
        ),
    }
}

/// The restart without a seed on `frame`.
pub open spec fn spec_plain_restart(restart_type: RestartType, frame: Frame) -> InputCommand {
    InputCommand { frame, input: Input::Restart(RestartInput { restart_type, new_seed: None }) }
}

/// What an action announced by `action` holds besides its gap: its
/// events, the frame that it leaves (zero after a restart) and how many
/// bytes of payload it takes from the start of `s`.
pub open spec fn spec_action_events(action: Action, s: Seq<u8>, frame: Frame) -> Result<
    (Seq<InputCommand>, Frame, nat),
    TcmErrorView,
> {
    match action {
        Action::Button { input, swift } => Ok((spec_button_events(frame, input, swift), frame, 0)),
        Action::Bugpoint => Ok(
            (seq![InputCommand { frame, input: Input::Bugpoint(BugpointInput) }], frame, 0),
        ),
        Action::Tps => if s.len() < 4 {
            Err(spec_tps_eof())
        } else {
            Ok((seq![spec_tps_event(s, frame)], frame, 4))
        },
        Action::Restart { restart_type, seeded } => if !seeded {
            Ok((seq![spec_plain_restart(restart_type, frame)], 0, 0))
        } else if s.len() < 8 {
            Err(spec_seed_eof())
        } else {
            Ok((seq![spec_seeded_restart(s, restart_type, frame)], 0, 8))
        },
    }
}

/// The gap that `info` reads from the start of `s`, added to `base`: the
/// next running frame, the gap to remember, and the bytes taken.
pub open spec fn spec_delta_step(
    info: DeserializerDeltaInfo,
    s: Seq<u8>,
    base: Frame,
    last_delta: Frame,
) -> Result<(Frame, Frame, nat), TcmErrorView> {
    match info.spec_read(s) {
        Err(e) => Err(e),
        Ok((delta, n)) => if base + delta > u64::MAX {
            Err(spec_frame_overflow())
        } else {
            Ok(((base + delta) as Frame, info.spec_remember(delta, last_delta), n))
        },
    }
}

/// One action at the start of `s`: its events, the running frame and the
/// remembered gap after it, and the bytes it takes.
pub open spec fn spec_action_step(s: Seq<u8>, frame: Frame, last_delta: Frame) -> Result<
    (Seq<InputCommand>, Frame, Frame, nat),
    TcmErrorView,
>
    recommends
        s.len() > 0,
{
    let info = DeserializerDeltaInfo::spec_new(spec_delta_bits(s[0]), last_delta);
    match spec_action_events(spec_parse_action(s[0]), s.skip(1), frame) {
        Err(e) => Err(e),
        Ok((events, base, m)) => match spec_delta_step(
            info,
            s.skip(1 + m as int),
            base,
            last_delta,
        ) {
            Err(e) => Err(e),
            Ok((next, remembered, n)) => Ok((events, next, remembered, 1 + m + n)),
        },
    }
}

/// An action takes at least its control byte and no more than there is.
pub proof fn lemma_action_step_len(s: Seq<u8>, frame: Frame, last_delta: Frame)
    requires
        s.len() > 0,
    ensures
        match spec_action_step(s, frame, last_delta) {
            Ok((events, next, remembered, n)) => 1 <= n <= s.len() && 1 <= events.len() <= 2,
            Err(e) => true,
        },
{
}

/// The events that the actions in `s` stand for, the running frame being
/// `frame` and the remembered gap `last_delta`.  The end of the bytes ends
/// the events.
#[verifier::opaque]
pub open spec fn spec_decode_actions(s: Seq<u8>, frame: Frame, last_delta: Frame) -> Result<
    Seq<InputCommand>,
    TcmErrorView,
>
    decreases s.len(),
    via spec_decode_actions_shrinks
{
    if s.len() == 0 {
        Ok(Seq::empty())
    } else {
        match spec_action_step(s, frame, last_delta) {
            Err(e) => Err(e),
            Ok((events, next, remembered, n)) => spec_prepend(
                events,
                spec_decode_actions(s.skip(n as int), next, remembered),
            ),
        }
    }
}

#[via_fn]
proof fn spec_decode_actions_shrinks(s: Seq<u8>, frame: Frame, last_delta: Frame) {
    if s.len() > 0 {
        lemma_action_step_len(s, frame, last_delta);
    }
}

/// The events from the gap after an action on: the gap is read as `info`
/// says and added to `base`, the frame that the action left.
pub open spec fn spec_decode_delta(
    info: DeserializerDeltaInfo,
    s: Seq<u8>,
    base: Frame,
    last_delta: Frame,
) -> Result<Seq<InputCommand>, TcmErrorView> {
    match spec_delta_step(info, s, base, last_delta) {
        Err(e) => Err(e),
        Ok((next, remembered, n)) => spec_decode_actions(s.skip(n as int), next, remembered),
    }
}

/// The events from the payload of a rate change on.
pub open spec fn spec_decode_tps(
    info: DeserializerDeltaInfo,
    s: Seq<u8>,
    frame: Frame,
    last_delta: Frame,
) -> Result<Seq<InputCommand>, TcmErrorView> {
    if s.len() < 4 {
        Err(spec_tps_eof())
    } else {
        spec_prepend(
            seq![spec_tps_event(s, frame)],
            spec_decode_delta(info, s.skip(4), frame, last_delta),
        )
    }
}

/// The events from the seed of a restart on.  The restart keeps the frame
/// on which it happened; the frames after it count from zero.
pub open spec fn spec_decode_seed(
    info: DeserializerDeltaInfo,
    restart_type: RestartType,
    frame: Frame,
    s: Seq<u8>,
    last_delta: Frame,
) -> Result<Seq<InputCommand>, TcmErrorView> {
    if s.len() < 8 {
        Err(spec_seed_eof())
    } else {
        spec_prepend(
            seq![spec_seeded_restart(s, restart_type, frame)],
            spec_decode_delta(info, s.skip(8), 0, last_delta),
        )
    }
}

/// The events of a stream that starts with an action, told by what the
/// control byte announces: the form in which a decoder that reads piece
/// by piece meets them.
pub open spec fn spec_decode_dispatch(s: Seq<u8>, frame: Frame, last_delta: Frame) -> Result<
    Seq<InputCommand>,
    TcmErrorView,
>
    recommends
        s.len() > 0,
{
    let info = DeserializerDeltaInfo::spec_new(spec_delta_bits(s[0]), last_delta);
    match spec_parse_action(s[0]) {
        Action::Button { input, swift } => spec_prepend(
            spec_button_events(frame, input, swift),
            spec_decode_delta(info, s.skip(1), frame, last_delta),
        ),
        Action::Bugpoint => spec_prepend(
            seq![InputCommand { frame, input: Input::Bugpoint(BugpointInput) }],
            spec_decode_delta(info, s.skip(1), frame, last_delta),
        ),
        Action::Tps => spec_decode_tps(info, s.skip(1), frame, last_delta),
        Action::Restart { restart_type, seeded } => if seeded {
            spec_decode_seed(info, restart_type, frame, s.skip(1), last_delta)
        } else {
            spec_prepend(
                seq![spec_plain_restart(restart_type, frame)],
                spec_decode_delta(info, s.skip(1), 0, last_delta),
            )
        },
    }
}

/// No bytes stand for no events.
pub proof fn lemma_decode_actions_end(s: Seq<u8>, frame: Frame, last_delta: Frame)
    requires
        s.len() == 0,
    ensures
        spec_decode_actions(s, frame, last_delta) == Ok::<Seq<InputCommand>, TcmErrorView>(
            Seq::empty(),
        ),
{
    reveal(spec_decode_actions);
}

/// The events of a stream are those of its first action, then those of
/// the rest.
pub proof fn lemma_decode_actions_step(s: Seq<u8>, frame: Frame, last_delta: Frame)
    requires
        s.len() > 0,
    ensures
        spec_decode_actions(s, frame, last_delta) == match spec_action_step(
            s,
            frame,
            last_delta,
        ) {
            Err(e) => Err::<Seq<InputCommand>, TcmErrorView>(e),
            Ok((events, next, remembered, n)) => spec_prepend(
                events,
                spec_decode_actions(s.skip(n as int), next, remembered),
            ),
        },
{
    reveal(spec_decode_actions);
    lemma_action_step_len(s, frame, last_delta);
}

/// Reading a stream piece by piece gives the events of its actions.
pub proof fn lemma_decode_actions_dispatch(s: Seq<u8>, frame: Frame, last_delta: Frame)
    requires
        s.len() > 0,
    ensures
        spec_decode_actions(s, frame, last_delta) == spec_decode_dispatch(s, frame, last_delta),
{
    lemma_decode_actions_step(s, frame, last_delta);
    let info = DeserializerDeltaInfo::spec_new(spec_delta_bits(s[0]), last_delta);
    match spec_action_events(spec_parse_action(s[0]), s.skip(1), frame) {
        Err(e) => {},
        Ok((events, base, m)) => {
            let rest = s.skip(1 + m as int);
            assert(s.skip(1).skip(m as int) =~= rest);
            match spec_delta_step(info, rest, base, last_delta) {
                Err(e) => {},
                Ok((next, remembered, n)) => {
                    assert(rest.skip(n as int) =~= s.skip((1 + m + n) as int));
                },
            }
        },
    }
}

/// The events that a version-2 input stream stands for.  A stream of no
/// bytes stands for no events; any other starts with the first frame.
pub open spec fn spec_decode_inputs_v2(s: Seq<u8>) -> Result<Seq<InputCommand>, TcmErrorView> {
    if s.len() == 0 {
        Ok(Seq::empty())
    } else {
        match spec_read_var_u32(s) {
            Err(e) => Err(e),
            Ok((frame, n)) => spec_decode_actions(s.skip(n as int), frame as Frame, 0),
        }
    }
}

/// Whether the events at `i` and `i + 1` share an action byte.
pub open spec fn spec_swift_at(inputs: Seq<InputCommand>, i: int) -> bool {
    0 <= i && i + 1 < inputs.len() && spec_is_swift_pair(inputs[i], inputs[i + 1])
}

/// The index of the event that starts the action after the one at `i`.
pub open spec fn spec_next_action(inputs: Seq<InputCommand>, i: int) -> int {
    if spec_swift_at(inputs, i) {
        i + 2
    } else {
        i + 1
    }
}

/// The gap from the action at `i` to the next one: the next frame less
/// the frame that the action leaves, and zero where that would be
/// negative.
pub open spec fn spec_gap(inputs: Seq<InputCommand>, i: int) -> Frame {
    let next = inputs[spec_next_action(inputs, i)].frame;
    let from = inputs[i].spec_adjusted_frame();
    if next >= from {
        (next - from) as Frame
    } else {
        0
    }
}

/// How the gap after the action at `i` is written; the last action has
/// none.
pub open spec fn spec_delta_info(inputs: Seq<InputCommand>, i: int, last_delta: Frame) -> Option<
    SerializerDeltaInfo,
> {
    if spec_next_action(inputs, i) < inputs.len() {
        SerializerDeltaInfo::spec_choose(spec_gap(inputs, i), last_delta)
    } else {
        Some(SerializerDeltaInfo { blob: ByteBlob::Zero, magic: None, delta: 0 })
    }
}

/// The payload that follows the control byte of `input`.
pub open spec fn spec_follow_up(input: Input) -> Seq<u8> {
    match input {
        Input::Tps(t) => spec_le_bytes(t.tps as nat, 4),
        Input::Restart(r) => match r.new_seed {
            Some(seed) => spec_le_bytes(seed as nat, 8),
            None => Seq::empty(),
        },
        _ => Seq::empty(),
    }
}

/// The control byte of an action: the event in the low five bits, the
/// delta control in the high three.
pub open spec fn spec_action_byte(input: Input, swift: bool, info: SerializerDeltaInfo) -> u8 {
    (spec_serialize_input(input, swift) + 32 * info.spec_craft()) as u8
}

/// The gap that is remembered once `info` was written after `last_delta`.
pub open spec fn spec_remembered(info: SerializerDeltaInfo, last_delta: Frame) -> Frame {
    if info.delta != 0 {
        info.delta
    } else {
        last_delta
    }
}

/// The bytes of the actions from the event at `i` on.
#[verifier::opaque]
pub open spec fn spec_encode_actions(inputs: Seq<InputCommand>, i: int, last_delta: Frame) -> Result<
    Seq<u8>,
    TcmErrorView,
>
    decreases inputs.len() - i,
{
    if i < 0 || i >= inputs.len() {
        Ok(Seq::empty())
    } else {
        match spec_delta_info(inputs, i, last_delta) {
            None => Err(spec_delta_too_big()),
            Some(info) => spec_prepend(
                seq![spec_action_byte(inputs[i].input, spec_swift_at(inputs, i), info)]
                    + spec_follow_up(inputs[i].input) + info.spec_bytes(),
                spec_encode_actions(
                    inputs,
                    spec_next_action(inputs, i),
                    spec_remembered(info, last_delta),
                ),
            ),
        }
    }
}

/// The version-2 input stream of `inputs`: nothing for no events, else
/// the low 32 bits of the first frame and the actions.
pub open spec fn spec_encode_inputs_v2(inputs: Seq<InputCommand>) -> Result<
    Seq<u8>,
    TcmErrorView,
> {
    if inputs.len() == 0 {
        Ok(Seq::empty())
    } else {
        spec_prepend(
            spec_var_u32((inputs[0].frame % 0x1_0000_0000) as u32),
            spec_encode_actions(inputs, 0, 0),
        )
    }
}

/// The events still to come, seen from what the decoder reads next.
pub open spec fn spec_decode_from(
    next_blob: DeserializerBlob,
    info: DeserializerDeltaInfo,
    awaiting_seed: Option<(RestartType, Frame)>,
    s: Seq<u8>,
    frame: Frame,
    last_delta: Frame,
) -> Result<Seq<InputCommand>, TcmErrorView> {
    match next_blob {
        DeserializerBlob::Action => spec_decode_actions(s, frame, last_delta),
        DeserializerBlob::FrameDelta => spec_decode_delta(info, s, frame, last_delta),
        DeserializerBlob::Tps => spec_decode_tps(info, s, frame, last_delta),
        DeserializerBlob::Seed => match awaiting_seed {
            Some((restart_type, at)) => spec_decode_seed(info, restart_type, at, s, last_delta),
            None => Err(TcmErrorView::DeserializationError { message: "Unexpected seed input"@ }),
        },
    }
}

/// How far a decoder state is from reading the next control byte.
pub open spec fn spec_decoder_rank(next_blob: DeserializerBlob) -> nat {
    match next_blob {
        DeserializerBlob::Action => 0,
        DeserializerBlob::FrameDelta => 1,
        DeserializerBlob::Tps => 2,
        DeserializerBlob::Seed => 2,
    }
}

/// Putting events before a result in two steps is putting them all before
/// it at once.
pub proof fn lemma_prepend_prepend<T>(a: Seq<T>, b: Seq<T>, r: Result<Seq<T>, TcmErrorView>)
    ensures
        spec_prepend(a, spec_prepend(b, r)) == spec_prepend(a + b, r),
{
    match r {
        Ok(rest) => {
            assert(a + (b + rest) =~= (a + b) + rest);
        },
        Err(e) => {},
    }
}

/// Putting nothing before a result leaves it as it is.
pub proof fn lemma_prepend_nothing<T>(r: Result<Seq<T>, TcmErrorView>)
    ensures
        spec_prepend(Seq::<T>::empty(), r) == r,
{
    match r {
        Ok(rest) => {
            assert(Seq::<T>::empty() + rest =~= rest);
        },
        Err(e) => {},
    }
}

/// Past the last event nothing is written.
pub proof fn lemma_encode_actions_end(inputs: Seq<InputCommand>, i: int, last_delta: Frame)
    requires
        i >= inputs.len(),
    ensures
        spec_encode_actions(inputs, i, last_delta) == Ok::<Seq<u8>, TcmErrorView>(Seq::empty()),
{
    reveal(spec_encode_actions);
}

/// The bytes from the event at `i` on are those of its action, then those
/// from the next action on.
pub proof fn lemma_encode_actions_step(inputs: Seq<InputCommand>, i: int, last_delta: Frame)
    requires
        0 <= i < inputs.len(),
    ensures
        spec_encode_actions(inputs, i, last_delta) == match spec_delta_info(
            inputs,
            i,
            last_delta,
        ) {
            None => Err::<Seq<u8>, TcmErrorView>(spec_delta_too_big()),
            Some(info) => spec_prepend(
                seq![spec_action_byte(inputs[i].input, spec_swift_at(inputs, i), info)]
                    + spec_follow_up(inputs[i].input) + info.spec_bytes(),
                spec_encode_actions(
                    inputs,
                    spec_next_action(inputs, i),
                    spec_remembered(info, last_delta),
                ),
            ),
        },
{
    reveal(spec_encode_actions);
}

/// The bytes that the encoder still owes for the action it is in.
pub open spec fn spec_pending(next_blob: SerializerBlob, info: SerializerDeltaInfo) -> Seq<u8> {
    match next_blob {
        SerializerBlob::Action => Seq::empty(),
        SerializerBlob::FrameDelta => info.spec_bytes(),
        SerializerBlob::Tps(tps) => spec_le_bytes(tps as nat, 4) + info.spec_bytes(),
        SerializerBlob::Seed(seed) => spec_le_bytes(seed as nat, 8) + info.spec_bytes(),
    }
}

/// How far an encoder state is from writing the next control byte.
pub open spec fn spec_encoder_rank(next_blob: SerializerBlob) -> nat {
    match next_blob {
        SerializerBlob::Action => 0,
        SerializerBlob::FrameDelta => 1,
        SerializerBlob::Tps(_) => 2,
        SerializerBlob::Seed(_) => 2,
    }
}

/// Whether two events share an action byte.
pub fn is_swift_pair(a: &InputCommand, b: &InputCommand) -> (swift: bool)
    ensures
        swift == spec_is_swift_pair(*a, *b),
{
    if a.frame != b.frame {
        return false;
    }
    match (&a.input, &b.input) {
        (Input::Vanilla(x), Input::Vanilla(y)) => x.button.code() == y.button.code() && x.push
            != y.push && x.player2 == y.player2,
        _ => false,
    }
}

/// What follows the control byte, once the action's payload is out: the
/// gap where one is stored, else the next control byte.
fn after_payload(info: &SerializerDeltaInfo) -> (next_blob: SerializerBlob)
    ensures
        next_blob == if info.spec_empty() {
            SerializerBlob::Action
        } else {
            SerializerBlob::FrameDelta
        },
{
    if info.empty() {
        SerializerBlob::Action
    } else {
        SerializerBlob::FrameDelta
    }
}

impl<M> Replay<M> {
    /// Reads a version-2 input stream to the end of the bytes.
    pub fn deserialize_inputs_v2(reader: &mut ByteReader) -> (r: Result<
        Vec<InputCommand>,
        TcmError,
    >)
        requires
            old(reader).wf(),
        ensures
            final(reader).wf(),
            final(reader).bytes == old(reader).bytes,
            match spec_decode_inputs_v2(old(reader).remaining()) {
                Ok(events) => r is Ok && r.unwrap()@ == events && final(reader).remaining().len()
                    == 0,
                Err(e) => r is Err && r.unwrap_err()@ == e,
            },
    {
        let mut inputs: Vec<InputCommand> = Vec::new();
        if reader.at_end() {
            return Ok(inputs);
        }
        let start: u32 = match read_var_u32(reader) {
            Ok(v) => v,
            Err(e) => {
                return Err(e);
            },
        };
        let mut current_frame: Frame = start as Frame;
        let mut last_delta: Frame = 0;
        let mut next_blob = DeserializerBlob::Action;
        let mut next_delta = DeserializerDeltaInfo::default();
        let mut awaiting_seed: Option<(RestartType, Frame)> = None;
        let ghost total = spec_decode_inputs_v2(old(reader).remaining());
        proof {
            lemma_prepend_nothing(
                spec_decode_actions(reader.remaining(), current_frame, last_delta),
            );
        }
        loop
            invariant
                reader.wf(),
                reader.bytes == old(reader).bytes,
                next_blob is Seed ==> awaiting_seed is Some && current_frame == 0,
                total == spec_decode_inputs_v2(old(reader).remaining()),
                total == spec_prepend(
                    inputs@,
                    spec_decode_from(
                        next_blob,
                        next_delta,
                        awaiting_seed,
                        reader.remaining(),
                        current_frame,
                        last_delta,
                    ),
                ),
            ensures
                reader.wf(),
                reader.bytes == old(reader).bytes,
                reader.remaining().len() == 0,
                total == Ok::<Seq<InputCommand>, TcmErrorView>(inputs@),
            decreases reader.remaining().len(), spec_decoder_rank(next_blob),
        {
            let ghost here = reader.remaining();
            let ghost before = inputs@;
            let ghost frame0 = current_frame;
            let ghost last0 = last_delta;
            match next_blob {
                DeserializerBlob::Action => {
                    let byte = match reader.read_u8() {
                        Some(b) => b,
                        None => {
                            proof {
                                lemma_decode_actions_end(here, frame0, last0);
                                assert(before + Seq::<InputCommand>::empty() =~= before);
                            }
                            break ;
                        },
                    };
                    next_delta = DeserializerDeltaInfo::new(delta_bits(byte), last_delta);
                    let ghost rest = reader.remaining();
                    proof {
                        lemma_decode_actions_dispatch(here, frame0, last0);
                    }
                    match parse_action(byte) {
                        Action::Button { input, swift } => {
                            inputs.push(
                                InputCommand { frame: current_frame, input: Input::Vanilla(input) },
                            );
                            if swift {
                                inputs.push(
                                    InputCommand {
                                        frame: current_frame,
                                        input: Input::Vanilla(
                                            VanillaInput {
                                                button: input.button,
                                                push: !input.push,
                                                player2: input.player2,
                                            },
                                        ),
                                    },
                                );
                            }
                            next_blob = DeserializerBlob::FrameDelta;
                            proof {
                                let events = spec_button_events(frame0, input, swift);
                                let after = spec_decode_delta(next_delta, rest, frame0, last0);
                                assert(inputs@ =~= before + events);
                                lemma_prepend_prepend(before, events, after);
                            }
                        },
                        Action::Bugpoint => {
                            inputs.push(
                                InputCommand {
                                    frame: current_frame,
                                    input: Input::Bugpoint(BugpointInput),
                                },
                            );
                            next_blob = DeserializerBlob::FrameDelta;
                            proof {
                                let events = seq![
                                    InputCommand {
                                        frame: frame0,
                                        input: Input::Bugpoint(BugpointInput),
                                    },
                                ];
                                let after = spec_decode_delta(next_delta, rest, frame0, last0);
                                assert(inputs@ =~= before + events);
                                lemma_prepend_prepend(before, events, after);
                            }
                        },
                        Action::Tps => {
                            next_blob = DeserializerBlob::Tps;
                            proof {
                            }
                        },
                        Action::Restart { restart_type, seeded } => {
                            if seeded {
                                awaiting_seed = Some((restart_type, current_frame));
                                next_blob = DeserializerBlob::Seed;
                                proof {
                                }
                            } else {
                                inputs.push(
                                    InputCommand {
                                        frame: current_frame,
                                        input: Input::Restart(
                                            RestartInput { restart_type, new_seed: None },
                                        ),
                                    },
                                );
                                next_blob = DeserializerBlob::FrameDelta;
                                proof {
                                    let events = seq![
                                        InputCommand {
                                            frame: frame0,
                                            input: Input::Restart(
                                                RestartInput { restart_type, new_seed: None },
                                            ),
                                        },
                                    ];
                                    let after = spec_decode_delta(next_delta, rest, 0, last0);
                                    assert(inputs@ =~= before + events);
                                    lemma_prepend_prepend(before, events, after);
                                }
                            }
                            current_frame = 0;
                        },
                    }
                },
                DeserializerBlob::FrameDelta => {
                    proof {
                    }
                    let dt: Frame = match next_delta.read(reader, &mut last_delta) {
                        Ok(d) => d,
                        Err(e) => {
                            return Err(e);
                        },
                    };
                    current_frame = match current_frame.checked_add(dt) {
                        Some(f) => f,
                        None => {
                            return Err(
                                TcmError::deserialization_error("frame number overflows"),
                            );
                        },
                    };
                    next_blob = DeserializerBlob::Action;
                },
                DeserializerBlob::Tps => {
                    let tps: FloatBits = match reader.read_le(4) {
                        Some(v) => {
                            proof {
                                lemma_le_value_bound(here.take(4));
                                lemma_pow256_values();
                            }
                            v as FloatBits
                        },
                        None => {
                            proof {
                            }
                            return Err(TcmError::unexpected_eof("tps value"));
                        },
                    };
                    inputs.push(
                        InputCommand { frame: current_frame, input: Input::Tps(TpsInput { tps }) },
                    );
                    next_blob = DeserializerBlob::FrameDelta;
                    proof {
                        let events = seq![
                            InputCommand { frame: frame0, input: Input::Tps(TpsInput { tps }) },
                        ];
                        let after = spec_decode_delta(
                            next_delta,
                            reader.remaining(),
                            frame0,
                            last0,
                        );
                        assert(inputs@ =~= before + events);
                        lemma_prepend_prepend(before, events, after);
                    }
                },
                DeserializerBlob::Seed => {
                    let (t, frame) = match awaiting_seed {
                        Some(pending) => pending,
                        None => {
                            return Err(TcmError::deserialization_error("Unexpected seed input"));
                        },
                    };
                    awaiting_seed = None;
                    let seed: u64 = match reader.read_le(8) {
                        Some(v) => v,
                        None => {
                            proof {
                            }
                            return Err(TcmError::unexpected_eof("restart seed"));
                        },
                    };
                    inputs.push(
                        InputCommand {
                            frame,
                            input: Input::Restart(
                                RestartInput { restart_type: t, new_seed: Some(seed) },
                            ),
                        },
                    );
                    next_blob = DeserializerBlob::FrameDelta;
                    proof {
                        let events = seq![
                            InputCommand {
                                frame,
                                input: Input::Restart(
                                    RestartInput { restart_type: t, new_seed: Some(seed) },
                                ),
                            },
                        ];
                        let after = spec_decode_delta(next_delta, reader.remaining(), 0, last0);
                        assert(inputs@ =~= before + events);
                        lemma_prepend_prepend(before, events, after);
                    }
                },
            }
        }
        Ok(inputs)
    }
    /// Appends the version-2 input stream of the events to `writer`.  Where
    /// a gap cannot be written, nothing is appended.
    pub fn serialize_inputs_v2(&self, writer: &mut Vec<u8>) -> (r: Result<(), TcmError>)
        ensures
            match spec_encode_inputs_v2(self.inputs@) {
                Ok(bytes) => r is Ok && final(writer)@ == old(writer)@ + bytes,
                Err(e) => r is Err && r.unwrap_err()@ == e && final(writer)@ == old(writer)@,
            },
    {
        let n: usize = self.inputs.len();
        if n == 0 {
            assert(writer@ + Seq::<u8>::empty() =~= writer@);
            return Ok(());
        }
        let mut out: Vec<u8> = Vec::new();
        write_var_u32(&mut out, (self.inputs[0].frame % 0x1_0000_0000) as u32);
        let ghost prefix = out@;
        let ghost total = spec_encode_actions(self.inputs@, 0, 0);
        let mut next_blob = SerializerBlob::Action;
        let mut last_delta: Frame = 0;
        let mut next_delta = SerializerDeltaInfo::default();
        let mut i: usize = 0;
        let ghost mut body: Seq<u8> = Seq::empty();
        proof {
            assert(prefix + body =~= out@);
            lemma_prepend_nothing(total);
            assert(body + spec_pending(next_blob, next_delta) =~= Seq::<u8>::empty());
        }
        loop
            invariant
                n == self.inputs@.len(),
                i <= n,
                out@ == prefix + body,
                next_delta.wf(),
                next_blob is FrameDelta ==> !next_delta.spec_empty(),
                total == spec_encode_actions(self.inputs@, 0, 0),
                total == spec_prepend(
                    body + spec_pending(next_blob, next_delta),
                    spec_encode_actions(self.inputs@, i as int, last_delta),
                ),
            ensures
                out@ == prefix + body,
                total == Ok::<Seq<u8>, TcmErrorView>(body),
            decreases n - i, spec_encoder_rank(next_blob),
        {
            let ghost before = body;
            let ghost rest = spec_encode_actions(self.inputs@, i as int, last_delta);
            match next_blob {
                SerializerBlob::Action => {
                    if i >= n {
                        proof {
                            lemma_encode_actions_end(self.inputs@, i as int, last_delta);
                            assert(body + Seq::<u8>::empty() + Seq::<u8>::empty() =~= body);
                        }
                        break ;
                    }
                    let input = &self.inputs[i];
                    let swift: bool = i + 1 < n && is_swift_pair(input, &self.inputs[i + 1]);
                    let j: usize = if swift {
                        i + 2
                    } else {
                        i + 1
                    };
                    proof {
                        lemma_encode_actions_step(self.inputs@, i as int, last_delta);
                    }
                    if j < n {
                        let delta = self.inputs[j].frame.saturating_sub(input.adjusted_frame());
                        next_delta = match SerializerDeltaInfo::try_new(delta, last_delta) {
                            Some(info) => info,
                            None => {
                                return Err(TcmError::serialization_error("Delta too big"));
                            },
                        };
                        proof {
                            SerializerDeltaInfo::lemma_choose_some(delta, last_delta);
                        }
                    } else {
                        next_delta = SerializerDeltaInfo::default();
                    }
                    let ghost last0 = last_delta;
                    if next_delta.delta != 0 {
                        last_delta = next_delta.delta;
                    }
                    let data: u8 = serialize_input(&input.input, swift);
                    let delta_data: u8 = next_delta.craft();
                    assert((data | (delta_data << 5)) == data + 32 * delta_data) by (bit_vector)
                        requires
                            data < 32,
                            delta_data < 8,
                    ;
                    let data: u8 = data | (delta_data << crate::replay::v2::DELTA_OFFSET);
                    out.push(data);
                    next_blob = match &input.input {
                        Input::Tps(tps) => SerializerBlob::Tps(tps.tps),
                        Input::Restart(restart) => match restart.new_seed {
                            Some(seed) => SerializerBlob::Seed(seed),
                            None => after_payload(&next_delta),
                        },
                        _ => after_payload(&next_delta),
                    };
                    proof {
                        body = body + seq![data];
                        let piece = seq![data] + spec_follow_up(input.input)
                            + next_delta.spec_bytes();
                        let tail = spec_encode_actions(self.inputs@, j as int, last_delta);
                        assert(rest == spec_prepend(piece, tail));
                        lemma_prepend_prepend(before, piece, tail);
                        assert(next_delta.spec_empty() ==> next_delta.spec_bytes()
                            =~= Seq::<u8>::empty());
                        assert(body + spec_pending(next_blob, next_delta) =~= before + piece);
                        assert(out@ =~= prefix + body);
                    }
                    i = j;
                },
                SerializerBlob::FrameDelta => {
                    match next_delta.serialize(&mut out) {
                        Ok(()) => {},
                        Err(e) => {
                            return Err(e);
                        },
                    }
                    next_blob = SerializerBlob::Action;
                    proof {
                        body = body + next_delta.spec_bytes();
                        assert(body + Seq::<u8>::empty() =~= before + next_delta.spec_bytes());
                        assert(out@ =~= prefix + body);
                    }
                },
                SerializerBlob::Tps(tps) => {
                    write_le(&mut out, tps as u64, 4);
                    next_blob = after_payload(&next_delta);
                    proof {
                        body = body + spec_le_bytes(tps as nat, 4);
                        assert(next_delta.spec_empty() ==> next_delta.spec_bytes()
                            =~= Seq::<u8>::empty());
                        assert(body + spec_pending(next_blob, next_delta) =~= before + (
                        spec_le_bytes(tps as nat, 4) + next_delta.spec_bytes()));
                        assert(out@ =~= prefix + body);
                    }
                },
                SerializerBlob::Seed(seed) => {
                    write_le(&mut out, seed, 8);
                    next_blob = after_payload(&next_delta);
                    proof {
                        body = body + spec_le_bytes(seed as nat, 8);
                        assert(next_delta.spec_empty() ==> next_delta.spec_bytes()
                            =~= Seq::<u8>::empty());
                        assert(body + spec_pending(next_blob, next_delta) =~= before + (
                        spec_le_bytes(seed as nat, 8) + next_delta.spec_bytes()));
                        assert(out@ =~= prefix + body);
                    }
                },
            }
        }
        let ghost old_writer = writer@;
        writer.append(&mut out);
        proof {
            assert(writer@ =~= old_writer + (prefix + body));
        }
        Ok(())
    }
}

} // verus!
