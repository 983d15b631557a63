//! What holds of whole streams and of the converter: the header check, the
//! choice of version, that reading undoes writing, and what a conversion
//! keeps.
use vstd::prelude::*;
use crate::error::TcmErrorView;
use crate::input::InputCommand;
use crate::meta::{
    lemma_meta_v1_round_trip, lemma_meta_v2_round_trip, DynamicMeta, Meta, MetaV1, MetaV2,
    META_SIZE,
};
use crate::replay::laws_v1::{
    lemma_encode_inputs_v1_fails, lemma_inputs_v1_round_trip, spec_all_supported_from,
    spec_unsupported, spec_valid_inputs_v1,
};
use crate::replay::laws_v2::{lemma_inputs_v2_round_trip, spec_valid_inputs_v2};
use crate::replay::stream_v1::{spec_encode_inputs_v1, spec_unsupported_input};
use crate::replay::stream_v2::spec_encode_inputs_v2;
use crate::replay::{
    spec_deserialize, spec_from_reader, spec_header, spec_serialize, spec_to_v1, spec_to_v2,
    spec_v1_obstacle, HEADER_SIZE,
};
use crate::FloatBits;

verus! {

/// A stream whose first 16 bytes are not the magic sequence has an
/// invalid header, whatever kind of metadata it is read for.
pub proof fn lemma_header_check<M: Meta>(s: Seq<u8>)
    requires
        s.len() >= HEADER_SIZE,
        s.take(HEADER_SIZE as int) != spec_header(),
    ensures
        spec_deserialize::<M>(s) == Err::<(M, Seq<InputCommand>), TcmErrorView>(
            TcmErrorView::InvalidHeader,
        ),
{
}

/// A stream whose first 16 bytes are not the magic sequence, and whose
/// metadata block names version 1 or 2, has an invalid header when its
/// version is detected.
pub proof fn lemma_header_check_detected(s: Seq<u8>)
    requires
        s.len() > HEADER_SIZE,
        s.take(HEADER_SIZE as int) != spec_header(),
        s[HEADER_SIZE as int] == 1 || s[HEADER_SIZE as int] == 2,
    ensures
        spec_from_reader(s) == Err::<(DynamicMeta, Seq<InputCommand>), TcmErrorView>(
            TcmErrorView::InvalidHeader,
        ),
{
}

/// The first byte of the metadata block chooses the version: with 1 a
/// replay that is read has metadata of version 1, with 2 of version 2,
/// and any other value is an unsupported version.
pub proof fn lemma_version_dispatch(s: Seq<u8>)
    requires
        s.len() > HEADER_SIZE,
    ensures
        s[HEADER_SIZE as int] == 1 ==> (spec_from_reader(s) matches Ok((meta, events))
            ==> meta is V1),
        s[HEADER_SIZE as int] == 2 ==> (spec_from_reader(s) matches Ok((meta, events))
            ==> meta is V2),
        s[HEADER_SIZE as int] != 1 && s[HEADER_SIZE as int] != 2 ==> spec_from_reader(s) == Err::<
            (DynamicMeta, Seq<InputCommand>),
            TcmErrorView,
        >(TcmErrorView::UnsupportedVersion { version: s[HEADER_SIZE as int] }),
{
}

/// A stream made of the header, a metadata block and an input stream
/// falls apart into these three again.
proof fn lemma_stream_parts(block: Seq<u8>, stream: Seq<u8>)
    requires
        block.len() == META_SIZE,
    ensures
        ({
            let s = spec_header() + block + stream;
            &&& s.len() >= HEADER_SIZE + META_SIZE
            &&& s.take(HEADER_SIZE as int) == spec_header()
            &&& s.subrange(HEADER_SIZE as int, HEADER_SIZE + META_SIZE) == block
            &&& s.skip(HEADER_SIZE + META_SIZE) == stream
            &&& s[HEADER_SIZE as int] == block[0]
        }),
{
    let s = spec_header() + block + stream;
    assert(s.take(HEADER_SIZE as int) =~= spec_header());
    assert(s.subrange(HEADER_SIZE as int, HEADER_SIZE + META_SIZE) =~= block);
    assert(s.skip(HEADER_SIZE + META_SIZE) =~= stream);
}

/// Reading the stream of a valid replay of version 1 gives the replay
/// back, field for field, also where it has no events, and also where
/// the version is detected.
pub proof fn lemma_replay_v1_round_trip(meta: MetaV1, inputs: Seq<InputCommand>)
    requires
        spec_valid_inputs_v1(inputs),
    ensures
        spec_serialize(meta, inputs) is Ok,
        spec_deserialize::<MetaV1>(spec_serialize(meta, inputs)->Ok_0) == Ok::<
            (MetaV1, Seq<InputCommand>),
            TcmErrorView,
        >((meta, inputs)),
        spec_from_reader(spec_serialize(meta, inputs)->Ok_0) == Ok::<
            (DynamicMeta, Seq<InputCommand>),
            TcmErrorView,
        >((DynamicMeta::V1(meta), inputs)),
{
    lemma_inputs_v1_round_trip(inputs);
    lemma_meta_v1_round_trip(meta);
    lemma_stream_parts(meta.spec_to_bytes(), spec_encode_inputs_v1(inputs)->Ok_0);
}

/// Reading the stream of a valid replay of version 2 gives the replay
/// back, field for field, also where it has no events, and also where
/// the version is detected.  A valid replay has no seed of zero in its
/// metadata, and its gaps can be written.
pub proof fn lemma_replay_v2_round_trip(meta: MetaV2, inputs: Seq<InputCommand>)
    requires
        spec_valid_inputs_v2(inputs),
        meta.rng_seed != Some(0u64),
        spec_serialize(meta, inputs) is Ok,
    ensures
        spec_deserialize::<MetaV2>(spec_serialize(meta, inputs)->Ok_0) == Ok::<
            (MetaV2, Seq<InputCommand>),
            TcmErrorView,
        >((meta, inputs)),
        spec_from_reader(spec_serialize(meta, inputs)->Ok_0) == Ok::<
            (DynamicMeta, Seq<InputCommand>),
            TcmErrorView,
        >((DynamicMeta::V2(meta), inputs)),
{
    lemma_inputs_v2_round_trip(inputs);
    lemma_meta_v2_round_trip(meta);
    lemma_stream_parts(meta.spec_to_bytes(), spec_encode_inputs_v2(inputs)->Ok_0);
}

/// A replay of version 1 with a rate change or a marker among its events
/// cannot be written: it fails with the error for an unsupported input
/// type.  Without such an event it can.
pub proof fn lemma_v1_rejects_unsupported(meta: MetaV1, inputs: Seq<InputCommand>)
    ensures
        spec_serialize(meta, inputs) is Ok <==> spec_all_supported_from(inputs, 0),
        !spec_all_supported_from(inputs, 0) ==> spec_serialize(meta, inputs) == Err::<
            Seq<u8>,
            TcmErrorView,
        >(spec_unsupported_input()),
{
    lemma_encode_inputs_v1_fails(inputs);
}

/// Whether there is a reason not to convert the events from the one at
/// `i` on is whether one of them is a rate change or a marker.
pub proof fn lemma_v1_obstacle(inputs: Seq<InputCommand>, i: int)
    requires
        0 <= i <= inputs.len(),
    ensures
        spec_v1_obstacle(inputs, i) is None <==> spec_all_supported_from(inputs, i),
    decreases inputs.len() - i,
{
    if i < inputs.len() {
        lemma_v1_obstacle(inputs, i + 1);
        if spec_all_supported_from(inputs, i) {
            assert(!spec_unsupported(inputs[i].input));
            assert(spec_all_supported_from(inputs, i + 1));
        } else if !spec_unsupported(inputs[i].input) {
            assert(!spec_all_supported_from(inputs, i + 1));
        }
    }
}

/// Converting to version 1 fails, with a reason, exactly where an event
/// is a rate change or a marker.  Nothing else makes it fail: not the
/// version of the source, and not a seed in its metadata, which is
/// dropped.
pub proof fn lemma_to_v1_fails(meta: DynamicMeta, inputs: Seq<InputCommand>, reciprocal: FloatBits)
    ensures
        spec_to_v1(meta, inputs, reciprocal) is Ok <==> spec_all_supported_from(inputs, 0),
        spec_to_v1(meta, inputs, reciprocal) matches Ok((converted, events)) ==> {
            &&& events == inputs
            &&& converted.spec_rng_seed() is None
            &&& !converted.spec_is_rng_seed_set()
            &&& converted.append_counter == 0
            &&& converted.tps == meta.spec_effective_tps(reciprocal)
        },
{
    lemma_v1_obstacle(inputs, 0);
}

/// From version 1 to version 2 without asking for a seed, and back: the
/// tick rate and the events come back as they were, and no seed appears
/// on the way.
pub proof fn lemma_v1_v2_v1(
    meta: MetaV1,
    inputs: Seq<InputCommand>,
    reciprocal: FloatBits,
    other: FloatBits,
)
    requires
        spec_all_supported_from(inputs, 0),
    ensures
        ({
            let (meta_v2, events_v2) = spec_to_v2(DynamicMeta::V1(meta), inputs, None, reciprocal);
            &&& meta_v2.spec_tps() == Some(meta.tps)
            &&& meta_v2.spec_rng_seed() is None
            &&& events_v2 == inputs
            &&& spec_to_v1(DynamicMeta::V2(meta_v2), events_v2, other) == Ok::<
                (MetaV1, Seq<InputCommand>),
                Seq<char>,
            >((MetaV1 { tps: meta.tps, append_counter: 0 }, inputs))
        }),
{
    lemma_v1_obstacle(inputs, 0);
}

/// Writing again what was read from the stream of a valid replay gives
/// the same bytes: no width and no flag bit comes out otherwise the
/// second time.
pub proof fn lemma_rewrite_v1_is_exact(meta: MetaV1, inputs: Seq<InputCommand>)
    requires
        spec_valid_inputs_v1(inputs),
    ensures
        spec_deserialize::<MetaV1>(spec_serialize(meta, inputs)->Ok_0) matches Ok((read_meta, events))
            && spec_serialize(read_meta, events) == spec_serialize(meta, inputs),
{
    lemma_replay_v1_round_trip(meta, inputs);
}

/// Writing again what was read from the stream of a valid replay gives
/// the same bytes: no width and no flag bit comes out otherwise the
/// second time.
pub proof fn lemma_rewrite_v2_is_exact(meta: MetaV2, inputs: Seq<InputCommand>)
    requires
        spec_valid_inputs_v2(inputs),
        meta.rng_seed != Some(0u64),
        spec_serialize(meta, inputs) is Ok,
    ensures
        spec_deserialize::<MetaV2>(spec_serialize(meta, inputs)->Ok_0) matches Ok((read_meta, events))
            && spec_serialize(read_meta, events) == spec_serialize(meta, inputs),
{
    lemma_replay_v2_round_trip(meta, inputs);
}

} // verus!
