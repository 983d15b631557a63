use tcm::input::{
    BugpointInput, Input, InputCommand, PlayerButton, RestartInput, RestartType, TpsInput,
    VanillaInput,
};
use tcm::meta::{DynamicMeta, Meta, MetaV1, MetaV2};
use tcm::replay::reader::ByteReader;
use tcm::replay::{Replay, ReplaySerializer};
use tcm::DynamicReplay;

fn plain_inputs() -> Vec<InputCommand> {
    vec![
        InputCommand::new(
            1,
            Input::Vanilla(VanillaInput { button: PlayerButton::Jump, push: true, player2: false }),
        ),
        InputCommand::new(
            2,
            Input::Restart(RestartInput { restart_type: RestartType::Death, new_seed: None }),
        ),
        InputCommand::new(
            0,
            Input::Vanilla(VanillaInput { button: PlayerButton::Right, push: false, player2: true }),
        ),
    ]
}

fn rate() -> u32 {
    240.0f32.to_bits()
}

#[test]
fn v1_to_v2_keeps_rate_and_inputs() {
    let source: DynamicReplay = Replay::new(DynamicMeta::V1(MetaV1::new(rate(), 5)), plain_inputs());
    let converted = source.to_v2(None, 0);
    assert_eq!(converted.meta, MetaV2::new(rate(), 0, None));
    assert_eq!(converted.meta.tps(), Some(rate()));
    assert_eq!(converted.meta.rng_seed(), None);
    assert!(!converted.meta.is_rng_seed_set());
    assert_eq!(converted.meta.append_counter, 0);
    assert_eq!(converted.inputs, plain_inputs());
}

#[test]
fn v1_to_v2_to_v1_gives_the_same_back() {
    let source: DynamicReplay = Replay::new(DynamicMeta::V1(MetaV1::new(rate(), 0)), plain_inputs());
    let v2 = source.to_v2_preserve_seed(1);
    let middle: DynamicReplay = Replay::new(DynamicMeta::V2(v2.meta), v2.inputs);
    let back = middle.to_v1(2).expect("nothing that version 1 lacks");
    assert_eq!(back.meta, MetaV1::new(rate(), 0));
    assert_eq!(back.inputs, plain_inputs());
}

#[test]
fn to_v2_takes_the_seed_asked_for_or_the_one_there() {
    let with_seed = MetaV2::new(rate(), 9, Some(11));
    let source: DynamicReplay = Replay::new(DynamicMeta::V2(with_seed), plain_inputs());
    let kept = source.clone().to_v2(None, 0);
    assert_eq!(kept.meta, MetaV2::new(rate(), 0, Some(11)));
    let kept = source.clone().to_v2_preserve_seed(0);
    assert_eq!(kept.meta.rng_seed(), Some(11));
    let replaced = source.to_v2(Some(22), 0);
    assert_eq!(replaced.meta, MetaV2::new(rate(), 0, Some(22)));
    assert!(replaced.meta.is_rng_seed_set());
}

#[test]
fn to_v1_drops_the_seed_without_failing() {
    let source: DynamicReplay =
        Replay::new(DynamicMeta::V2(MetaV2::new(rate(), 9, Some(11))), plain_inputs());
    let converted = source.to_v1(0).expect("a seed is no obstacle");
    assert_eq!(converted.meta, MetaV1::new(rate(), 0));
    assert_eq!(converted.meta.rng_seed(), None);
    assert_eq!(converted.inputs, plain_inputs());
}

#[test]
fn to_v1_fails_on_what_version_1_lacks() {
    let mut inputs = plain_inputs();
    inputs.push(InputCommand::new(3, Input::Bugpoint(BugpointInput)));
    inputs.push(InputCommand::new(4, Input::Tps(TpsInput { tps: rate() })));
    let source: DynamicReplay = Replay::new(DynamicMeta::V2(MetaV2::new(rate(), 0, None)), inputs);
    assert_eq!(
        source.to_v1(0).err(),
        Some("Bugpoint inputs not supported in V1".to_string())
    );
    let mut inputs = plain_inputs();
    inputs.insert(0, InputCommand::new(0, Input::Tps(TpsInput { tps: rate() })));
    inputs.push(InputCommand::new(3, Input::Bugpoint(BugpointInput)));
    let source: DynamicReplay = Replay::new(DynamicMeta::V1(MetaV1::new(rate(), 0)), inputs);
    assert_eq!(source.to_v1(0).err(), Some("TPS changes not supported in V1".to_string()));
}

#[test]
fn conversion_uses_the_reciprocal_only_where_tick_time_is_stored() {
    let stored_dt = MetaV2 { rng_seed: None, tps_or_dt: 0x1234, append_counter: 0, flags: 0 };
    let source: DynamicReplay = Replay::new(DynamicMeta::V2(stored_dt), plain_inputs());
    assert_eq!(source.clone().to_v1(777).unwrap().meta.tps, 777);
    let v2 = source.to_v2(None, 777);
    assert_eq!(v2.meta.tps(), Some(777));
    assert!(!v2.meta.uses_dt());
    let stored_rate: DynamicReplay =
        Replay::new(DynamicMeta::V2(MetaV2::new(rate(), 0, None)), plain_inputs());
    assert_eq!(stored_rate.to_v1(777).unwrap().meta.tps, rate());
}

#[test]
fn converted_replays_can_be_written_and_read() {
    let source: DynamicReplay = Replay::new(DynamicMeta::V1(MetaV1::new(rate(), 0)), plain_inputs());
    let v2 = source.to_v2(Some(5), 0);
    let mut bytes = Vec::new();
    v2.serialize(&mut bytes).unwrap();
    let mut reader = ByteReader::new(&bytes);
    let back = DynamicReplay::from_reader(&mut reader).unwrap();
    assert_eq!(back.meta, DynamicMeta::V2(MetaV2::new(rate(), 0, Some(5))));
    assert_eq!(back.inputs, plain_inputs());
}
