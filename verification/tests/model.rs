use tcm::error::TcmError;
use tcm::input::{
    BugpointInput, Input, InputCommand, PlayerButton, RestartInput, RestartType, TpsInput,
    VanillaInput,
};
use tcm::meta::MetaV2;
use tcm::replay::Replay;

#[test]
fn button_codes() {
    assert_eq!(PlayerButton::Jump.code(), 1);
    assert_eq!(PlayerButton::Left.code(), 2);
    assert_eq!(PlayerButton::Right.code(), 3);
    assert_eq!(PlayerButton::try_from(1u8), Ok(PlayerButton::Jump));
    assert_eq!(PlayerButton::try_from(2u8), Ok(PlayerButton::Left));
    assert_eq!(PlayerButton::try_from(3u8), Ok(PlayerButton::Right));
    assert_eq!(PlayerButton::try_from(0u8), Err(()));
    assert_eq!(PlayerButton::try_from(4u8), Err(()));
}

#[test]
fn restart_codes() {
    assert_eq!(RestartType::Restart.code(), 0);
    assert_eq!(RestartType::RestartFull.code(), 1);
    assert_eq!(RestartType::Death.code(), 2);
    assert_eq!(RestartType::try_from(0u8), Ok(RestartType::Restart));
    assert_eq!(RestartType::try_from(1u8), Ok(RestartType::RestartFull));
    assert_eq!(RestartType::try_from(2u8), Ok(RestartType::Death));
    assert_eq!(RestartType::try_from(3u8), Err(()));
}

#[test]
fn input_command_kinds_and_adjusted_frame() {
    let button = InputCommand::new(
        7,
        Input::Vanilla(VanillaInput { button: PlayerButton::Jump, push: true, player2: false }),
    );
    assert!(button.is_vanilla());
    assert!(!button.is_custom());
    assert_eq!(button.adjusted_frame(), 7);
    let restart = InputCommand::new(
        7,
        Input::Restart(RestartInput { restart_type: RestartType::Restart, new_seed: Some(1) }),
    );
    assert!(!restart.is_vanilla());
    assert!(restart.is_custom());
    assert_eq!(restart.adjusted_frame(), 0);
    let tps = InputCommand::new(7, Input::Tps(TpsInput { tps: 1 }));
    assert!(tps.is_custom());
    assert_eq!(tps.adjusted_frame(), 7);
    let bugpoint = InputCommand::new(9, Input::Bugpoint(BugpointInput));
    assert!(bugpoint.is_custom());
    assert_eq!(bugpoint.adjusted_frame(), 9);
    assert_eq!(bugpoint.frame, 9);
}

#[test]
fn replay_constructors() {
    let empty = Replay::<MetaV2>::new_empty(5);
    assert_eq!(empty.meta, MetaV2::new(5, 0, None));
    assert!(empty.inputs.is_empty());
    let inputs = vec![InputCommand::new(9, Input::Bugpoint(BugpointInput))];
    let replay = Replay::new(MetaV2::new(5, 1, Some(2)), inputs.clone());
    assert_eq!(replay.meta, MetaV2::new(5, 1, Some(2)));
    assert_eq!(replay.inputs, inputs);
}

#[test]
fn error_constructors() {
    assert_eq!(
        TcmError::invalid_format("a"),
        TcmError::InvalidFormat { message: "a".to_string() }
    );
    assert_eq!(
        TcmError::invalid_input("b"),
        TcmError::InvalidInput { message: "b".to_string() }
    );
    assert_eq!(
        TcmError::invalid_metadata("c"),
        TcmError::InvalidMetadata { message: "c".to_string() }
    );
    assert_eq!(
        TcmError::unexpected_eof("d"),
        TcmError::UnexpectedEof { context: "d".to_string() }
    );
    assert_eq!(
        TcmError::serialization_error("e"),
        TcmError::SerializationError { message: "e".to_string() }
    );
    assert_eq!(
        TcmError::deserialization_error("f"),
        TcmError::DeserializationError { message: "f".to_string() }
    );
    assert_ne!(TcmError::invalid_format("a"), TcmError::invalid_input("a"));
}
