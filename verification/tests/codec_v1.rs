use tcm::error::TcmError;
use tcm::input::{
    BugpointInput, Input, InputCommand, PlayerButton, RestartInput, RestartType, TpsInput,
    VanillaInput,
};
use tcm::meta::MetaV1;
use tcm::replay::reader::ByteReader;
use tcm::replay::v1::{deserialize_input, serialize_input, EOM};
use tcm::replay::Replay;

fn vanilla(frame: u64, button: PlayerButton, push: bool, player2: bool) -> InputCommand {
    InputCommand::new(frame, Input::Vanilla(VanillaInput { button, push, player2 }))
}

fn restart(frame: u64, restart_type: RestartType, new_seed: Option<u64>) -> InputCommand {
    InputCommand::new(frame, Input::Restart(RestartInput { restart_type, new_seed }))
}

fn encode_v1(inputs: Vec<InputCommand>) -> Result<Vec<u8>, TcmError> {
    let replay = Replay::new(MetaV1::new(240.0f32.to_bits(), 0), inputs);
    let mut out = Vec::new();
    replay.serialize_inputs_v1(&mut out)?;
    Ok(out)
}

fn decode_v1(bytes: &[u8]) -> Result<Vec<InputCommand>, TcmError> {
    let mut reader = ByteReader::new(bytes);
    Replay::<MetaV1>::deserialize_inputs_v1(&mut reader)
}

fn sample_inputs_v1() -> Vec<InputCommand> {
    vec![
        vanilla(10, PlayerButton::Jump, true, false),
        vanilla(300, PlayerButton::Jump, false, false),
        restart(301, RestartType::Restart, None),
        vanilla(5, PlayerButton::Left, true, true),
        restart(6, RestartType::RestartFull, None),
        restart(7, RestartType::Death, None),
        vanilla(8, PlayerButton::Right, false, true),
    ]
}

fn sample_stream_v1() -> Vec<u8> {
    vec![
        0x07, // seven events
        0x0A, 0x80, // frame 10, jump push
        0xAC, 0x02, 0x00, // frame 300, jump release
        0xAD, 0x02, 0x03, // frame 301, restart
        0x05, 0xC1, // frame 5, left push of player 2
        0x06, 0x04, // frame 6, full restart
        0x07, 0x05, // frame 7, death
        0x08, 0x42, // frame 8, right release of player 2
        0xCC,
    ]
}

#[test]
fn v1_stream_exact_bytes() {
    assert_eq!(encode_v1(sample_inputs_v1()), Ok(sample_stream_v1()));
}

#[test]
fn v1_stream_exact_events() {
    assert_eq!(decode_v1(&sample_stream_v1()), Ok(sample_inputs_v1()));
}

#[test]
fn v1_no_events() {
    assert_eq!(encode_v1(vec![]), Ok(vec![0x00, EOM]));
    assert_eq!(decode_v1(&[0x00, EOM]), Ok(vec![]));
}

#[test]
fn v1_stops_before_the_terminator() {
    let bytes = sample_stream_v1();
    let mut reader = ByteReader::new(&bytes);
    let events = Replay::<MetaV1>::deserialize_inputs_v1(&mut reader).unwrap();
    assert_eq!(events.len(), 7);
    assert_eq!(reader.pos, bytes.len() - 1);
    assert_eq!(reader.read_u8(), Some(EOM));
    // The terminator is not looked at: the stream may end without it.
    assert_eq!(decode_v1(&bytes[..bytes.len() - 1]), Ok(sample_inputs_v1()));
}

#[test]
fn v1_unsupported_input_type_fails() {
    let unsupported = TcmError::InvalidInput {
        message: "Unsupported input type in v1 replay".to_string(),
    };
    let with_tps = vec![
        vanilla(1, PlayerButton::Jump, true, false),
        InputCommand::new(2, Input::Tps(TpsInput { tps: 60.0f32.to_bits() })),
    ];
    let replay = Replay::new(MetaV1::new(0, 0), with_tps);
    let mut out = vec![0x11u8];
    assert_eq!(replay.serialize_inputs_v1(&mut out), Err(unsupported));
    assert_eq!(out, vec![0x11]);
    let with_bugpoint = vec![InputCommand::new(2, Input::Bugpoint(BugpointInput))];
    assert!(matches!(encode_v1(with_bugpoint), Err(TcmError::InvalidInput { .. })));
}

#[test]
fn v1_drops_the_seed_of_a_restart() {
    let bytes = encode_v1(vec![restart(4, RestartType::Death, Some(99))]).unwrap();
    assert_eq!(bytes, vec![0x01, 0x04, 0x05, EOM]);
    assert_eq!(decode_v1(&bytes), Ok(vec![restart(4, RestartType::Death, None)]));
}

#[test]
fn v1_frame_keeps_low_32_bits_only() {
    let bytes = encode_v1(vec![vanilla((7u64 << 32) + 9, PlayerButton::Jump, false, false)]).unwrap();
    assert_eq!(bytes, vec![0x01, 0x09, 0x00, EOM]);
}

#[test]
fn v1_bad_streams() {
    assert_eq!(
        decode_v1(&[]),
        Err(TcmError::UnexpectedEof { context: "variable-length integer".to_string() })
    );
    assert_eq!(
        decode_v1(&[0x02, 0x0A, 0x80]),
        Err(TcmError::UnexpectedEof { context: "variable-length integer".to_string() })
    );
    assert_eq!(
        decode_v1(&[0x01, 0x0A]),
        Err(TcmError::UnexpectedEof { context: "input byte".to_string() })
    );
    assert_eq!(
        decode_v1(&[0x01, 0x0A, 0x06]),
        Err(TcmError::DeserializationError {
            message: "Invalid input byte in v1 replay".to_string()
        })
    );
    assert!(matches!(
        decode_v1(&[0x01, 0x0A, 0x87]),
        Err(TcmError::DeserializationError { .. })
    ));
}

#[test]
fn v1_control_byte_values() {
    let jump = Input::Vanilla(VanillaInput { button: PlayerButton::Jump, push: false, player2: false });
    let left = Input::Vanilla(VanillaInput { button: PlayerButton::Left, push: true, player2: false });
    let right = Input::Vanilla(VanillaInput { button: PlayerButton::Right, push: true, player2: true });
    assert_eq!(serialize_input(&jump), Some(0x00));
    assert_eq!(serialize_input(&left), Some(0x81));
    assert_eq!(serialize_input(&right), Some(0xC2));
    let restart = |restart_type| Input::Restart(RestartInput { restart_type, new_seed: None });
    assert_eq!(serialize_input(&restart(RestartType::Restart)), Some(3));
    assert_eq!(serialize_input(&restart(RestartType::RestartFull)), Some(4));
    assert_eq!(serialize_input(&restart(RestartType::Death)), Some(5));
    assert_eq!(serialize_input(&Input::Tps(TpsInput { tps: 1 })), None);
    assert_eq!(serialize_input(&Input::Bugpoint(BugpointInput)), None);

    assert_eq!(deserialize_input(0x00), Some(jump));
    assert_eq!(deserialize_input(0x81), Some(left));
    assert_eq!(deserialize_input(0xC2), Some(right));
    assert_eq!(deserialize_input(3), Some(restart(RestartType::Restart)));
    assert_eq!(deserialize_input(4), Some(restart(RestartType::RestartFull)));
    assert_eq!(deserialize_input(5), Some(restart(RestartType::Death)));
    assert_eq!(deserialize_input(6), None);
    assert_eq!(deserialize_input(7), None);
    // Bits 3 to 5 are ignored.
    assert_eq!(deserialize_input(0x38), Some(jump));
}

#[test]
fn v1_every_control_byte_that_is_written_is_read_back() {
    for button in [PlayerButton::Jump, PlayerButton::Left, PlayerButton::Right] {
        for push in [false, true] {
            for player2 in [false, true] {
                let input = Input::Vanilla(VanillaInput { button, push, player2 });
                let byte = serialize_input(&input).unwrap();
                assert_eq!(deserialize_input(byte), Some(input));
            }
        }
    }
}
