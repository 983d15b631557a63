use tcm::error::TcmError;
use tcm::input::{
    BugpointInput, Input, InputCommand, PlayerButton, RestartInput, RestartType, TpsInput,
    VanillaInput,
};
use tcm::meta::MetaV2;
use tcm::replay::reader::ByteReader;
use tcm::replay::stream_v2::is_swift_pair;
use tcm::replay::v2::{
    craft_input, delta_bits, parse_action, serialize_input, Action, ByteBlob,
    DeserializerDeltaInfo, SerializerDeltaInfo,
};
use tcm::replay::Replay;

fn vanilla(frame: u64, button: PlayerButton, push: bool, player2: bool) -> InputCommand {
    InputCommand::new(frame, Input::Vanilla(VanillaInput { button, push, player2 }))
}

fn restart(frame: u64, restart_type: RestartType, new_seed: Option<u64>) -> InputCommand {
    InputCommand::new(frame, Input::Restart(RestartInput { restart_type, new_seed }))
}

fn tps(frame: u64, value: f32) -> InputCommand {
    InputCommand::new(frame, Input::Tps(TpsInput { tps: value.to_bits() }))
}

fn bugpoint(frame: u64) -> InputCommand {
    InputCommand::new(frame, Input::Bugpoint(BugpointInput))
}

fn encode(inputs: Vec<InputCommand>) -> Result<Vec<u8>, TcmError> {
    let replay = Replay::new(MetaV2::new(240.0f32.to_bits(), 0, None), inputs);
    let mut out = Vec::new();
    replay.serialize_inputs_v2(&mut out)?;
    Ok(out)
}

fn decode(bytes: &[u8]) -> Result<Vec<InputCommand>, TcmError> {
    let mut reader = ByteReader::new(bytes);
    Replay::<MetaV2>::deserialize_inputs_v2(&mut reader)
}

fn sample_inputs() -> Vec<InputCommand> {
    vec![
        vanilla(100, PlayerButton::Jump, true, false),
        vanilla(100, PlayerButton::Jump, false, false),
        vanilla(400, PlayerButton::Left, true, true),
        vanilla(700, PlayerButton::Left, false, true),
        tps(1000, 60.0),
        restart(1001, RestartType::Death, Some(0x1122_3344_5566_7788)),
        bugpoint(50),
        vanilla(50, PlayerButton::Right, true, false),
    ]
}

fn sample_stream() -> Vec<u8> {
    vec![
        0x64, // first frame 100
        0x95, 0x2C, 0x01, // swift jump, gap 300 in two bytes
        0x2E, // left push of player 2, gap repeats
        0x2A, // left release of player 2, gap repeats
        0x4C, 0x00, 0x00, 0x70, 0x42, 0x01, // rate 60.0, gap 1 in one byte
        0x58, 0x88, 0x77, 0x66, 0x55, 0x44, 0x33, 0x22, 0x11, 0x32, // seeded death, gap 50
        0x1C, // marker, gap 0
        0x07, // right push, last
    ]
}

#[test]
fn v2_stream_exact_bytes() {
    assert_eq!(encode(sample_inputs()), Ok(sample_stream()));
}

#[test]
fn v2_stream_exact_events() {
    assert_eq!(decode(&sample_stream()), Ok(sample_inputs()));
}

#[test]
fn v2_stream_round_trip_both_ways() {
    let bytes = encode(sample_inputs()).unwrap();
    let events = decode(&bytes).unwrap();
    assert_eq!(events, sample_inputs());
    assert_eq!(encode(events), Ok(bytes));
}

#[test]
fn v2_no_events_is_no_bytes() {
    assert_eq!(encode(vec![]), Ok(vec![]));
    assert_eq!(decode(&[]), Ok(vec![]));
}

#[test]
fn v2_start_frame_alone_is_no_events() {
    assert_eq!(decode(&[0x64]), Ok(vec![]));
}

#[test]
fn v2_appends_to_what_is_there() {
    let replay = Replay::new(
        MetaV2::new(240.0f32.to_bits(), 0, None),
        vec![vanilla(5, PlayerButton::Jump, true, false)],
    );
    let mut out = vec![0xEEu8];
    assert_eq!(replay.serialize_inputs_v2(&mut out), Ok(()));
    assert_eq!(out, vec![0xEE, 0x05, 0x05]);
}

#[test]
fn v2_single_events_round_trip() {
    for event in [
        vanilla(0, PlayerButton::Jump, true, false),
        vanilla(7, PlayerButton::Left, false, true),
        vanilla(u32::MAX as u64, PlayerButton::Right, true, true),
        restart(3, RestartType::Restart, None),
        restart(3, RestartType::RestartFull, Some(0)),
        restart(3, RestartType::Death, Some(u64::MAX)),
        tps(9, 240.0),
        bugpoint(12),
    ] {
        let bytes = encode(vec![event]).unwrap();
        assert_eq!(decode(&bytes), Ok(vec![event]));
    }
}

#[test]
fn v2_trailing_payloads_are_written() {
    // A rate change or a seeded restart at the very end keeps its payload.
    assert_eq!(
        encode(vec![tps(1, 240.0)]),
        Ok(vec![0x01, 0x0C, 0x00, 0x00, 0x70, 0x43])
    );
    assert_eq!(
        encode(vec![restart(1, RestartType::RestartFull, Some(2))]),
        Ok(vec![0x01, 0x14, 2, 0, 0, 0, 0, 0, 0, 0])
    );
}

#[test]
fn swift_pair_is_one_byte_with_extra_bit() {
    let first = vanilla(9, PlayerButton::Left, false, true);
    let second = vanilla(9, PlayerButton::Left, true, true);
    assert!(is_swift_pair(&first, &second));
    let bytes = encode(vec![first, second]).unwrap();
    assert_eq!(bytes, vec![0x09, 0x1A]);
    assert_ne!(bytes[1] & 0x10, 0);
    assert_eq!(decode(&bytes), Ok(vec![first, second]));
}

#[test]
fn swift_needs_same_frame_button_player_and_opposite_push() {
    let base = vanilla(9, PlayerButton::Left, false, true);
    assert!(!is_swift_pair(&base, &vanilla(10, PlayerButton::Left, true, true)));
    assert!(!is_swift_pair(&base, &vanilla(9, PlayerButton::Right, true, true)));
    assert!(!is_swift_pair(&base, &vanilla(9, PlayerButton::Left, true, false)));
    assert!(!is_swift_pair(&base, &vanilla(9, PlayerButton::Left, false, true)));
    assert!(!is_swift_pair(&base, &bugpoint(9)));
    assert!(!is_swift_pair(&bugpoint(9), &bugpoint(9)));
    // Two same-frame events that are no swift pair take a byte each.
    let bytes = encode(vec![base, vanilla(9, PlayerButton::Right, true, true)]).unwrap();
    assert_eq!(bytes, vec![0x09, 0x0A, 0x0F]);
}

#[test]
fn three_in_a_row_pair_only_the_first_two() {
    let a = vanilla(4, PlayerButton::Jump, true, false);
    let b = vanilla(4, PlayerButton::Jump, false, false);
    let c = vanilla(4, PlayerButton::Jump, true, false);
    let bytes = encode(vec![a, b, c]).unwrap();
    assert_eq!(bytes, vec![0x04, 0x15, 0x05]);
    assert_eq!(decode(&bytes), Ok(vec![a, b, c]));
}

#[test]
fn repeated_gap_uses_magic_in_no_bytes() {
    let inputs = vec![
        vanilla(1000, PlayerButton::Jump, true, false),
        vanilla(1300, PlayerButton::Jump, false, false),
        vanilla(1600, PlayerButton::Jump, true, false),
    ];
    let bytes = encode(inputs.clone()).unwrap();
    // varint 1000, action + 2 bytes of gap, action with magic and no bytes, last action
    assert_eq!(bytes, vec![0xE8, 0x07, 0x85, 0x2C, 0x01, 0x21, 0x05]);
    assert_eq!(decode(&bytes), Ok(inputs));
    let direct = SerializerDeltaInfo::new(300, 0);
    let relative = SerializerDeltaInfo::new(300, 300);
    assert_eq!(direct.blob, ByteBlob::Two);
    assert!(!direct.magic());
    assert_eq!(relative.blob, ByteBlob::Zero);
    assert!(relative.magic());
    assert!(relative.blob.max() < direct.blob.max());
}

#[test]
fn frames_after_restart_count_from_zero() {
    let inputs = vec![
        vanilla(5000, PlayerButton::Jump, true, false),
        restart(6000, RestartType::Restart, None),
        vanilla(10, PlayerButton::Jump, false, false),
        restart(20, RestartType::Death, Some(7)),
        vanilla(3, PlayerButton::Left, true, false),
    ];
    let bytes = encode(inputs.clone()).unwrap();
    let events = decode(&bytes).unwrap();
    assert_eq!(events, inputs);
    assert_eq!(events[2].frame, 10);
    assert_eq!(events[4].frame, 3);
    // The restart's own frame does not move what comes after it.
    let moved = vec![
        vanilla(5000, PlayerButton::Jump, true, false),
        restart(5001, RestartType::Restart, None),
        vanilla(10, PlayerButton::Jump, false, false),
    ];
    let events = decode(&encode(moved).unwrap()).unwrap();
    assert_eq!(events[1].frame, 5001);
    assert_eq!(events[2].frame, 10);
}

#[test]
fn v2_gap_too_big_fails() {
    let inputs = vec![
        vanilla(0, PlayerButton::Jump, true, false),
        vanilla(1u64 << 33, PlayerButton::Jump, false, false),
    ];
    let mut out = vec![1u8, 2, 3];
    let replay = Replay::new(MetaV2::new(0, 0, None), inputs);
    assert_eq!(
        replay.serialize_inputs_v2(&mut out),
        Err(TcmError::SerializationError { message: "Delta too big".to_string() })
    );
    assert_eq!(out, vec![1, 2, 3]);
}

#[test]
fn v2_gap_beyond_32_bits_relative_to_last() {
    let big = (1u64 << 32) + 5;
    let inputs = vec![
        vanilla(0, PlayerButton::Jump, true, false),
        vanilla(10, PlayerButton::Jump, false, false),
        vanilla(10 + big, PlayerButton::Jump, true, false),
    ];
    let bytes = encode(inputs.clone()).unwrap();
    assert_eq!(decode(&bytes), Ok(inputs));
}

#[test]
fn v2_first_frame_keeps_low_32_bits_only() {
    let bytes = encode(vec![vanilla((1u64 << 32) + 5, PlayerButton::Jump, true, false)]).unwrap();
    assert_eq!(bytes, vec![0x05, 0x05]);
    assert_eq!(decode(&bytes), Ok(vec![vanilla(5, PlayerButton::Jump, true, false)]));
}

#[test]
fn v2_frames_going_back_are_written_as_no_gap() {
    let bytes = encode(vec![
        vanilla(10, PlayerButton::Jump, true, false),
        vanilla(4, PlayerButton::Left, true, false),
    ])
    .unwrap();
    assert_eq!(bytes, vec![0x0A, 0x05, 0x06]);
    assert_eq!(
        decode(&bytes),
        Ok(vec![
            vanilla(10, PlayerButton::Jump, true, false),
            vanilla(10, PlayerButton::Left, true, false),
        ])
    );
}

#[test]
fn v2_truncated_payloads_are_errors() {
    assert_eq!(
        decode(&[0x01, 0x0C, 0x00, 0x00]),
        Err(TcmError::UnexpectedEof { context: "tps value".to_string() })
    );
    assert_eq!(
        decode(&[0x01, 0x14, 1, 2, 3]),
        Err(TcmError::UnexpectedEof { context: "restart seed".to_string() })
    );
    assert_eq!(
        decode(&[0x01, 0x85, 0x2C]),
        Err(TcmError::UnexpectedEof { context: "frame delta".to_string() })
    );
    assert_eq!(
        decode(&[0x80]),
        Err(TcmError::UnexpectedEof { context: "variable-length integer".to_string() })
    );
}

#[test]
fn v2_end_after_an_action_is_the_end() {
    // The gap of the last action may be stored and nothing follow it.
    assert_eq!(
        decode(&[0x01, 0x45, 0x09]),
        Ok(vec![vanilla(1, PlayerButton::Jump, true, false)])
    );
}

#[test]
fn v2_magic_without_a_last_gap_adds_nothing() {
    // magic flag, one byte: stored 9 plus remembered 0
    assert_eq!(
        decode(&[0x01, 0x65, 0x09, 0x06]),
        Ok(vec![
            vanilla(1, PlayerButton::Jump, true, false),
            vanilla(10, PlayerButton::Left, true, false),
        ])
    );
}

#[test]
fn craft_input_packs_bits() {
    assert_eq!(craft_input(1, false, false, false), 0b0_0001);
    assert_eq!(craft_input(2, true, false, false), 0b0_0110);
    assert_eq!(craft_input(3, false, true, false), 0b0_1011);
    assert_eq!(craft_input(1, true, true, true), 0b1_1101);
    // Only the two low bits of the button are taken.
    assert_eq!(craft_input(0xFD, false, false, false), 0b0_0001);
}

#[test]
fn serialize_input_low_five_bits() {
    let jump = Input::Vanilla(VanillaInput { button: PlayerButton::Jump, push: true, player2: false });
    assert_eq!(serialize_input(&jump, false), 0x05);
    assert_eq!(serialize_input(&jump, true), 0x15);
    let plain = Input::Restart(RestartInput { restart_type: RestartType::RestartFull, new_seed: None });
    assert_eq!(serialize_input(&plain, false), 0x04);
    let seeded = Input::Restart(RestartInput { restart_type: RestartType::Death, new_seed: Some(1) });
    assert_eq!(serialize_input(&seeded, false), 0x18);
    assert_eq!(serialize_input(&Input::Tps(TpsInput { tps: 0 }), false), 0x0C);
    assert_eq!(serialize_input(&Input::Bugpoint(BugpointInput), false), 0x1C);
}

#[test]
fn parse_action_reads_what_serialize_input_wrote() {
    assert_eq!(
        parse_action(0x15),
        Action::Button {
            input: VanillaInput { button: PlayerButton::Jump, push: true, player2: false },
            swift: true
        }
    );
    assert_eq!(
        parse_action(0xEB),
        Action::Button {
            input: VanillaInput { button: PlayerButton::Right, push: false, player2: true },
            swift: false
        }
    );
    assert_eq!(parse_action(0x0C), Action::Tps);
    assert_eq!(parse_action(0x1C), Action::Bugpoint);
    assert_eq!(
        parse_action(0x00),
        Action::Restart { restart_type: RestartType::Restart, seeded: false }
    );
    assert_eq!(
        parse_action(0x18),
        Action::Restart { restart_type: RestartType::Death, seeded: true }
    );
    assert_eq!(delta_bits(0xE0), 7);
    assert_eq!(delta_bits(0x1F), 0);
    assert_eq!(delta_bits(0x95), 4);
}

#[test]
fn byte_blob_widths() {
    assert_eq!(
        ByteBlob::iter(),
        vec![ByteBlob::Zero, ByteBlob::One, ByteBlob::Two, ByteBlob::Four]
    );
    assert_eq!(ByteBlob::Zero.max(), 0);
    assert_eq!(ByteBlob::One.max(), 255);
    assert_eq!(ByteBlob::Two.max(), 65535);
    assert_eq!(ByteBlob::Four.max(), 4294967295);
    assert_eq!(ByteBlob::Zero.width(), 0);
    assert_eq!(ByteBlob::Four.width(), 4);
    assert_eq!(ByteBlob::Four.selector(), 3);
    assert_eq!(ByteBlob::try_from(0u8), Ok(ByteBlob::Zero));
    assert_eq!(ByteBlob::try_from(1u8), Ok(ByteBlob::One));
    assert_eq!(ByteBlob::try_from(2u8), Ok(ByteBlob::Two));
    assert_eq!(ByteBlob::try_from(3u8), Ok(ByteBlob::Four));
    assert_eq!(ByteBlob::try_from(4u8), Err(()));
}

#[test]
fn byte_blob_serialize_little_endian() {
    let mut out = Vec::new();
    ByteBlob::Zero.serialize(&mut out, 0);
    assert!(out.is_empty());
    ByteBlob::One.serialize(&mut out, 0xAB);
    ByteBlob::Two.serialize(&mut out, 0x1234);
    ByteBlob::Four.serialize(&mut out, 0x89AB_CDEF);
    assert_eq!(out, vec![0xAB, 0x34, 0x12, 0xEF, 0xCD, 0xAB, 0x89]);
}

#[test]
fn delta_info_greedy_choice() {
    let pick = |delta: u64, last: u64| SerializerDeltaInfo::try_new(delta, last).map(|i| (i.blob, i.magic()));
    assert_eq!(pick(0, 0), Some((ByteBlob::Zero, false)));
    assert_eq!(pick(0, 77), Some((ByteBlob::Zero, false)));
    assert_eq!(pick(77, 77), Some((ByteBlob::Zero, true)));
    assert_eq!(pick(1, 0), Some((ByteBlob::One, false)));
    assert_eq!(pick(255, 0), Some((ByteBlob::One, false)));
    assert_eq!(pick(256, 0), Some((ByteBlob::Two, false)));
    assert_eq!(pick(256, 1), Some((ByteBlob::One, true)));
    assert_eq!(pick(256, 300), Some((ByteBlob::Two, false)));
    assert_eq!(pick(65535, 0), Some((ByteBlob::Two, false)));
    assert_eq!(pick(65536, 0), Some((ByteBlob::Four, false)));
    assert_eq!(pick(65536, 65000), Some((ByteBlob::Two, true)));
    assert_eq!(pick(4294967295, 0), Some((ByteBlob::Four, false)));
    assert_eq!(pick(4294967296, 0), None);
    assert_eq!(pick(4294967296, 1), Some((ByteBlob::Four, true)));
    assert_eq!(pick(4294967296 + 4294967296, 1), None);
    assert_eq!(pick(5, 9), Some((ByteBlob::One, false)));
}

#[test]
fn delta_info_craft_and_serialize() {
    let info = SerializerDeltaInfo::new(300, 0);
    assert_eq!(info.delta, 300);
    assert!(!info.empty());
    assert_eq!(info.craft(), 0b100);
    let mut out = Vec::new();
    assert_eq!(info.serialize(&mut out), Ok(()));
    assert_eq!(out, vec![0x2C, 0x01]);

    let info = SerializerDeltaInfo::new(300, 290);
    assert_eq!(info.craft(), 0b011);
    let mut out = Vec::new();
    assert_eq!(info.serialize(&mut out), Ok(()));
    assert_eq!(out, vec![10]);

    let info = SerializerDeltaInfo::new(300, 300);
    assert!(info.empty());
    assert_eq!(info.craft(), 0b001);
    let mut out = vec![1u8];
    assert_eq!(
        info.serialize(&mut out),
        Err(TcmError::InvalidInput { message: "Cannot serialize empty delta".to_string() })
    );
    assert_eq!(out, vec![1]);

    let none = SerializerDeltaInfo::default();
    assert!(none.empty());
    assert!(!none.magic());
    assert_eq!(none.craft(), 0);
    assert_eq!(none.delta, 0);
}

#[test]
fn deserializer_delta_info_reads() {
    let info = DeserializerDeltaInfo::new(0b100, 50);
    assert_eq!(info.blob, ByteBlob::Two);
    assert_eq!(info.last_delta, None);
    assert!(!info.empty());
    let bytes = [0x2Cu8, 0x01, 0xFF];
    let mut reader = ByteReader::new(&bytes);
    let mut last = 50u64;
    assert_eq!(info.read(&mut reader, &mut last), Ok(300));
    assert_eq!(last, 300);
    assert_eq!(reader.pos, 2);

    let info = DeserializerDeltaInfo::new(0b011, 50);
    assert_eq!(info.blob, ByteBlob::One);
    assert_eq!(info.last_delta, Some(50));
    let bytes = [0x05u8];
    let mut reader = ByteReader::new(&bytes);
    let mut last = 50u64;
    assert_eq!(info.read(&mut reader, &mut last), Ok(55));
    assert_eq!(last, 55);

    // empty and magic: the last gap again, nothing read
    let info = DeserializerDeltaInfo::new(0b001, 50);
    assert!(info.empty());
    let mut reader = ByteReader::new(&bytes);
    let mut last = 50u64;
    assert_eq!(info.read(&mut reader, &mut last), Ok(50));
    assert_eq!((last, reader.pos), (50, 0));

    // empty and not magic: no gap
    let info = DeserializerDeltaInfo::new(0b000, 50);
    let mut last = 50u64;
    assert_eq!(info.read(&mut reader, &mut last), Ok(0));
    assert_eq!((last, reader.pos), (50, 0));

    // a stored gap of zero leaves the remembered one
    let info = DeserializerDeltaInfo::new(0b010, 50);
    let zero = [0u8];
    let mut reader = ByteReader::new(&zero);
    let mut last = 50u64;
    assert_eq!(info.read(&mut reader, &mut last), Ok(0));
    assert_eq!((last, reader.pos), (50, 1));

    // higher bits of the control are ignored
    assert_eq!(DeserializerDeltaInfo::new(0b1111_1110, 1).blob, ByteBlob::Four);
    let none = DeserializerDeltaInfo::default();
    assert_eq!((none.blob, none.last_delta), (ByteBlob::Zero, None));
}

#[test]
fn deserializer_delta_info_errors() {
    let info = DeserializerDeltaInfo::new(0b110, 0);
    let bytes = [1u8, 2, 3];
    let mut reader = ByteReader::new(&bytes);
    let mut last = 9u64;
    assert_eq!(
        info.read(&mut reader, &mut last),
        Err(TcmError::UnexpectedEof { context: "frame delta".to_string() })
    );
    assert_eq!(last, 9);

    let info = DeserializerDeltaInfo::new(0b011, u64::MAX);
    let one = [1u8];
    let mut reader = ByteReader::new(&one);
    let mut last = u64::MAX;
    assert_eq!(
        info.read(&mut reader, &mut last),
        Err(TcmError::DeserializationError { message: "frame delta overflows".to_string() })
    );
    assert_eq!(last, u64::MAX);
}

#[test]
fn v2_running_frame_overflow_is_an_error() {
    // first frame u32::MAX, then gaps of u32::MAX + last gap, growing until 64 bits overflow
    let mut bytes = vec![0xFF, 0xFF, 0xFF, 0xFF, 0x0F];
    bytes.extend_from_slice(&[0xC5, 0xFF, 0xFF, 0xFF, 0xFF]);
    for _ in 0..100000 {
        bytes.extend_from_slice(&[0xE5, 0xFF, 0xFF, 0xFF, 0xFF]);
    }
    let result = decode(&bytes);
    assert_eq!(
        result,
        Err(TcmError::DeserializationError { message: "frame number overflows".to_string() })
    );
}
