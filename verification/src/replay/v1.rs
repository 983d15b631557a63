//! The control byte of the version-1 input stream: the event code in bits
//! 0 to 2, the second player in bit 6, push in bit 7.
use vstd::prelude::*;
use crate::input::{Input, PlayerButton, RestartInput, RestartType, VanillaInput};
use crate::replay::v2::spec_bit;

verus! {

pub const INPUT_MASK: u8 = 0b111;

pub const PUSH_OFFSET: u8 = 7;

pub const PUSH_MASK: u8 = 0b1000_0000;

pub const PLAYER2_OFFSET: u8 = 6;

pub const PLAYER2_MASK: u8 = 0b100_0000;

/// The byte that ends the stream.
pub const EOM: u8 = 0xCC;

/// The control byte of `input`, if version 1 can hold the event: a button
/// is one less than its wire code, a restart is 3 more than its wire code
/// and loses its seed.
pub open spec fn spec_serialize_input(input: Input) -> Option<u8> {
    match input {
        Input::Vanilla(v) => Some(
            ((v.button.spec_code() - 1) + 64 * spec_bit(v.player2) + 128 * spec_bit(v.push)) as u8,
        ),
        Input::Restart(r) => Some((3 + r.restart_type.spec_code()) as u8),
        _ => None,
    }
}

/// The control byte of `input`, or `None` for an event that version 1
/// cannot hold.
pub fn serialize_input(input: &Input) -> (r: Option<u8>)
    ensures
        r == spec_serialize_input(*input),
{
    match input {
        Input::Vanilla(vanilla) => {
            let raw: u8 = vanilla.button.code() - 1;
            assert((raw & 7) == raw) by (bit_vector)
                requires
                    raw < 3,
            ;
            let code: u8 = raw & INPUT_MASK;
            let push_bit: u8 = if vanilla.push {
                PUSH_MASK
            } else {
                0
            };
            let player2_bit: u8 = if vanilla.player2 {
                PLAYER2_MASK
            } else {
                0
            };
            assert((code | push_bit | player2_bit) == code + push_bit + player2_bit)
                by (bit_vector)
                requires
                    code < 8,
                    push_bit == 0 || push_bit == 128,
                    player2_bit == 0 || player2_bit == 64,
            ;
            Some(code | push_bit | player2_bit)
        },
        Input::Restart(restart) => match restart.restart_type {
            RestartType::Restart => Some(3),
            RestartType::RestartFull => Some(4),
            RestartType::Death => Some(5),
        },
        _ => None,
    }
}

/// The event that the control byte `data` holds, if its code is one of
/// the six that are in use.  Bits 3 to 5 are ignored.
pub open spec fn spec_deserialize_input(data: u8) -> Option<Input> {
    let code = (data % 8) as u8;
    if code < 3 {
        Some(
            Input::Vanilla(
                VanillaInput {
                    button: PlayerButton::spec_from_code((code + 1) as u8).unwrap(),
                    push: data / 128 == 1,
                    player2: (data / 64) % 2 == 1,
                },
            ),
        )
    } else if code < 6 {
        Some(
            Input::Restart(
                RestartInput {
                    restart_type: RestartType::spec_from_code((code - 3) as u8).unwrap(),
                    new_seed: None,
                },
            ),
        )
    } else {
        None
    }
}

/// The event that the control byte `data` holds, or `None` for a code
/// that is not in use.
pub fn deserialize_input(data: u8) -> (r: Option<Input>)
    ensures
        r == spec_deserialize_input(data),
{
    assert((data & 0b111) == data % 8 && ((data & 0b1000_0000) != 0) == (data / 128 == 1) && ((
    data & 0b100_0000) != 0) == ((data / 64) % 2 == 1)) by (bit_vector);
    let input: u8 = data & INPUT_MASK;
    if input < 3 {
        let button = match PlayerButton::try_from(input + 1) {
            Ok(b) => b,
            Err(_) => {
                return None;
            },
        };
        return Some(
            Input::Vanilla(
                VanillaInput {
                    button,
                    push: (data & PUSH_MASK) != 0,
                    player2: (data & PLAYER2_MASK) != 0,
                },
            ),
        );
    }
    match input {
        3 => Some(
            Input::Restart(RestartInput { restart_type: RestartType::Restart, new_seed: None }),
        ),
        4 => Some(
            Input::Restart(RestartInput { restart_type: RestartType::RestartFull, new_seed: None }),
        ),
        5 => Some(Input::Restart(RestartInput { restart_type: RestartType::Death, new_seed: None })),
        _ => None,
    }
}

/// An event that version 1 can hold in full: a button event, or a restart
/// without a seed.
pub open spec fn spec_representable(input: Input) -> bool {
    match input {
        Input::Vanilla(_) => true,
        Input::Restart(r) => r.new_seed is None,
        _ => false,
    }
}

/// The control byte of an event that version 1 can hold in full is read
/// as that event.
pub proof fn lemma_input_round_trip(input: Input)
    requires
        spec_representable(input),
    ensures
        spec_serialize_input(input) is Some,
        spec_deserialize_input(spec_serialize_input(input).unwrap()) == Some(input),
{
    match input {
        Input::Vanilla(v) => {
            let code = (v.button.spec_code() - 1) as u8;
            let b6 = spec_bit(v.player2) as u8;
            let b7 = spec_bit(v.push) as u8;
            let byte = (code + 64 * b6 + 128 * b7) as u8;
            assert(byte % 8 == code && byte / 128 == b7 && (byte / 64) % 2 == b6) by (bit_vector)
                requires
                    code < 3,
                    b6 <= 1,
                    b7 <= 1,
                    byte == code + 64 * b6 + 128 * b7,
            ;
        },
        _ => {},
    }
}

} // verus!
