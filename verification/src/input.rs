//! The events a replay is made of.
use vstd::prelude::*;
use crate::{FloatBits, Frame};

verus! {

/// A button of the player.  On the wire `Jump` is 1, `Left` 2, `Right` 3.
#[derive(Clone, Copy, PartialEq, Eq, Debug)]
pub enum PlayerButton {
    Jump,
    Left,
    Right,
}

impl PlayerButton {
    /// The wire code of the button.
    pub open spec fn spec_code(self) -> u8 {
        match self {
            PlayerButton::Jump => 1,
            PlayerButton::Left => 2,
            PlayerButton::Right => 3,
        }
    }

    /// The button with wire code `value`, if there is one.
    pub open spec fn spec_from_code(value: u8) -> Option<PlayerButton> {
        if value == 1 {
            Some(PlayerButton::Jump)
        } else if value == 2 {
            Some(PlayerButton::Left)
        } else if value == 3 {
            Some(PlayerButton::Right)
        } else {
            None
        }
    }

    /// The wire code of the button.
    pub fn code(self) -> (c: u8)
        ensures
            c == self.spec_code(),
            1 <= c <= 3,
    {
        match self {
            PlayerButton::Jump => 1,
            PlayerButton::Left => 2,
            PlayerButton::Right => 3,
        }
    }
}

impl TryFrom<u8> for PlayerButton {
    type Error = ();

    fn try_from(value: u8) -> (r: Result<Self, ()>) {
        match value {
            1 => Ok(PlayerButton::Jump),
            2 => Ok(PlayerButton::Left),
            3 => Ok(PlayerButton::Right),
            _ => Err(()),
        }
    }
}

impl vstd::std_specs::convert::TryFromSpecImpl<u8> for PlayerButton {
    open spec fn obeys_try_from_spec() -> bool {
        true
    }

    open spec fn try_from_spec(value: u8) -> Result<Self, ()> {
        match PlayerButton::spec_from_code(value) {
            Some(b) => Ok(b),
            None => Err(()),
        }
    }
}

/// What kind of restart an event records.  On the wire `Restart` is 0,
/// `RestartFull` 1, `Death` 2.
#[derive(Clone, Copy, PartialEq, Eq, Debug)]
pub enum RestartType {
    Restart,
    RestartFull,
    Death,
}

impl RestartType {
    /// The wire code of the restart kind.
    pub open spec fn spec_code(self) -> u8 {
        match self {
            RestartType::Restart => 0,
            RestartType::RestartFull => 1,
            RestartType::Death => 2,
        }
    }

    /// The restart kind with wire code `value`, if there is one.
    pub open spec fn spec_from_code(value: u8) -> Option<RestartType> {
        if value == 0 {
            Some(RestartType::Restart)
        } else if value == 1 {
            Some(RestartType::RestartFull)
        } else if value == 2 {
            Some(RestartType::Death)
        } else {
            None
        }
    }

    /// The wire code of the restart kind.
    pub fn code(self) -> (c: u8)
        ensures
            c == self.spec_code(),
            c <= 2,
    {
        match self {
            RestartType::Restart => 0,
            RestartType::RestartFull => 1,
            RestartType::Death => 2,
        }
    }
}

impl TryFrom<u8> for RestartType {
    type Error = ();

    fn try_from(value: u8) -> (r: Result<Self, ()>) {
        match value {
            0 => Ok(RestartType::Restart),
            1 => Ok(RestartType::RestartFull),
            2 => Ok(RestartType::Death),
            _ => Err(()),
        }
    }
}

impl vstd::std_specs::convert::TryFromSpecImpl<u8> for RestartType {
    open spec fn obeys_try_from_spec() -> bool {
        true
    }

    open spec fn try_from_spec(value: u8) -> Result<Self, ()> {
        match RestartType::spec_from_code(value) {
            Some(t) => Ok(t),
            None => Err(()),
        }
    }
}

/// A restart of the level, optionally reseeding the random number generator.
#[derive(Clone, Copy, PartialEq, Eq, Debug)]
pub struct RestartInput {
    pub restart_type: RestartType,
    pub new_seed: Option<u64>,
}

/// A change of the tick rate.
#[derive(Clone, Copy, PartialEq, Eq, Debug)]
pub struct TpsInput {
    /// The new rate in ticks per second, as a bit pattern.
    pub tps: FloatBits,
}

/// A button going down or up.
#[derive(Clone, Copy, PartialEq, Eq, Debug)]
pub struct VanillaInput {
    pub button: PlayerButton,
    pub push: bool,
    pub player2: bool,
}

/// A marker event without payload.
#[derive(Clone, Copy, PartialEq, Eq, Debug)]
pub struct BugpointInput;

/// One event.  Only `Vanilla` and `Restart` can be written in version 1.
#[derive(Clone, Copy, PartialEq, Eq, Debug)]
pub enum Input {
    Vanilla(VanillaInput),
    Restart(RestartInput),
    Tps(TpsInput),
    Bugpoint(BugpointInput),
}

/// An event and the frame on which it happens.
#[derive(Clone, Copy, PartialEq, Eq, Debug)]
pub struct InputCommand {
    pub frame: Frame,
    pub input: Input,
}

impl InputCommand {
    pub fn new(frame: Frame, input: Input) -> (c: Self)
        ensures
            c == (InputCommand { frame, input }),
    {
        Self { frame, input }
    }

    pub open spec fn spec_is_vanilla(&self) -> bool {
        self.input is Vanilla
    }

    /// Whether the event is a button event.
    pub fn is_vanilla(&self) -> (b: bool)
        ensures
            b == self.spec_is_vanilla(),
    {
        match self.input {
            Input::Vanilla(_) => true,
            _ => false,
        }
    }

    /// Whether the event is anything but a button event.
    pub fn is_custom(&self) -> (b: bool)
        ensures
            b == !self.spec_is_vanilla(),
    {
        !self.is_vanilla()
    }

    /// The frame from which the distance to the next event is measured: a
    /// restart puts the running frame counter back to zero.
    pub open spec fn spec_adjusted_frame(&self) -> Frame {
        if self.input is Restart {
            0
        } else {
            self.frame
        }
    }

    /// The frame from which the distance to the next event is measured.
    pub fn adjusted_frame(&self) -> (f: Frame)
        ensures
            f == self.spec_adjusted_frame(),
    {
        match self.input {
            Input::Restart(_) => 0,
            _ => self.frame,
        }
    }
}

} // verus!
