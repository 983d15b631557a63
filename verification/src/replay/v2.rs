//! The pieces of the version-2 input stream: the action byte, the width of
//! a frame delta and the choice of how a delta is written.
use vstd::prelude::*;
use crate::error::{TcmError, TcmErrorView};
use crate::input::{Input, PlayerButton, RestartType, VanillaInput};
use crate::replay::reader::{spec_le_bytes, spec_le_value, write_le, ByteReader};
use crate::{FloatBits, Frame};

verus! {

pub const PUSH_OFFSET: u8 = 2;

pub const PLAYER2_OFFSET: u8 = 3;

pub const CUSTOM_OFFSET: u8 = 2;

pub const EXTRA_OFFSET: u8 = 4;

pub const DELTA_OFFSET: u8 = 5;

pub const INPUT_MASK: u8 = 0b11;

pub const PUSH_MASK: u8 = 0b100;

pub const PLAYER2_MASK: u8 = 0b1000;

pub const CUSTOM_MASK: u8 = 0b1100;

pub const EXTRA_MASK: u8 = 0b1_0000;

pub const DELTA_DATA_MASK: u8 = 0b1110_0000;

/// One for `true`, zero for `false`.
pub open spec fn spec_bit(b: bool) -> nat {
    if b {
        1
    } else {
        0
    }
}

/// The low five bits of an action byte for a button event: the two low
/// bits of `button`, then push, second player and the swift bit.
pub open spec fn spec_craft_input(button: u8, push: bool, player2: bool, swift: bool) -> u8 {
    (button % 4 + 4 * spec_bit(push) + 8 * spec_bit(player2) + 16 * spec_bit(swift)) as u8
}

/// The low five bits of an action byte for a button event.
pub fn craft_input(button: u8, push: bool, player2: bool, swift: bool) -> (byte: u8)
    ensures
        byte == spec_craft_input(button, push, player2, swift),
        byte < 32,
{
    let code: u8 = button & INPUT_MASK;
    let push_bit: u8 = if push {
        PUSH_MASK
    } else {
        0
    };
    let player2_bit: u8 = if player2 {
        PLAYER2_MASK
    } else {
        0
    };
    let swift_bit: u8 = if swift {
        EXTRA_MASK
    } else {
        0
    };
    assert((button & 3) == button % 4) by (bit_vector);
    assert((code | push_bit | player2_bit | swift_bit) == code + push_bit + player2_bit
        + swift_bit) by (bit_vector)
        requires
            code < 4,
            push_bit == 0 || push_bit == 4,
            player2_bit == 0 || player2_bit == 8,
            swift_bit == 0 || swift_bit == 16,
    ;
    code | push_bit | player2_bit | swift_bit
}

/// How many bytes a stored frame delta takes.  On the wire `Zero` is 0,
/// `One` 1, `Two` 2 and `Four` 3.
#[derive(Debug, Clone, Copy, PartialEq, Eq)]
pub enum ByteBlob {
    Zero,
    One,
    Two,
    Four,
}

impl TryFrom<u8> for ByteBlob {
    type Error = ();

    fn try_from(value: u8) -> (r: Result<Self, ()>) {
        match value {
            0 => Ok(ByteBlob::Zero),
            1 => Ok(ByteBlob::One),
            2 => Ok(ByteBlob::Two),
            3 => Ok(ByteBlob::Four),
            _ => Err(()),
        }
    }
}

impl vstd::std_specs::convert::TryFromSpecImpl<u8> for ByteBlob {
    open spec fn obeys_try_from_spec() -> bool {
        true
    }

    open spec fn try_from_spec(value: u8) -> Result<Self, ()> {
        match ByteBlob::spec_from_selector(value) {
            Some(b) => Ok(b),
            None => Err(()),
        }
    }
}

impl ByteBlob {
    /// The wire code of the width.
    pub open spec fn spec_selector(self) -> u8 {
        match self {
            ByteBlob::Zero => 0,
            ByteBlob::One => 1,
            ByteBlob::Two => 2,
            ByteBlob::Four => 3,
        }
    }

    /// The width with wire code `value`, if there is one.
    pub open spec fn spec_from_selector(value: u8) -> Option<ByteBlob> {
        if value == 0 {
            Some(ByteBlob::Zero)
        } else if value == 1 {
            Some(ByteBlob::One)
        } else if value == 2 {
            Some(ByteBlob::Two)
        } else if value == 3 {
            Some(ByteBlob::Four)
        } else {
            None
        }
    }

    /// The number of bytes.
    pub open spec fn spec_width(self) -> nat {
        match self {
            ByteBlob::Zero => 0,
            ByteBlob::One => 1,
            ByteBlob::Two => 2,
            ByteBlob::Four => 4,
        }
    }

    /// The largest value that fits.
    pub open spec fn spec_max(self) -> Frame {
        match self {
            ByteBlob::Zero => 0,
            ByteBlob::One => 0xFF,
            ByteBlob::Two => 0xFFFF,
            ByteBlob::Four => 0xFFFF_FFFF,
        }
    }

    /// The bytes that stand for `value`.
    pub open spec fn spec_bytes(self, value: Frame) -> Seq<u8> {
        spec_le_bytes(value as nat, self.spec_width())
    }

    /// The wire code of the width.
    pub fn selector(self) -> (c: u8)
        ensures
            c == self.spec_selector(),
            c <= 3,
    {
        match self {
            ByteBlob::Zero => 0,
            ByteBlob::One => 1,
            ByteBlob::Two => 2,
            ByteBlob::Four => 3,
        }
    }

    /// The number of bytes.
    pub fn width(self) -> (n: usize)
        ensures
            n == self.spec_width(),
            n <= 4,
    {
        match self {
            ByteBlob::Zero => 0,
            ByteBlob::One => 1,
            ByteBlob::Two => 2,
            ByteBlob::Four => 4,
        }
    }

    /// The largest value that fits.
    pub fn max(self) -> (m: Frame)
        ensures
            m == self.spec_max(),
    {
        match self {
            ByteBlob::Zero => 0,
            ByteBlob::One => 0xFF,
            ByteBlob::Two => 0xFFFF,
            ByteBlob::Four => 0xFFFF_FFFF,
        }
    }

    /// Appends `value` to `writer` in this many bytes, least significant
    /// byte first.
    pub fn serialize(self, writer: &mut Vec<u8>, value: Frame)
        requires
            value <= self.spec_max(),
        ensures
            final(writer)@ == old(writer)@ + self.spec_bytes(value),
    {
        write_le(writer, value, self.width());
    }

    /// The four widths, narrowest first.
    pub fn iter() -> (all: Vec<ByteBlob>)
        ensures
            all@ == seq![ByteBlob::Zero, ByteBlob::One, ByteBlob::Two, ByteBlob::Four],
    {
        vec![ByteBlob::Zero, ByteBlob::One, ByteBlob::Two, ByteBlob::Four]
    }
}

/// How the gap to the next action is written: in `blob` bytes, either the
/// gap itself or, where `magic` holds the last gap, what the gap exceeds it
/// by.
#[derive(Debug, Clone, Copy, PartialEq, Eq)]
pub struct SerializerDeltaInfo {
    pub blob: ByteBlob,
    pub magic: Option<Frame>,
    pub delta: Frame,
}

impl SerializerDeltaInfo {
    /// The stored value is the gap less the remembered one, and fits the
    /// width.
    pub open spec fn wf(&self) -> bool {
        match self.magic {
            Some(last) => last <= self.delta && self.delta - last <= self.blob.spec_max(),
            None => self.delta <= self.blob.spec_max(),
        }
    }

    /// How `delta` is written in width `blob`, if it can be: directly
    /// where it fits, else relative to a nonzero `last_delta` that it is
    /// not below, where the difference fits.
    pub open spec fn spec_at_width(blob: ByteBlob, delta: Frame, last_delta: Frame) -> Option<
        SerializerDeltaInfo,
    > {
        if delta <= blob.spec_max() {
            Some(SerializerDeltaInfo { blob, magic: None, delta })
        } else if last_delta != 0 && last_delta <= delta && delta - last_delta
            <= blob.spec_max() {
            Some(SerializerDeltaInfo { blob, magic: Some(last_delta), delta })
        } else {
            None
        }
    }

    /// How `delta` is written after `last_delta`: in the narrowest width
    /// that can hold it, directly or relative; `None` where none can.
    pub open spec fn spec_choose(delta: Frame, last_delta: Frame) -> Option<SerializerDeltaInfo> {
        if Self::spec_at_width(ByteBlob::Zero, delta, last_delta) is Some {
            Self::spec_at_width(ByteBlob::Zero, delta, last_delta)
        } else if Self::spec_at_width(ByteBlob::One, delta, last_delta) is Some {
            Self::spec_at_width(ByteBlob::One, delta, last_delta)
        } else if Self::spec_at_width(ByteBlob::Two, delta, last_delta) is Some {
            Self::spec_at_width(ByteBlob::Two, delta, last_delta)
        } else {
            Self::spec_at_width(ByteBlob::Four, delta, last_delta)
        }
    }

    /// The gap can be written after `last_delta`.
    pub open spec fn spec_representable(delta: Frame, last_delta: Frame) -> bool {
        delta <= 0xFFFF_FFFF || (last_delta != 0 && last_delta <= delta && delta - last_delta
            <= 0xFFFF_FFFF)
    }

    /// A gap can be written exactly where the widest width can hold it.
    pub proof fn lemma_choose_some(delta: Frame, last_delta: Frame)
        ensures
            Self::spec_choose(delta, last_delta) is Some <==> Self::spec_representable(
                delta,
                last_delta,
            ),
            Self::spec_choose(delta, last_delta) is Some ==> Self::spec_choose(
                delta,
                last_delta,
            ).unwrap().wf() && Self::spec_choose(delta, last_delta).unwrap().delta == delta,
    {
    }

    /// How `delta` is written after `last_delta`, or `None` where it is
    /// too large for every width.
    pub fn try_new(delta: Frame, last_delta: Frame) -> (r: Option<Self>)
        ensures
            r == Self::spec_choose(delta, last_delta),
    {
        let widths = ByteBlob::iter();
        let mut i: usize = 0;
        while i < widths.len()
            invariant
                i <= 4,
                widths@ == seq![ByteBlob::Zero, ByteBlob::One, ByteBlob::Two, ByteBlob::Four],
                forall|k: int|
                    0 <= k < i ==> Self::spec_at_width(#[trigger] widths@[k], delta, last_delta)
                        is None,
            decreases widths.len() - i,
        {
            let byte = widths[i];
            if delta <= byte.max() {
                assert(widths@[0] == ByteBlob::Zero && widths@[1] == ByteBlob::One && widths@[2]
                    == ByteBlob::Two);
                return Some(Self { blob: byte, magic: None, delta });
            }
            if !(last_delta == 0 || last_delta > delta) {
                let magic = delta - last_delta;
                if magic <= byte.max() {
                    assert(widths@[0] == ByteBlob::Zero && widths@[1] == ByteBlob::One
                        && widths@[2] == ByteBlob::Two);
                    return Some(Self { blob: byte, magic: Some(last_delta), delta });
                }
            }
            i = i + 1;
        }
        assert(widths@[0] == ByteBlob::Zero && widths@[1] == ByteBlob::One && widths@[2]
            == ByteBlob::Two && widths@[3] == ByteBlob::Four);
        None
    }

    /// How `delta` is written after `last_delta`.
    pub fn new(delta: Frame, last_delta: Frame) -> (info: Self)
        requires
            Self::spec_representable(delta, last_delta),
        ensures
            Some(info) == Self::spec_choose(delta, last_delta),
            info.wf(),
            info.delta == delta,
    {
        proof {
            Self::lemma_choose_some(delta, last_delta);
        }
        match Self::try_new(delta, last_delta) {
            Some(info) => info,
            None => Self::default(),
        }
    }

    pub open spec fn spec_empty(&self) -> bool {
        self.blob is Zero
    }

    /// Whether nothing is stored for the gap.
    pub fn empty(&self) -> (b: bool)
        ensures
            b == self.spec_empty(),
    {
        match self.blob {
            ByteBlob::Zero => true,
            _ => false,
        }
    }

    pub open spec fn spec_magic(&self) -> bool {
        self.magic is Some
    }

    /// Whether the stored value is relative to the last gap.
    pub fn magic(&self) -> (b: bool)
        ensures
            b == self.spec_magic(),
    {
        self.magic.is_some()
    }

    /// The three delta-control bits: the magic flag, then the width.
    pub open spec fn spec_craft(&self) -> u8 {
        (spec_bit(self.spec_magic()) + 2 * self.blob.spec_selector()) as u8
    }

    /// The three delta-control bits.
    pub fn craft(&self) -> (bits: u8)
        ensures
            bits == self.spec_craft(),
            bits < 8,
    {
        let flag: u8 = if self.magic() {
            1
        } else {
            0
        };
        let code: u8 = self.blob.selector();
        assert((flag | (code << 1)) == flag + 2 * code) by (bit_vector)
            requires
                flag <= 1,
                code <= 3,
        ;
        flag | (code << 1)
    }

    /// The value that is stored: the gap, or what it exceeds the last one
    /// by.
    pub open spec fn spec_stored(&self) -> Frame {
        match self.magic {
            Some(last) => (self.delta - last) as Frame,
            None => self.delta,
        }
    }

    /// The bytes written for the gap: none for the empty width.
    pub open spec fn spec_bytes(&self) -> Seq<u8> {
        self.blob.spec_bytes(self.spec_stored())
    }

    /// The error of [`SerializerDeltaInfo::serialize`] on an empty width.
    pub open spec fn spec_empty_error() -> TcmErrorView {
        TcmErrorView::InvalidInput { message: "Cannot serialize empty delta"@ }
    }

    /// Appends the stored value to `writer`.  An empty width is refused
    /// and leaves `writer` as it was.
    pub fn serialize(&self, writer: &mut Vec<u8>) -> (r: Result<(), TcmError>)
        requires
            self.wf(),
        ensures
            self.spec_empty() ==> r is Err && r.unwrap_err()@ == Self::spec_empty_error()
                && final(writer)@ == old(writer)@,
            !self.spec_empty() ==> r is Ok && final(writer)@ == old(writer)@ + self.spec_bytes(),
    {
        if self.empty() {
            return Err(TcmError::invalid_input("Cannot serialize empty delta"));
        }
        let value_to_serialize = match self.magic {
            Some(last_delta) => self.delta - last_delta,
            None => self.delta,
        };
        self.blob.serialize(writer, value_to_serialize);
        Ok(())
    }
}

impl Default for SerializerDeltaInfo {
    /// No gap: the empty width, nothing stored.
    fn default() -> (info: Self)
        ensures
            info == (SerializerDeltaInfo { blob: ByteBlob::Zero, magic: None, delta: 0 }),
    {
        Self { blob: ByteBlob::Zero, magic: None, delta: 0 }
    }
}

/// What the encoder writes next.
#[derive(Debug, Clone, Copy, PartialEq, Eq)]
pub enum SerializerBlob {
    Action,
    FrameDelta,
    Tps(FloatBits),
    Seed(u64),
}

/// The low five bits of the action byte for `input`.
pub open spec fn spec_serialize_input(input: Input, swift: bool) -> u8 {
    match input {
        Input::Vanilla(v) => spec_craft_input(v.button.spec_code(), v.push, v.player2, swift),
        Input::Restart(r) => (4 * r.restart_type.spec_code() + 16 * spec_bit(
            r.new_seed is Some,
        )) as u8,
        Input::Tps(_) => 12,
        Input::Bugpoint(_) => 28,
    }
}

/// The low five bits of the action byte for `input`.  Only a button event
/// can be swift.
pub fn serialize_input(input: &Input, swift: bool) -> (byte: u8)
    requires
        swift ==> *input is Vanilla,
    ensures
        byte == spec_serialize_input(*input, swift),
        byte < 32,
{
    match input {
        Input::Vanilla(v) => craft_input(v.button.code(), v.push, v.player2, swift),
        Input::Restart(r) => {
            let t: u8 = r.restart_type.code();
            let extra: u8 = if r.new_seed.is_some() {
                1
            } else {
                0
            };
            assert(((t | (extra << 2)) << 2) == 4 * t + 16 * extra) by (bit_vector)
                requires
                    t <= 2,
                    extra <= 1,
            ;
            (t | (extra << 2)) << CUSTOM_OFFSET
        },
        Input::Tps(_) => {
            assert((3u8 << 2u8) == 12) by (bit_vector);
            3 << CUSTOM_OFFSET
        },
        Input::Bugpoint(_) => {
            assert(((3u8 | (1u8 << 2u8)) << 2u8) == 28) by (bit_vector);
            (3 | (1 << 2)) << CUSTOM_OFFSET
        },
    }
}

/// What the low five bits of a control byte announce.
#[derive(Debug, Clone, Copy, PartialEq, Eq)]
pub enum Action {
    /// A button event, and with `swift` a second one on the same frame
    /// that differs in `push` alone.
    Button { input: VanillaInput, swift: bool },
    /// A marker event.
    Bugpoint,
    /// A rate change; four bytes of payload follow.
    Tps,
    /// A restart; with `seeded`, eight bytes of seed follow.
    Restart { restart_type: RestartType, seeded: bool },
}

/// What the control byte `byte` announces.  Bits 0 and 1 hold the input
/// code: nonzero for a button, with push in bit 2 and the second player in
/// bit 3; zero for the rest, which bits 2 and 3 tell apart.  Bit 4 is the
/// extra bit.
pub open spec fn spec_parse_action(byte: u8) -> Action {
    let extra = (byte / 16) % 2 == 1;
    let custom = ((byte / 4) % 4) as u8;
    if byte % 4 != 0 {
        Action::Button {
            input: VanillaInput {
                button: PlayerButton::spec_from_code(byte % 4).unwrap(),
                push: (byte / 4) % 2 == 1,
                player2: (byte / 8) % 2 == 1,
            },
            swift: extra,
        }
    } else if custom == 3 {
        if extra {
            Action::Bugpoint
        } else {
            Action::Tps
        }
    } else {
        Action::Restart {
            restart_type: RestartType::spec_from_code(custom).unwrap(),
            seeded: extra,
        }
    }
}

/// What the control byte `byte` announces.
pub fn parse_action(byte: u8) -> (action: Action)
    ensures
        action == spec_parse_action(byte),
{
    assert((byte & 0b11) == byte % 4 && ((byte & 0b100) != 0) == ((byte / 4) % 2 == 1) && ((byte
        & 0b1000) != 0) == ((byte / 8) % 2 == 1) && ((byte & 0b1_0000) != 0) == ((byte / 16) % 2
        == 1) && ((byte & 0b1100) >> 2) == (byte / 4) % 4) by (bit_vector);
    let input_data: u8 = byte & INPUT_MASK;
    let extra: bool = (byte & EXTRA_MASK) != 0;
    if input_data > 0 {
        let button: PlayerButton = if input_data == 1 {
            PlayerButton::Jump
        } else if input_data == 2 {
            PlayerButton::Left
        } else {
            PlayerButton::Right
        };
        let push: bool = (byte & PUSH_MASK) != 0;
        let player2: bool = (byte & PLAYER2_MASK) != 0;
        Action::Button { input: VanillaInput { button, push, player2 }, swift: extra }
    } else {
        let custom_type: u8 = (byte & CUSTOM_MASK) >> CUSTOM_OFFSET;
        if custom_type == 3 {
            if extra {
                Action::Bugpoint
            } else {
                Action::Tps
            }
        } else {
            let restart_type: RestartType = if custom_type == 0 {
                RestartType::Restart
            } else if custom_type == 1 {
                RestartType::RestartFull
            } else {
                RestartType::Death
            };
            Action::Restart { restart_type, seeded: extra }
        }
    }
}

/// The delta-control bits of a control byte: its three high bits.
pub open spec fn spec_delta_bits(byte: u8) -> u8 {
    byte / 32
}

/// The delta-control bits of a control byte.
pub fn delta_bits(byte: u8) -> (bits: u8)
    ensures
        bits == spec_delta_bits(byte),
        bits < 8,
{
    assert(((byte & 0b1110_0000) >> 5) == byte / 32) by (bit_vector);
    (byte & DELTA_DATA_MASK) >> DELTA_OFFSET
}

/// How the gap after an action is read: in `blob` bytes, added to
/// `last_delta` where the magic flag was set.
#[derive(Debug, Clone, Copy, PartialEq, Eq)]
pub struct DeserializerDeltaInfo {
    pub blob: ByteBlob,
    pub last_delta: Option<Frame>,
}

impl Default for DeserializerDeltaInfo {
    /// No gap: the empty width, not relative.
    fn default() -> (info: Self)
        ensures
            info == (DeserializerDeltaInfo { blob: ByteBlob::Zero, last_delta: None }),
    {
        Self { blob: ByteBlob::Zero, last_delta: None }
    }
}

/// What the decoder reads next.
#[derive(Debug, Clone, Copy, PartialEq, Eq)]
pub enum DeserializerBlob {
    Action,
    FrameDelta,
    Tps,
    Seed,
}

impl DeserializerDeltaInfo {
    /// What the delta-control bits `data` say: bit 0 is the magic flag,
    /// bits 1 and 2 the width.  Higher bits are ignored.
    pub open spec fn spec_new(data: u8, last_delta: Frame) -> DeserializerDeltaInfo {
        DeserializerDeltaInfo {
            blob: ByteBlob::spec_from_selector(((data / 2) % 4) as u8).unwrap(),
            last_delta: if data % 2 == 1 {
                Some(last_delta)
            } else {
                None
            },
        }
    }

    /// What the delta-control bits `data` say.
    pub fn new(data: u8, last_delta: Frame) -> (info: Self)
        ensures
            info == Self::spec_new(data, last_delta),
    {
        let bytes: u8 = (data >> 1) & 0b11;
        let magic: bool = (data & 1) != 0;
        assert(((data >> 1) & 3) == (data / 2) % 4) by (bit_vector);
        assert((data & 1) == data % 2) by (bit_vector);
        let blob = if bytes == 0 {
            ByteBlob::Zero
        } else if bytes == 1 {
            ByteBlob::One
        } else if bytes == 2 {
            ByteBlob::Two
        } else {
            ByteBlob::Four
        };
        Self {
            blob,
            last_delta: if magic {
                Some(last_delta)
            } else {
                None
            },
        }
    }

    pub open spec fn spec_empty(&self) -> bool {
        self.blob is Zero
    }

    /// Whether nothing is stored for the gap.
    pub fn empty(&self) -> (b: bool)
        ensures
            b == self.spec_empty(),
    {
        match self.blob {
            ByteBlob::Zero => true,
            _ => false,
        }
    }

    /// What the stored value is added to.
    pub open spec fn spec_base(&self) -> Frame {
        match self.last_delta {
            Some(last) => last,
            None => 0,
        }
    }

    /// The error for a stream that ends inside a stored gap.
    pub open spec fn spec_eof_error() -> TcmErrorView {
        TcmErrorView::UnexpectedEof { context: "frame delta"@ }
    }

    /// The error for a gap beyond 64 bits.
    pub open spec fn spec_overflow_error() -> TcmErrorView {
        TcmErrorView::DeserializationError { message: "frame delta overflows"@ }
    }

    /// The gap that the bytes at the start of `s` stand for, and how many
    /// of them it takes.
    pub open spec fn spec_read(&self, s: Seq<u8>) -> Result<(Frame, nat), TcmErrorView> {
        let width = self.blob.spec_width();
        if self.spec_empty() {
            Ok((self.spec_base(), 0))
        } else if s.len() < width {
            Err(Self::spec_eof_error())
        } else if self.spec_base() + spec_le_value(s.take(width as int)) > u64::MAX {
            Err(Self::spec_overflow_error())
        } else {
            Ok(((self.spec_base() + spec_le_value(s.take(width as int))) as Frame, width))
        }
    }

    /// The remembered gap after `delta` was read: a gap that is not zero
    /// replaces it.
    pub open spec fn spec_remember(&self, delta: Frame, last_delta: Frame) -> Frame {
        if delta != 0 {
            delta
        } else {
            last_delta
        }
    }

    /// Reads the gap.  On success the position has moved past its bytes,
    /// and a gap that is not zero is remembered in `p_last_delta`.
    pub fn read(&self, reader: &mut ByteReader, p_last_delta: &mut Frame) -> (r: Result<
        Frame,
        TcmError,
    >)
        requires
            old(reader).wf(),
        ensures
            final(reader).wf(),
            final(reader).bytes == old(reader).bytes,
            match self.spec_read(old(reader).remaining()) {
                Ok((delta, n)) => r == Ok::<Frame, TcmError>(delta) && final(reader).pos == old(
                    reader,
                ).pos + n && final(reader).remaining() == old(reader).remaining().skip(n as int)
                    && *final(p_last_delta) == self.spec_remember(delta, *old(p_last_delta)),
                Err(e) => r is Err && r.unwrap_err()@ == e && *final(p_last_delta) == *old(
                    p_last_delta,
                ),
            },
    {
        let base: Frame = match self.last_delta {
            Some(last) => last,
            None => 0,
        };
        if self.empty() {
            assert(reader.remaining().skip(0) =~= reader.remaining());
            if base != 0 {
                *p_last_delta = base;
            }
            return Ok(base);
        }
        let value: u64 = match reader.read_le(self.blob.width()) {
            Some(v) => v,
            None => {
                return Err(TcmError::unexpected_eof("frame delta"));
            },
        };
        let result: Frame = match base.checked_add(value) {
            Some(sum) => sum,
            None => {
                return Err(TcmError::deserialization_error("frame delta overflows"));
            },
        };
        if result != 0 {
            *p_last_delta = result;
        }
        Ok(result)
    }
}

} // verus!
