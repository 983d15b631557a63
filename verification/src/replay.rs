//! The envelope, the two input-stream codecs and the version converter.
//!
//! A stream is the 16-byte header, the 64-byte metadata block and the
//! input stream of the metadata's version.
use vstd::prelude::*;
use crate::error::{TcmError, TcmErrorView};
use crate::input::{Input, InputCommand};
use crate::meta::{DynamicMeta, Meta, MetaV1, MetaV2, META_SIZE};
use crate::replay::reader::ByteReader;
use crate::replay::stream_v1::{spec_decode_inputs_v1, spec_encode_inputs_v1};
use crate::replay::stream_v2::{spec_decode_inputs_v2, spec_encode_inputs_v2};
use crate::FloatBits;

pub mod reader;
pub mod varint;
pub mod v1;
pub mod v2;
pub mod stream_v1;
pub mod stream_v2;
pub mod laws;
pub mod laws_v1;
pub mod laws_v2;

verus! {

/// Playback metadata together with the events, in the order in which they
/// happen.
#[derive(Debug, Clone)]
pub struct Replay<M> {
    pub meta: M,
    pub inputs: Vec<InputCommand>,
}

impl<M> Replay<M> {
    pub fn new(meta: M, inputs: Vec<InputCommand>) -> (replay: Self)
        ensures
            replay.meta == meta,
            replay.inputs == inputs,
    {
        Self { meta, inputs }
    }
}

impl<M: Meta> Replay<M> {
    /// A replay without events, with tick rate `tps`.
    pub fn new_empty(tps: FloatBits) -> (replay: Self)
        ensures
            replay.meta == M::spec_new_empty(tps),
            replay.inputs@ == Seq::<InputCommand>::empty(),
    {
        Self { meta: M::new_empty(tps), inputs: Vec::new() }
    }
}

/// The size of the header in bytes.
pub const HEADER_SIZE: usize = 0x10;

/// The bytes that every stream starts with.
pub const TCBOT_HEADER: [u8; 16] = [
    0x9f, 0x88, 0x89, 0x84, 0x9f, 0x3b, 0x1d, 0xd8, 0xcc, 0xa1, 0x86, 0x8a, 0x88, 0x99, 0x84, 0x00,
];

/// The bytes that every stream starts with.
pub open spec fn spec_header() -> Seq<u8> {
    seq![
        0x9fu8, 0x88u8, 0x89u8, 0x84u8, 0x9fu8, 0x3bu8, 0x1du8, 0xd8u8, 0xccu8, 0xa1u8, 0x86u8,
        0x8au8, 0x88u8, 0x99u8, 0x84u8, 0x00u8,
    ]
}

/// Appends the header to `writer`.
pub fn write_header(writer: &mut Vec<u8>)
    ensures
        final(writer)@ == old(writer)@ + spec_header(),
{
    let ghost before = writer@;
    let mut i: usize = 0;
    while i < HEADER_SIZE
        invariant
            i <= HEADER_SIZE,
            writer@ == before + spec_header().take(i as int),
        decreases HEADER_SIZE - i,
    {
        writer.push(TCBOT_HEADER[i]);
        i = i + 1;
        assert(writer@ =~= before + spec_header().take(i as int));
    }
    assert(spec_header().take(16) =~= spec_header());
}

/// Whether `bytes` are the header.
pub fn is_header(bytes: &[u8]) -> (b: bool)
    requires
        bytes@.len() == HEADER_SIZE,
    ensures
        b == (bytes@ == spec_header()),
{
    let mut i: usize = 0;
    while i < HEADER_SIZE
        invariant
            i <= HEADER_SIZE,
            bytes@.len() == HEADER_SIZE,
            bytes@.take(i as int) == spec_header().take(i as int),
        decreases HEADER_SIZE - i,
    {
        if bytes[i] != TCBOT_HEADER[i] {
            assert(bytes@[i as int] != spec_header()[i as int]);
            return false;
        }
        i = i + 1;
        assert(bytes@.take(i as int) =~= spec_header().take(i as int));
    }
    assert(bytes@.take(16) =~= bytes@);
    assert(spec_header().take(16) =~= spec_header());
    true
}

/// The error for a stream that ends inside the header.
pub open spec fn spec_header_eof() -> TcmErrorView {
    TcmErrorView::UnexpectedEof { context: "header"@ }
}

/// The error for a stream that ends inside the metadata block.
pub open spec fn spec_meta_eof() -> TcmErrorView {
    TcmErrorView::UnexpectedEof { context: "metadata"@ }
}

/// The error for a stream that ends before the version byte.
pub open spec fn spec_version_eof() -> TcmErrorView {
    TcmErrorView::UnexpectedEof { context: "version"@ }
}

/// The input stream of `inputs` in version `version`.
pub open spec fn spec_encode_inputs(version: u8, inputs: Seq<InputCommand>) -> Result<
    Seq<u8>,
    TcmErrorView,
> {
    if version == 1 {
        spec_encode_inputs_v1(inputs)
    } else if version == 2 {
        spec_encode_inputs_v2(inputs)
    } else {
        Err(TcmErrorView::UnsupportedVersion { version })
    }
}

/// The events that an input stream of version `version` stands for.
pub open spec fn spec_decode_inputs(version: u8, s: Seq<u8>) -> Result<
    Seq<InputCommand>,
    TcmErrorView,
> {
    if version == 1 {
        match spec_decode_inputs_v1(s) {
            Ok((events, n)) => Ok(events),
            Err(e) => Err(e),
        }
    } else if version == 2 {
        spec_decode_inputs_v2(s)
    } else {
        Err(TcmErrorView::UnsupportedVersion { version })
    }
}

/// The stream of a replay: header, metadata block, input stream.
pub open spec fn spec_serialize<M: Meta>(meta: M, inputs: Seq<InputCommand>) -> Result<
    Seq<u8>,
    TcmErrorView,
> {
    match spec_encode_inputs(M::spec_version(), inputs) {
        Ok(stream) => Ok(spec_header() + meta.spec_to_bytes() + stream),
        Err(e) => Err(e),
    }
}

/// The replay that a stream holds, read as metadata of kind `M`.  A
/// stream of fewer than 16 bytes ends inside the header; one whose first
/// 16 bytes are not the magic sequence has an invalid header; then come
/// the metadata block, whose version byte must be that of `M`, and the
/// input stream.
pub open spec fn spec_deserialize<M: Meta>(s: Seq<u8>) -> Result<
    (M, Seq<InputCommand>),
    TcmErrorView,
> {
    if s.len() < HEADER_SIZE {
        Err(spec_header_eof())
    } else if s.take(HEADER_SIZE as int) != spec_header() {
        Err(TcmErrorView::InvalidHeader)
    } else if s.len() < HEADER_SIZE + META_SIZE {
        Err(spec_meta_eof())
    } else if s[HEADER_SIZE as int] != M::spec_version() {
        Err(TcmErrorView::UnsupportedVersion { version: s[HEADER_SIZE as int] })
    } else {
        match spec_decode_inputs(M::spec_version(), s.skip(HEADER_SIZE + META_SIZE)) {
            Ok(events) => Ok(
                (M::spec_from_bytes(s.subrange(HEADER_SIZE as int, HEADER_SIZE + META_SIZE)), events),
            ),
            Err(e) => Err(e),
        }
    }
}

/// How many bytes of a stream a replay of version `version` takes: in
/// version 1 up to the last event, before the terminator; in version 2
/// all of them.
pub open spec fn spec_stream_len(version: u8, s: Seq<u8>) -> nat {
    if version == 1 {
        match spec_decode_inputs_v1(s.skip(HEADER_SIZE + META_SIZE)) {
            Ok((events, n)) => (HEADER_SIZE + META_SIZE + n) as nat,
            Err(e) => 0,
        }
    } else {
        s.len()
    }
}

/// Writing a replay as a stream of bytes.
pub trait ReplaySerializer {
    /// The stream of the replay.
    spec fn spec_stream(&self) -> Result<Seq<u8>, TcmErrorView>;

    /// Appends the stream of the replay to `writer`: header, metadata
    /// block, input stream.  Where the events cannot be written, nothing
    /// is appended.
    fn serialize(&self, writer: &mut Vec<u8>) -> (r: Result<(), TcmError>)
        ensures
            match self.spec_stream() {
                Ok(bytes) => r is Ok && final(writer)@ == old(writer)@ + bytes,
                Err(e) => r is Err && r.unwrap_err()@ == e && final(writer)@ == old(writer)@,
            },
    ;
}

/// Reading a replay from a stream of bytes.
pub trait ReplayDeserializer<M: Meta> {
    /// Reads a replay with metadata of kind `M` from what is left in
    /// `reader`.
    fn deserialize(reader: &mut ByteReader) -> (r: Result<Replay<M>, TcmError>)
        requires
            old(reader).wf(),
        ensures
            final(reader).wf(),
            final(reader).bytes == old(reader).bytes,
            match spec_deserialize::<M>(old(reader).remaining()) {
                Ok((meta, events)) => r is Ok && r->Ok_0.meta == meta && r->Ok_0.inputs@
                    == events && final(reader).pos == old(reader).pos + spec_stream_len(
                    M::spec_version(),
                    old(reader).remaining(),
                ),
                Err(e) => r is Err && r->Err_0@ == e,
            },
    ;
}

impl<M: Meta> ReplaySerializer for Replay<M> {
    open spec fn spec_stream(&self) -> Result<Seq<u8>, TcmErrorView> {
        spec_serialize(self.meta, self.inputs@)
    }

    fn serialize(&self, writer: &mut Vec<u8>) -> (r: Result<(), TcmError>) {
        let mut stream: Vec<u8> = Vec::new();
        if M::version() == 1 {
            match self.serialize_inputs_v1(&mut stream) {
                Ok(()) => {},
                Err(e) => {
                    return Err(e);
                },
            }
        } else if M::version() == 2 {
            match self.serialize_inputs_v2(&mut stream) {
                Ok(()) => {},
                Err(e) => {
                    return Err(e);
                },
            }
        } else {
            return Err(TcmError::UnsupportedVersion { version: M::version() });
        }
        let ghost before = writer@;
        write_header(writer);
        let mut meta_bytes = self.meta.to_bytes();
        writer.append(&mut meta_bytes);
        writer.append(&mut stream);
        proof {
            let encoded = spec_encode_inputs(M::spec_version(), self.inputs@)->Ok_0;
            assert(Seq::<u8>::empty() + encoded =~= encoded);
            assert(writer@ =~= before + (spec_header() + self.meta.spec_to_bytes() + encoded));
        }
        Ok(())
    }
}

impl<M: Meta> ReplayDeserializer<M> for Replay<M> {
    fn deserialize(reader: &mut ByteReader) -> (r: Result<Replay<M>, TcmError>) {
        let ghost s = reader.remaining();
        let header = match reader.read_exact(HEADER_SIZE) {
            Some(h) => h,
            None => {
                return Err(TcmError::unexpected_eof("header"));
            },
        };
        if !is_header(header) {
            return Err(TcmError::InvalidHeader);
        }
        let meta_bytes = match reader.read_exact(M::size()) {
            Some(m) => m,
            None => {
                return Err(TcmError::unexpected_eof("metadata"));
            },
        };
        proof {
            assert(meta_bytes@ =~= s.subrange(HEADER_SIZE as int, HEADER_SIZE + META_SIZE));
            assert(reader.remaining() =~= s.skip(HEADER_SIZE + META_SIZE));
        }
        if meta_bytes[0] != M::version() {
            return Err(TcmError::UnsupportedVersion { version: meta_bytes[0] });
        }
        let meta = M::from_bytes(meta_bytes);
        let inputs = if M::version() == 1 {
            match Self::deserialize_inputs_v1(reader) {
                Ok(inputs) => inputs,
                Err(e) => {
                    return Err(e);
                },
            }
        } else if M::version() == 2 {
            match Self::deserialize_inputs_v2(reader) {
                Ok(inputs) => inputs,
                Err(e) => {
                    return Err(e);
                },
            }
        } else {
            return Err(TcmError::UnsupportedVersion { version: M::version() });
        };
        Ok(Replay { meta, inputs })
    }
}

/// A replay whose metadata is of either version.
pub type DynamicReplay = Replay<DynamicMeta>;

/// The replay that a stream holds, its version told by the first byte of
/// the metadata block: 1 and 2 are read as such, any other value is an
/// unsupported version.  The version byte is looked at before the header.
pub open spec fn spec_from_reader(s: Seq<u8>) -> Result<
    (DynamicMeta, Seq<InputCommand>),
    TcmErrorView,
> {
    if s.len() <= HEADER_SIZE {
        Err(spec_version_eof())
    } else if s[HEADER_SIZE as int] == 1 {
        match spec_deserialize::<MetaV1>(s) {
            Ok((meta, events)) => Ok((DynamicMeta::V1(meta), events)),
            Err(e) => Err(e),
        }
    } else if s[HEADER_SIZE as int] == 2 {
        match spec_deserialize::<MetaV2>(s) {
            Ok((meta, events)) => Ok((DynamicMeta::V2(meta), events)),
            Err(e) => Err(e),
        }
    } else {
        Err(TcmErrorView::UnsupportedVersion { version: s[HEADER_SIZE as int] })
    }
}

/// Whether version 1 has no place for the event.
pub open spec fn spec_v1_lacks(input: Input) -> bool {
    input is Tps || input is Bugpoint
}

/// Why the events from the one at `i` on cannot be converted to version
/// 1: the reason for the first rate change or marker among them, or
/// `None` where there is none.
pub open spec fn spec_v1_obstacle(inputs: Seq<InputCommand>, i: int) -> Option<Seq<char>>
    decreases inputs.len() - i,
{
    if i < 0 || i >= inputs.len() {
        None
    } else if inputs[i].input is Tps {
        Some("TPS changes not supported in V1"@)
    } else if inputs[i].input is Bugpoint {
        Some("Bugpoint inputs not supported in V1"@)
    } else {
        spec_v1_obstacle(inputs, i + 1)
    }
}

/// The metadata of a conversion to version 1: the tick rate of the
/// source and a counter of zero.  A seed is dropped.
pub open spec fn spec_to_v1_meta(meta: DynamicMeta, reciprocal: FloatBits) -> MetaV1 {
    MetaV1 { tps: meta.spec_effective_tps(reciprocal), append_counter: 0 }
}

/// The metadata of a conversion to version 2: the tick rate of the
/// source, a counter of zero, and the seed that is asked for or else the
/// one that the source has.
pub open spec fn spec_to_v2_meta(
    meta: DynamicMeta,
    rng_seed: Option<u64>,
    reciprocal: FloatBits,
) -> MetaV2 {
    MetaV2::spec_new(
        meta.spec_effective_tps(reciprocal),
        0,
        if rng_seed is Some {
            rng_seed
        } else {
            meta.spec_rng_seed()
        },
    )
}

/// The conversion to version 1: the reason for the first event that
/// version 1 has no place for, or else the new metadata and the events as
/// they are.
pub open spec fn spec_to_v1(meta: DynamicMeta, inputs: Seq<InputCommand>, reciprocal: FloatBits) -> Result<
    (MetaV1, Seq<InputCommand>),
    Seq<char>,
> {
    match spec_v1_obstacle(inputs, 0) {
        Some(reason) => Err(reason),
        None => Ok((spec_to_v1_meta(meta, reciprocal), inputs)),
    }
}

/// The conversion to version 2: the new metadata and the events as they
/// are.
pub open spec fn spec_to_v2(
    meta: DynamicMeta,
    inputs: Seq<InputCommand>,
    rng_seed: Option<u64>,
    reciprocal: FloatBits,
) -> (MetaV2, Seq<InputCommand>) {
    (spec_to_v2_meta(meta, rng_seed, reciprocal), inputs)
}

impl DynamicReplay {
    /// Reads a replay from what is left in `reader`, of the version that
    /// the metadata block names.
    pub fn from_reader(reader: &mut ByteReader) -> (r: Result<DynamicReplay, TcmError>)
        requires
            old(reader).wf(),
        ensures
            final(reader).wf(),
            final(reader).bytes == old(reader).bytes,
            match spec_from_reader(old(reader).remaining()) {
                Ok((meta, events)) => r is Ok && r->Ok_0.meta == meta && r->Ok_0.inputs@
                    == events && final(reader).pos == old(reader).pos + spec_stream_len(
                    meta.spec_version(),
                    old(reader).remaining(),
                ),
                Err(e) => r is Err && r->Err_0@ == e,
            },
    {
        let version: u8 = match reader.peek_at(HEADER_SIZE) {
            Some(v) => v,
            None => {
                return Err(TcmError::unexpected_eof("version"));
            },
        };
        match version {
            1 => {
                let concrete_replay = match Replay::<MetaV1>::deserialize(reader) {
                    Ok(replay) => replay,
                    Err(e) => {
                        return Err(e);
                    },
                };
                Ok(
                    Replay {
                        meta: DynamicMeta::V1(concrete_replay.meta),
                        inputs: concrete_replay.inputs,
                    },
                )
            },
            2 => {
                let concrete_replay = match Replay::<MetaV2>::deserialize(reader) {
                    Ok(replay) => replay,
                    Err(e) => {
                        return Err(e);
                    },
                };
                Ok(
                    Replay {
                        meta: DynamicMeta::V2(concrete_replay.meta),
                        inputs: concrete_replay.inputs,
                    },
                )
            },
            _ => Err(TcmError::UnsupportedVersion { version }),
        }
    }

    /// Converts to version 1.  Fails, with the reason, where an event is
    /// a rate change or a marker.  `reciprocal` is the tick rate to use
    /// where the source stores the time of one tick in place of the rate.
    pub fn to_v1(self, reciprocal: FloatBits) -> (r: Result<Replay<MetaV1>, String>)
        ensures
            match spec_to_v1(self.meta, self.inputs@, reciprocal) {
                Ok((meta, events)) => r is Ok && r->Ok_0.meta == meta && r->Ok_0.inputs@
                    == events,
                Err(reason) => r is Err && r->Err_0@ == reason,
            },
    {
        let n: usize = self.inputs.len();
        let mut i: usize = 0;
        while i < n
            invariant
                n == self.inputs@.len(),
                i <= n,
                spec_v1_obstacle(self.inputs@, 0) == spec_v1_obstacle(self.inputs@, i as int),
            decreases n - i,
        {
            match &self.inputs[i].input {
                Input::Tps(_) => {
                    return Err("TPS changes not supported in V1".to_string());
                },
                Input::Bugpoint(_) => {
                    return Err("Bugpoint inputs not supported in V1".to_string());
                },
                _ => {},
            }
            i = i + 1;
        }
        let meta_v1 = MetaV1 { tps: self.meta.effective_tps(reciprocal), append_counter: 0 };
        Ok(Replay { meta: meta_v1, inputs: self.inputs })
    }

    /// Converts to version 2, with the seed `rng_seed` or else the one
    /// that the source has.  `reciprocal` is the tick rate to use where
    /// the source stores the time of one tick in place of the rate.
    pub fn to_v2(self, rng_seed: Option<u64>, reciprocal: FloatBits) -> (replay: Replay<MetaV2>)
        ensures
            (replay.meta, replay.inputs@) == spec_to_v2(self.meta, self.inputs@, rng_seed, reciprocal),
    {
        let final_seed = match rng_seed {
            Some(seed) => Some(seed),
            None => self.meta.rng_seed(),
        };
        let meta_v2 = MetaV2::new(self.meta.effective_tps(reciprocal), 0, final_seed);
        Replay { meta: meta_v2, inputs: self.inputs }
    }

    /// Converts to version 2 and keeps the seed that the source has.
    pub fn to_v2_preserve_seed(self, reciprocal: FloatBits) -> (replay: Replay<MetaV2>)
        ensures
            (replay.meta, replay.inputs@) == spec_to_v2(self.meta, self.inputs@, None, reciprocal),
    {
        self.to_v2(None, reciprocal)
    }
}

} // verus!
