//! The 64-byte metadata block of the two format versions.
//!
//! The block stores one floating-point quantity, the tick rate or the
//! time that one tick takes.  Each accessor gives the bit pattern of the
//! quantity that is stored and `None` for the one that is its reciprocal.
use vstd::prelude::*;
use crate::replay::reader::{
    le_value_at, lemma_le_bytes_len, lemma_le_round_trip, lemma_le_value_bound,
    lemma_pow256_values, spec_le_bytes, spec_le_value, spec_zeros, write_le, write_zeros,
};
use crate::FloatBits;

verus! {

/// The size of the metadata block in bytes, in both versions.
pub const META_SIZE: usize = 0x40;

/// What the metadata of every version tells about a replay.
pub trait Meta: Sized + Send + Sync {
    /// The version byte of this kind of metadata.
    spec fn spec_version() -> u8;

    spec fn spec_tps(&self) -> Option<FloatBits>;

    spec fn spec_tps_dt(&self) -> Option<FloatBits>;

    spec fn spec_uses_dt(&self) -> bool;

    spec fn spec_rng_seed(&self) -> Option<u64>;

    spec fn spec_is_rng_seed_set(&self) -> bool;

    /// The metadata that a block holds.
    spec fn spec_from_bytes(bytes: Seq<u8>) -> Self;

    /// The block that holds the metadata.
    spec fn spec_to_bytes(&self) -> Seq<u8>;

    spec fn spec_new_empty(tps: FloatBits) -> Self;

    /// The size of the block in bytes.
    fn size() -> (n: usize)
        ensures
            n == META_SIZE,
    ;

    /// The tick rate in ticks per second, where the block stores it.
    fn tps(&self) -> (r: Option<FloatBits>)
        ensures
            r == self.spec_tps(),
    ;

    /// The time that one tick takes, where the block stores it.
    fn tps_dt(&self) -> (r: Option<FloatBits>)
        ensures
            r == self.spec_tps_dt(),
    ;

    /// Whether the block stores the time of one tick in place of the rate.
    fn uses_dt(&self) -> (b: bool)
        ensures
            b == self.spec_uses_dt(),
    ;

    /// The version byte of this kind of metadata.
    fn version() -> (v: u8)
        ensures
            v == Self::spec_version(),
    ;

    /// The version byte of this value.
    fn version_instance(&self) -> (v: u8)
        ensures
            v == Self::spec_version(),
    ;

    /// The seed of the random number generator, if one is stored.
    fn rng_seed(&self) -> (r: Option<u64>)
        ensures
            r == self.spec_rng_seed(),
    ;

    /// Whether the block flags that its seed overrides any other.
    fn is_rng_seed_set(&self) -> (b: bool)
        ensures
            b == self.spec_is_rng_seed_set(),
    ;

    /// Reads a block that starts with this version's byte.
    fn from_bytes(bytes: &[u8]) -> (meta: Self)
        requires
            bytes@.len() >= META_SIZE,
            bytes@[0] == Self::spec_version(),
        ensures
            meta == Self::spec_from_bytes(bytes@),
    ;

    /// Writes the block.
    fn to_bytes(&self) -> (bytes: Vec<u8>)
        ensures
            bytes@ == self.spec_to_bytes(),
            bytes@.len() == META_SIZE,
            bytes@[0] == Self::spec_version(),
    ;

    /// Metadata for a new replay with tick rate `tps`.
    fn new_empty(tps: FloatBits) -> (meta: Self)
        ensures
            meta == Self::spec_new_empty(tps),
    ;
}

/// The metadata of version 1: the tick rate and a counter.
#[derive(Debug, Clone, Copy, PartialEq, Eq)]
pub struct MetaV1 {
    pub tps: FloatBits,
    pub append_counter: u8,
}

impl Meta for MetaV1 {
    open spec fn spec_version() -> u8 {
        1
    }

    open spec fn spec_tps(&self) -> Option<FloatBits> {
        Some(self.tps)
    }

    open spec fn spec_tps_dt(&self) -> Option<FloatBits> {
        None
    }

    open spec fn spec_uses_dt(&self) -> bool {
        false
    }

    open spec fn spec_rng_seed(&self) -> Option<u64> {
        None
    }

    open spec fn spec_is_rng_seed_set(&self) -> bool {
        false
    }

    /// Byte 1 is the counter, bytes 4 to 7 the rate, least significant
    /// byte first.
    open spec fn spec_from_bytes(bytes: Seq<u8>) -> Self {
        MetaV1 { tps: spec_le_value(bytes.subrange(4, 8)) as FloatBits, append_counter: bytes[1] }
    }

    /// The version byte, the counter, two zero bytes, the rate, and zero
    /// bytes up to the size of the block.
    open spec fn spec_to_bytes(&self) -> Seq<u8> {
        seq![1u8, self.append_counter, 0u8, 0u8] + spec_le_bytes(self.tps as nat, 4) + spec_zeros(
            56,
        )
    }

    open spec fn spec_new_empty(tps: FloatBits) -> Self {
        MetaV1 { tps, append_counter: 0 }
    }

    fn size() -> (n: usize) {
        META_SIZE
    }

    fn tps(&self) -> (r: Option<FloatBits>) {
        Some(self.tps)
    }

    fn tps_dt(&self) -> (r: Option<FloatBits>) {
        None
    }

    fn uses_dt(&self) -> (b: bool) {
        false
    }

    fn version() -> (v: u8) {
        1
    }

    fn version_instance(&self) -> (v: u8) {
        1
    }

    fn rng_seed(&self) -> (r: Option<u64>) {
        None
    }

    fn is_rng_seed_set(&self) -> (b: bool) {
        false
    }

    fn from_bytes(bytes: &[u8]) -> (meta: Self) {
        let append_counter = bytes[1];
        proof {
            lemma_le_value_bound(bytes@.subrange(4, 8));
            lemma_pow256_values();
        }
        let tps = le_value_at(bytes, 4, 4) as FloatBits;
        Self { tps, append_counter }
    }

    fn to_bytes(&self) -> (bytes: Vec<u8>) {
        let mut bytes: Vec<u8> = Vec::new();
        bytes.push(Self::version());
        bytes.push(self.append_counter);
        bytes.push(0);
        bytes.push(0);
        assert(bytes@ =~= seq![1u8, self.append_counter, 0u8, 0u8]);
        write_le(&mut bytes, self.tps as u64, 4);
        write_zeros(&mut bytes, META_SIZE - 8);
        proof {
            lemma_le_bytes_len(self.tps as nat, 4);
        }
        bytes
    }

    fn new_empty(tps: FloatBits) -> (meta: Self) {
        Self::new(tps, 0)
    }
}

impl MetaV1 {
    pub fn new(tps: FloatBits, append_counter: u8) -> (meta: Self)
        ensures
            meta == (MetaV1 { tps, append_counter }),
    {
        Self { tps, append_counter }
    }
}

/// A flag in the flags byte of version-2 metadata.  `OverrideSeed` is bit
/// 0, `TpsInsteadOfDt` bit 1.
#[derive(Debug, Clone, Copy, PartialEq, Eq)]
pub enum MetaV2BitFlags {
    OverrideSeed,
    TpsInsteadOfDt,
}

impl MetaV2BitFlags {
    /// The value of the flag's bit.
    pub open spec fn spec_mask(self) -> u8 {
        match self {
            MetaV2BitFlags::OverrideSeed => 1,
            MetaV2BitFlags::TpsInsteadOfDt => 2,
        }
    }

    /// The value of the flag's bit.
    pub fn mask(self) -> (m: u8)
        ensures
            m == self.spec_mask(),
    {
        match self {
            MetaV2BitFlags::OverrideSeed => 1,
            MetaV2BitFlags::TpsInsteadOfDt => 2,
        }
    }

    /// Whether the flag's bit is set in `flags`.
    pub open spec fn spec_is_set(flags: u8, flag: MetaV2BitFlags) -> bool {
        (flags / flag.spec_mask()) % 2 == 1
    }

    /// `flags` with the flag's bit put to `value` and every other bit as
    /// it was.
    pub open spec fn spec_set(flags: u8, flag: MetaV2BitFlags, value: bool) -> u8 {
        if Self::spec_is_set(flags, flag) == value {
            flags
        } else if value {
            (flags + flag.spec_mask()) as u8
        } else {
            (flags - flag.spec_mask()) as u8
        }
    }

    /// Whether the flag's bit is set in `flags`.
    pub fn is_set(flags: u8, flag: MetaV2BitFlags) -> (b: bool)
        ensures
            b == Self::spec_is_set(flags, flag),
    {
        let m: u8 = flag.mask();
        assert(((flags & m) != 0) == ((flags / m) % 2 == 1)) by (bit_vector)
            requires
                m == 1 || m == 2,
        ;
        (flags & m) != 0
    }

    /// Puts the flag's bit in `flags` to `value`.
    pub fn set(flags: &mut u8, flag: MetaV2BitFlags, value: bool)
        ensures
            *final(flags) == Self::spec_set(*old(flags), flag, value),
    {
        let m: u8 = flag.mask();
        let before: u8 = *flags;
        assert((m == 1 || m == 2) ==> ((before | m) == if (before / m) % 2 == 1 {
            before
        } else {
            (before + m) as u8
        }) && ((before & !m) == if (before / m) % 2 == 1 {
            (before - m) as u8
        } else {
            before
        }) && ((before / m) % 2 == 1 ==> before >= m) && ((before / m) % 2 != 1 ==> before + m
            <= 255)) by (bit_vector);
        if value {
            *flags = before | m;
        } else {
            *flags = before & !m;
        }
    }
}

/// The metadata of version 2: the tick rate or the time of one tick, an
/// optional seed, a counter and the flags.
#[derive(Debug, Clone, Copy, PartialEq, Eq)]
pub struct MetaV2 {
    pub rng_seed: Option<u64>,
    pub tps_or_dt: FloatBits,
    pub append_counter: u8,
    pub flags: u8,
}

impl Meta for MetaV2 {
    open spec fn spec_version() -> u8 {
        2
    }

    open spec fn spec_tps(&self) -> Option<FloatBits> {
        if MetaV2BitFlags::spec_is_set(self.flags, MetaV2BitFlags::TpsInsteadOfDt) {
            Some(self.tps_or_dt)
        } else {
            None
        }
    }

    open spec fn spec_tps_dt(&self) -> Option<FloatBits> {
        if MetaV2BitFlags::spec_is_set(self.flags, MetaV2BitFlags::TpsInsteadOfDt) {
            None
        } else {
            Some(self.tps_or_dt)
        }
    }

    open spec fn spec_uses_dt(&self) -> bool {
        !MetaV2BitFlags::spec_is_set(self.flags, MetaV2BitFlags::TpsInsteadOfDt)
    }

    open spec fn spec_rng_seed(&self) -> Option<u64> {
        self.rng_seed
    }

    open spec fn spec_is_rng_seed_set(&self) -> bool {
        MetaV2BitFlags::spec_is_set(self.flags, MetaV2BitFlags::OverrideSeed)
    }

    /// Byte 1 is the counter, byte 2 the flags, bytes 4 to 7 the stored
    /// quantity and bytes 8 to 15 the seed, least significant byte first.
    /// A seed of zero stands for no seed.
    open spec fn spec_from_bytes(bytes: Seq<u8>) -> Self {
        let seed = spec_le_value(bytes.subrange(8, 16)) as u64;
        MetaV2 {
            rng_seed: if seed != 0 {
                Some(seed)
            } else {
                None
            },
            tps_or_dt: spec_le_value(bytes.subrange(4, 8)) as FloatBits,
            append_counter: bytes[1],
            flags: bytes[2],
        }
    }

    /// The version byte, the counter, the flags, a zero byte, the stored
    /// quantity, the seed (zero for none), and zero bytes up to the size
    /// of the block.
    open spec fn spec_to_bytes(&self) -> Seq<u8> {
        seq![2u8, self.append_counter, self.flags, 0u8] + spec_le_bytes(self.tps_or_dt as nat, 4)
            + spec_le_bytes(
            match self.rng_seed {
                Some(seed) => seed as nat,
                None => 0,
            },
            8,
        ) + spec_zeros(48)
    }

    open spec fn spec_new_empty(tps: FloatBits) -> Self {
        MetaV2::spec_new(tps, 0, None)
    }

    fn size() -> (n: usize) {
        META_SIZE
    }

    fn tps(&self) -> (r: Option<FloatBits>) {
        if MetaV2BitFlags::is_set(self.flags, MetaV2BitFlags::TpsInsteadOfDt) {
            Some(self.tps_or_dt)
        } else {
            None
        }
    }

    fn tps_dt(&self) -> (r: Option<FloatBits>) {
        if MetaV2BitFlags::is_set(self.flags, MetaV2BitFlags::TpsInsteadOfDt) {
            None
        } else {
            Some(self.tps_or_dt)
        }
    }

    fn uses_dt(&self) -> (b: bool) {
        !MetaV2BitFlags::is_set(self.flags, MetaV2BitFlags::TpsInsteadOfDt)
    }

    fn version() -> (v: u8) {
        2
    }

    fn version_instance(&self) -> (v: u8) {
        2
    }

    fn rng_seed(&self) -> (r: Option<u64>) {
        self.rng_seed
    }

    fn is_rng_seed_set(&self) -> (b: bool) {
        MetaV2BitFlags::is_set(self.flags, MetaV2BitFlags::OverrideSeed)
    }

    fn from_bytes(bytes: &[u8]) -> (meta: Self) {
        let append_counter = bytes[1];
        let flags = bytes[2];
        proof {
            lemma_le_value_bound(bytes@.subrange(4, 8));
            lemma_pow256_values();
        }
        let tps_or_dt = le_value_at(bytes, 4, 4) as FloatBits;
        let seed: u64 = le_value_at(bytes, 8, 8);
        let rng_seed = if seed != 0 {
            Some(seed)
        } else {
            None
        };
        Self { rng_seed, tps_or_dt, append_counter, flags }
    }

    fn to_bytes(&self) -> (bytes: Vec<u8>) {
        let mut bytes: Vec<u8> = Vec::new();
        bytes.push(Self::version());
        bytes.push(self.append_counter);
        bytes.push(self.flags);
        bytes.push(0);
        assert(bytes@ =~= seq![2u8, self.append_counter, self.flags, 0u8]);
        write_le(&mut bytes, self.tps_or_dt as u64, 4);
        let seed: u64 = match self.rng_seed {
            Some(rng_seed) => rng_seed,
            None => 0,
        };
        write_le(&mut bytes, seed, 8);
        write_zeros(&mut bytes, META_SIZE - 16);
        proof {
            lemma_le_bytes_len(self.tps_or_dt as nat, 4);
            lemma_le_bytes_len(seed as nat, 8);
        }
        bytes
    }

    fn new_empty(tps: FloatBits) -> (meta: Self) {
        Self::new(tps, 0, None)
    }
}

impl MetaV2 {
    /// Metadata that stores the rate itself, and flags the seed as an
    /// override exactly where one is given.
    pub open spec fn spec_new(tps: FloatBits, append_counter: u8, rng_seed: Option<u64>) -> MetaV2 {
        MetaV2 {
            rng_seed,
            tps_or_dt: tps,
            append_counter,
            flags: if rng_seed is Some {
                3
            } else {
                2
            },
        }
    }

    /// Metadata that stores the rate itself, and flags the seed as an
    /// override exactly where one is given.
    pub fn new(tps: FloatBits, append_counter: u8, rng_seed: Option<u64>) -> (meta: Self)
        ensures
            meta == Self::spec_new(tps, append_counter, rng_seed),
            meta.spec_tps() == Some(tps),
            !meta.spec_uses_dt(),
            meta.spec_is_rng_seed_set() == (rng_seed is Some),
    {
        let mut flags: u8 = 0;
        MetaV2BitFlags::set(&mut flags, MetaV2BitFlags::TpsInsteadOfDt, true);
        MetaV2BitFlags::set(&mut flags, MetaV2BitFlags::OverrideSeed, rng_seed.is_some());
        Self { rng_seed, tps_or_dt: tps, append_counter, flags }
    }
}

/// Metadata of either version, for a replay whose version is known only
/// once it was read.
#[derive(Debug, Clone, Copy, PartialEq, Eq)]
pub enum DynamicMeta {
    V1(MetaV1),
    V2(MetaV2),
}

impl DynamicMeta {
    pub open spec fn spec_version(&self) -> u8 {
        match self {
            DynamicMeta::V1(_) => 1,
            DynamicMeta::V2(_) => 2,
        }
    }

    pub open spec fn spec_tps(&self) -> Option<FloatBits> {
        match self {
            DynamicMeta::V1(m) => m.spec_tps(),
            DynamicMeta::V2(m) => m.spec_tps(),
        }
    }

    pub open spec fn spec_tps_dt(&self) -> Option<FloatBits> {
        match self {
            DynamicMeta::V1(m) => m.spec_tps_dt(),
            DynamicMeta::V2(m) => m.spec_tps_dt(),
        }
    }

    pub open spec fn spec_uses_dt(&self) -> bool {
        match self {
            DynamicMeta::V1(m) => m.spec_uses_dt(),
            DynamicMeta::V2(m) => m.spec_uses_dt(),
        }
    }

    pub open spec fn spec_rng_seed(&self) -> Option<u64> {
        match self {
            DynamicMeta::V1(m) => m.spec_rng_seed(),
            DynamicMeta::V2(m) => m.spec_rng_seed(),
        }
    }

    pub open spec fn spec_is_rng_seed_set(&self) -> bool {
        match self {
            DynamicMeta::V1(m) => m.spec_is_rng_seed_set(),
            DynamicMeta::V2(m) => m.spec_is_rng_seed_set(),
        }
    }

    pub open spec fn spec_to_bytes(&self) -> Seq<u8> {
        match self {
            DynamicMeta::V1(m) => m.spec_to_bytes(),
            DynamicMeta::V2(m) => m.spec_to_bytes(),
        }
    }

    /// The tick rate: the stored one, or `reciprocal` where the time of
    /// one tick is stored in its place.
    pub open spec fn spec_effective_tps(&self, reciprocal: FloatBits) -> FloatBits {
        match self.spec_tps() {
            Some(tps) => tps,
            None => reciprocal,
        }
    }

    /// The size of the block in bytes.
    pub fn size() -> (n: usize)
        ensures
            n == META_SIZE,
    {
        META_SIZE
    }

    /// The tick rate in ticks per second, where the block stores it.
    pub fn tps(&self) -> (r: Option<FloatBits>)
        ensures
            r == self.spec_tps(),
    {
        match self {
            DynamicMeta::V1(m) => m.tps(),
            DynamicMeta::V2(m) => m.tps(),
        }
    }

    /// The time that one tick takes, where the block stores it.
    pub fn tps_dt(&self) -> (r: Option<FloatBits>)
        ensures
            r == self.spec_tps_dt(),
    {
        match self {
            DynamicMeta::V1(m) => m.tps_dt(),
            DynamicMeta::V2(m) => m.tps_dt(),
        }
    }

    /// Whether the block stores the time of one tick in place of the rate.
    pub fn uses_dt(&self) -> (b: bool)
        ensures
            b == self.spec_uses_dt(),
    {
        match self {
            DynamicMeta::V1(m) => m.uses_dt(),
            DynamicMeta::V2(m) => m.uses_dt(),
        }
    }

    /// The version byte of this value: 1 or 2.
    pub fn version_instance(&self) -> (v: u8)
        ensures
            v == self.spec_version(),
    {
        match self {
            DynamicMeta::V1(m) => m.version_instance(),
            DynamicMeta::V2(m) => m.version_instance(),
        }
    }

    /// The seed of the random number generator, if one is stored.
    pub fn rng_seed(&self) -> (r: Option<u64>)
        ensures
            r == self.spec_rng_seed(),
    {
        match self {
            DynamicMeta::V1(m) => m.rng_seed(),
            DynamicMeta::V2(m) => m.rng_seed(),
        }
    }

    /// Whether the block flags that its seed overrides any other.
    pub fn is_rng_seed_set(&self) -> (b: bool)
        ensures
            b == self.spec_is_rng_seed_set(),
    {
        match self {
            DynamicMeta::V1(m) => m.is_rng_seed_set(),
            DynamicMeta::V2(m) => m.is_rng_seed_set(),
        }
    }

    /// Writes the block.
    pub fn to_bytes(&self) -> (bytes: Vec<u8>)
        ensures
            bytes@ == self.spec_to_bytes(),
            bytes@.len() == META_SIZE,
            bytes@[0] == self.spec_version(),
    {
        match self {
            DynamicMeta::V1(m) => m.to_bytes(),
            DynamicMeta::V2(m) => m.to_bytes(),
        }
    }

    /// The tick rate: the stored one, or `reciprocal` where the time of
    /// one tick is stored in its place.
    pub fn effective_tps(&self, reciprocal: FloatBits) -> (tps: FloatBits)
        ensures
            tps == self.spec_effective_tps(reciprocal),
    {
        match self.tps() {
            Some(tps) => tps,
            None => reciprocal,
        }
    }
}

/// A block of version 1 has the size of the block and is read as the
/// metadata it was written for.
pub proof fn lemma_meta_v1_round_trip(meta: MetaV1)
    ensures
        meta.spec_to_bytes().len() == META_SIZE,
        meta.spec_to_bytes()[0] == 1,
        MetaV1::spec_from_bytes(meta.spec_to_bytes()) == meta,
{
    let bytes = meta.spec_to_bytes();
    let rate = spec_le_bytes(meta.tps as nat, 4);
    lemma_le_bytes_len(meta.tps as nat, 4);
    lemma_pow256_values();
    lemma_le_round_trip(meta.tps as nat, 4);
    assert(bytes.subrange(4, 8) =~= rate);
}

/// A block of version 2 has the size of the block, and is read as the
/// metadata it was written for unless that holds a seed of zero, which is
/// read as no seed.
pub proof fn lemma_meta_v2_round_trip(meta: MetaV2)
    ensures
        meta.spec_to_bytes().len() == META_SIZE,
        meta.spec_to_bytes()[0] == 2,
        meta.rng_seed != Some(0u64) ==> MetaV2::spec_from_bytes(meta.spec_to_bytes()) == meta,
        meta.rng_seed == Some(0u64) ==> MetaV2::spec_from_bytes(meta.spec_to_bytes()) == (MetaV2 {
            rng_seed: None,
            ..meta
        }),
{
    let bytes = meta.spec_to_bytes();
    let seed: nat = match meta.rng_seed {
        Some(seed) => seed as nat,
        None => 0,
    };
    let stored = spec_le_bytes(meta.tps_or_dt as nat, 4);
    let seed_bytes = spec_le_bytes(seed, 8);
    lemma_le_bytes_len(meta.tps_or_dt as nat, 4);
    lemma_le_bytes_len(seed, 8);
    lemma_pow256_values();
    lemma_le_round_trip(meta.tps_or_dt as nat, 4);
    lemma_le_round_trip(seed, 8);
    assert(bytes.subrange(4, 8) =~= stored);
    assert(bytes.subrange(8, 16) =~= seed_bytes);
}

} // verus!
