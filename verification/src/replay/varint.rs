//! Variable-length 32-bit numbers: seven bits to a byte, low bits first,
//! the high bit of a byte saying that another byte follows.
use vstd::prelude::*;
use crate::error::{TcmError, TcmErrorView};
use crate::replay::reader::ByteReader;

verus! {

/// The most bytes a number takes.
pub const MAX_VAR_U32_BYTES: usize = 5;

/// The bytes of `value`.
pub open spec fn spec_var_u32(value: u32) -> Seq<u8>
    decreases value,
{
    if value < 128 {
        seq![value as u8]
    } else {
        seq![(value % 128 + 128) as u8] + spec_var_u32(value / 128)
    }
}

/// The error for a stream that ends inside a number.
pub open spec fn spec_var_eof() -> TcmErrorView {
    TcmErrorView::UnexpectedEof { context: "variable-length integer"@ }
}

/// The error for a number that goes on past its fifth byte.
pub open spec fn spec_var_overlong() -> TcmErrorView {
    TcmErrorView::DeserializationError { message: "variable-length integer is too long"@ }
}

/// The number at the start of `s`, not yet cut to 32 bits, and how many
/// bytes it takes, where `depth` bytes of it were read before.
pub open spec fn spec_var_from(s: Seq<u8>, depth: nat) -> Result<(nat, nat), TcmErrorView>
    decreases 5 - depth,
{
    if depth >= 5 {
        Err(spec_var_overlong())
    } else if s.len() == 0 {
        Err(spec_var_eof())
    } else if s[0] < 128 {
        Ok((s[0] as nat, 1))
    } else {
        match spec_var_from(s.skip(1), depth + 1) {
            Ok((high, n)) => Ok(((s[0] - 128) as nat + 128 * high, n + 1)),
            Err(e) => Err(e),
        }
    }
}

/// The number at the start of `s` and how many bytes it takes.  Bits past
/// the thirty-second are dropped.
pub open spec fn spec_read_var_u32(s: Seq<u8>) -> Result<(u32, nat), TcmErrorView> {
    match spec_var_from(s, 0) {
        Ok((value, n)) => Ok(((value % 0x1_0000_0000) as u32, n)),
        Err(e) => Err(e),
    }
}

/// A number takes between one and five bytes, and only the last has its
/// high bit clear.
pub proof fn lemma_var_u32_len(value: u32)
    ensures
        1 <= spec_var_u32(value).len() <= 5,
        value < 0x80 ==> spec_var_u32(value).len() == 1,
        value < 0x4000 ==> spec_var_u32(value).len() <= 2,
        value < 0x20_0000 ==> spec_var_u32(value).len() <= 3,
        value < 0x1000_0000 ==> spec_var_u32(value).len() <= 4,
    decreases value,
{
    if value >= 128 {
        lemma_var_u32_len(value / 128);
    }
}

/// Reading what was written gives the number back, whatever follows it.
pub proof fn lemma_var_u32_round_trip(value: u32, rest: Seq<u8>)
    ensures
        spec_read_var_u32(spec_var_u32(value) + rest) == Ok::<(u32, nat), TcmErrorView>(
            (value, spec_var_u32(value).len()),
        ),
{
    lemma_var_from_written(value, rest, 0);
}

proof fn lemma_var_from_written(value: u32, rest: Seq<u8>, depth: nat)
    requires
        depth < 5,
        depth == 1 ==> value < 0x1000_0000,
        depth == 2 ==> value < 0x20_0000,
        depth == 3 ==> value < 0x4000,
        depth == 4 ==> value < 0x80,
    ensures
        spec_var_from(spec_var_u32(value) + rest, depth) == Ok::<(nat, nat), TcmErrorView>(
            (value as nat, spec_var_u32(value).len()),
        ),
    decreases value,
{
    let s = spec_var_u32(value) + rest;
    if value >= 128 {
        let tail = spec_var_u32(value / 128);
        assert(s.skip(1) =~= tail + rest);
        assert(s[0] == (value % 128 + 128) as u8);
        lemma_var_from_written(value / 128, rest, depth + 1);
    } else {
        assert(s[0] == value as u8);
    }
}

proof fn lemma_low_seven(value: u32)
    ensures
        (value & 0x7F) == value % 128,
        (value >> 7) == value / 128,
        (value & 0x7F) < 128,
{
    assert((value & 0x7F) == value % 128 && (value >> 7) == value / 128) by (bit_vector);
}

/// Appends the bytes of `value` to `writer`.
pub fn write_var_u32(writer: &mut Vec<u8>, value: u32)
    ensures
        final(writer)@ == old(writer)@ + spec_var_u32(value),
{
    let ghost before = writer@;
    let mut value: u32 = value;
    let ghost target = spec_var_u32(value);
    loop
        invariant_except_break
            before + target == writer@ + spec_var_u32(value),
        ensures
            writer@ == before + target,
        decreases value,
    {
        let ghost prev = writer@;
        let ghost cur = value;
        proof {
            lemma_low_seven(value);
        }
        let byte: u8 = (value & 0x7F) as u8;
        value >>= 7;
        if value == 0 {
            writer.push(byte);
            assert(prev + spec_var_u32(cur) =~= writer@);
            break ;
        }
        assert(byte | 0x80 == byte + 128) by (bit_vector)
            requires
                byte < 128,
        ;
        writer.push(byte | 0x80);
        assert(prev + spec_var_u32(cur) =~= writer@ + spec_var_u32(value));
    }
}

/// What `spec_var_from` gives once `low`, read from the bytes before, is
/// put under it.
pub open spec fn spec_var_under(
    low: nat,
    scale: nat,
    consumed: nat,
    r: Result<(nat, nat), TcmErrorView>,
) -> Result<(nat, nat), TcmErrorView> {
    match r {
        Ok((high, n)) => Ok((low + scale * high, consumed + n)),
        Err(e) => Err(e),
    }
}

proof fn lemma_merge_group(acc: u32, low: u32, shift: u32)
    requires
        low < 128,
        shift == 0 || shift == 7 || shift == 14 || shift == 21 || shift == 28,
        shift == 0 ==> acc == 0,
        shift == 7 ==> acc < 0x80,
        shift == 14 ==> acc < 0x4000,
        shift == 21 ==> acc < 0x20_0000,
        shift == 28 ==> acc < 0x1000_0000,
    ensures
        shift == 0 ==> (acc | (low << shift)) == low,
        shift == 7 ==> (acc | (low << shift)) == acc + 0x80 * low,
        shift == 14 ==> (acc | (low << shift)) == acc + 0x4000 * low,
        shift == 21 ==> (acc | (low << shift)) == acc + 0x20_0000 * low,
        shift == 28 ==> (acc | (low << shift)) == acc + 0x1000_0000 * (low % 16),
{
    assert(low < 128 && acc == 0 ==> (acc | (low << 0u32)) == low) by (bit_vector);
    assert(low < 128 && acc < 0x80 ==> (acc | (low << 7u32)) == acc + 0x80 * low)
        by (bit_vector);
    assert(low < 128 && acc < 0x4000 ==> (acc | (low << 14u32)) == acc + 0x4000 * low)
        by (bit_vector);
    assert(low < 128 && acc < 0x20_0000 ==> (acc | (low << 21u32)) == acc + 0x20_0000 * low)
        by (bit_vector);
    assert(low < 128 && acc < 0x1000_0000 ==> (acc | (low << 28u32)) == acc + 0x1000_0000 * (low
        % 16)) by (bit_vector);
}

/// Reads one number.  On success the position has moved past its bytes.
pub fn read_var_u32(reader: &mut ByteReader) -> (r: Result<u32, TcmError>)
    requires
        old(reader).wf(),
    ensures
        final(reader).wf(),
        final(reader).bytes == old(reader).bytes,
        match spec_read_var_u32(old(reader).remaining()) {
            Ok((value, n)) => r == Ok::<u32, TcmError>(value) && final(reader).pos == old(
                reader,
            ).pos + n && final(reader).remaining() == old(reader).remaining().skip(n as int),
            Err(e) => r is Err && r.unwrap_err()@ == e,
        },
{
    let ghost start = reader.remaining();
    let mut value: u32 = 0;
    let mut shift: u32 = 0;
    let ghost mut low: nat = 0;
    let ghost mut scale: nat = 1;
    let ghost mut depth: nat = 0;
    proof {
        assert(start.skip(0) =~= start);
    }
    loop
        invariant
            reader.wf(),
            reader.bytes == old(reader).bytes,
            depth < 5,
            shift == 7 * depth,
            reader.pos == old(reader).pos + depth,
            reader.remaining() == start.skip(depth as int),
            start == old(reader).remaining(),
            depth == 0 ==> scale == 1 && low == 0,
            depth == 1 ==> scale == 0x80 && low < 0x80,
            depth == 2 ==> scale == 0x4000 && low < 0x4000,
            depth == 3 ==> scale == 0x20_0000 && low < 0x20_0000,
            depth == 4 ==> scale == 0x1000_0000 && low < 0x1000_0000,
            value == low,
            spec_var_from(start, 0) == spec_var_under(
                low,
                scale,
                depth,
                spec_var_from(reader.remaining(), depth),
            ),
        decreases 5 - depth,
    {
        let ghost here = reader.remaining();
        let byte = match reader.read_u8() {
            Some(b) => b,
            None => {
                return Err(TcmError::unexpected_eof("variable-length integer"));
            },
        };
        let group: u32 = (byte & 0x7F) as u32;
        proof {
            assert((byte & 0x7F) == byte % 128) by (bit_vector);
            assert((byte & 0x80 == 0) == (byte < 128)) by (bit_vector);
            lemma_merge_group(value, group, shift);
            assert(here.skip(1) == reader.remaining());
            assert(start.skip(depth as int).skip(1) =~= start.skip(depth as int + 1));
        }
        let merged: u32 = value | (group << shift);
        if byte & 0x80 == 0 {
            proof {
                assert(spec_var_from(here, depth) == Ok::<(nat, nat), TcmErrorView>(
                    (byte as nat, 1),
                ));
                assert(group == byte);
                assert((low + scale * (byte as nat)) % 0x1_0000_0000 == merged) by {
                    if depth == 4 {
                        assert(low + 0x1000_0000 * (byte as nat) == (low + 0x1000_0000 * ((
                        byte as nat) % 16)) + 0x1_0000_0000 * ((byte as nat) / 16));
                    }
                }
            }
            return Ok(merged);
        }
        if shift >= 28 {
            proof {
                assert(spec_var_from(reader.remaining(), 5) == Err::<
                    (nat, nat),
                    TcmErrorView,
                >(spec_var_overlong()));
            }
            return Err(TcmError::deserialization_error("variable-length integer is too long"));
        }
        proof {
            assert(group == byte - 128);
            let inner = spec_var_from(reader.remaining(), depth + 1);
            assert(spec_var_from(here, depth) == match inner {
                Ok((high, n)) => Ok::<(nat, nat), TcmErrorView>(
                    ((byte - 128) as nat + 128 * high, n + 1),
                ),
                Err(e) => Err(e),
            });
            match inner {
                Ok((high, n)) => {
                    assert(scale * ((byte - 128) as nat + 128 * high) == scale * ((byte
                        - 128) as nat) + (scale * 128) * high) by (nonlinear_arith);
                },
                Err(e) => {},
            }
            let ghost step = scale * (group as nat);
            assert(depth == 0 ==> step == group);
            assert(depth == 1 ==> step == 0x80 * group);
            assert(depth == 2 ==> step == 0x4000 * group);
            assert(depth == 3 ==> step == 0x20_0000 * group);
            low = low + step;
            scale = scale * 128;
            depth = depth + 1;
        }
        value = merged;
        shift = shift + 7;
    }
}

} // verus!
