//! A read position in a byte sequence, and little-endian integers.
use vstd::prelude::*;
use vstd::slice::slice_subrange;

verus! {

/// The number that the bytes `s` spell, least significant byte first.
pub open spec fn spec_le_value(s: Seq<u8>) -> nat
    decreases s.len(),
{
    if s.len() == 0 {
        0
    } else {
        s[0] as nat + 256 * spec_le_value(s.skip(1))
    }
}

/// The `width` low bytes of `value`, least significant byte first.
pub open spec fn spec_le_bytes(value: nat, width: nat) -> Seq<u8>
    decreases width,
{
    if width == 0 {
        Seq::empty()
    } else {
        seq![(value % 256) as u8] + spec_le_bytes(value / 256, (width - 1) as nat)
    }
}

/// 256 to the power `n`.
pub open spec fn spec_pow256(n: nat) -> nat
    decreases n,
{
    if n == 0 {
        1
    } else {
        256 * spec_pow256((n - 1) as nat)
    }
}

/// The first powers of 256.
pub proof fn lemma_pow256_values()
    ensures
        spec_pow256(0) == 1,
        spec_pow256(1) == 0x100,
        spec_pow256(2) == 0x1_0000,
        spec_pow256(3) == 0x100_0000,
        spec_pow256(4) == 0x1_0000_0000,
        spec_pow256(5) == 0x100_0000_0000,
        spec_pow256(6) == 0x1_0000_0000_0000,
        spec_pow256(7) == 0x100_0000_0000_0000,
        spec_pow256(8) == 0x1_0000_0000_0000_0000,
{
    reveal_with_fuel(spec_pow256, 10);
}

/// `width` bytes are written, whatever the value.
pub proof fn lemma_le_bytes_len(value: nat, width: nat)
    ensures
        spec_le_bytes(value, width).len() == width,
    decreases width,
{
    if width > 0 {
        lemma_le_bytes_len(value / 256, (width - 1) as nat);
    }
}

/// What `n` bytes spell is below 256 to the `n`.
pub proof fn lemma_le_value_bound(s: Seq<u8>)
    ensures
        spec_le_value(s) < spec_pow256(s.len()),
    decreases s.len(),
{
    if s.len() > 0 {
        lemma_le_value_bound(s.skip(1));
    }
}

/// Reading back the bytes of a value that fits in them gives the value.
pub proof fn lemma_le_round_trip(value: nat, width: nat)
    requires
        value < spec_pow256(width),
    ensures
        spec_le_value(spec_le_bytes(value, width)) == value,
    decreases width,
{
    if width > 0 {
        let s = spec_le_bytes(value, width);
        let rest = spec_le_bytes(value / 256, (width - 1) as nat);
        assert(s.skip(1) =~= rest);
        lemma_le_round_trip(value / 256, (width - 1) as nat);
    }
}

/// Appends the `width` low bytes of `value` to `writer`, least significant
/// byte first.
pub fn write_le(writer: &mut Vec<u8>, value: u64, width: usize)
    ensures
        final(writer)@ == old(writer)@ + spec_le_bytes(value as nat, width as nat),
{
    let ghost before = writer@;
    let mut rest: u64 = value;
    let mut i: usize = 0;
    while i < width
        invariant
            i <= width,
            before + spec_le_bytes(value as nat, width as nat) == writer@ + spec_le_bytes(
                rest as nat,
                (width - i) as nat,
            ),
        decreases width - i,
    {
        let ghost prev = writer@;
        writer.push((rest % 256) as u8);
        proof {
            let tail = spec_le_bytes((rest / 256) as nat, (width - i - 1) as nat);
            assert(prev + (seq![(rest % 256) as u8] + tail) =~= writer@ + tail);
        }
        rest = rest / 256;
        i = i + 1;
    }
    assert(writer@ + Seq::<u8>::empty() =~= writer@);
}

/// A byte sequence with a read position: what is left to read is
/// [`ByteReader::remaining`].
pub struct ByteReader<'a> {
    pub bytes: &'a [u8],
    pub pos: usize,
}

impl<'a> ByteReader<'a> {
    /// The position lies within the bytes.
    pub open spec fn wf(&self) -> bool {
        self.pos <= self.bytes@.len()
    }

    /// The bytes from the position on.
    pub open spec fn remaining(&self) -> Seq<u8> {
        self.bytes@.skip(self.pos as int)
    }

    /// A reader at the start of `bytes`.
    pub fn new(bytes: &'a [u8]) -> (r: Self)
        ensures
            r.wf(),
            r.bytes@ == bytes@,
            r.pos == 0,
            r.remaining() == bytes@,
    {
        assert(bytes@.skip(0) =~= bytes@);
        ByteReader { bytes, pos: 0 }
    }

    /// Whether nothing is left to read.
    pub fn at_end(&self) -> (b: bool)
        requires
            self.wf(),
        ensures
            b == (self.remaining().len() == 0),
    {
        self.pos >= self.bytes.len()
    }

    /// The next byte, or `None` at the end.  The position moves past a byte
    /// that was read and stays at the end otherwise.
    pub fn read_u8(&mut self) -> (r: Option<u8>)
        requires
            old(self).wf(),
        ensures
            final(self).wf(),
            final(self).bytes == old(self).bytes,
            old(self).remaining().len() == 0 ==> r is None && final(self).pos == old(self).pos,
            old(self).remaining().len() > 0 ==> r == Some(old(self).remaining()[0])
                && final(self).pos == old(self).pos + 1
                && final(self).remaining() == old(self).remaining().skip(1),
    {
        if self.pos < self.bytes.len() {
            let b = self.bytes[self.pos];
            assert(self.bytes@.skip(self.pos as int).skip(1) =~= self.bytes@.skip(self.pos + 1));
            self.pos = self.pos + 1;
            Some(b)
        } else {
            None
        }
    }

    /// The byte `offset` bytes past the position, or `None` where the
    /// bytes end before it.  The position stays.
    pub fn peek_at(&self, offset: usize) -> (r: Option<u8>)
        requires
            self.wf(),
        ensures
            offset < self.remaining().len() ==> r == Some(self.remaining()[offset as int]),
            offset >= self.remaining().len() ==> r is None,
    {
        if offset < self.bytes.len() - self.pos {
            Some(self.bytes[self.pos + offset])
        } else {
            None
        }
    }

    /// The next `n` bytes, or `None` where fewer are left.  The position
    /// moves past what was read and stays otherwise.
    pub fn read_exact(&mut self, n: usize) -> (r: Option<&'a [u8]>)
        requires
            old(self).wf(),
        ensures
            final(self).wf(),
            final(self).bytes == old(self).bytes,
            old(self).remaining().len() < n ==> r is None && final(self).pos == old(self).pos,
            old(self).remaining().len() >= n ==> r is Some
                && r.unwrap()@ == old(self).remaining().take(n as int)
                && final(self).pos == old(self).pos + n
                && final(self).remaining() == old(self).remaining().skip(n as int),
    {
        if self.bytes.len() - self.pos >= n {
            let out = slice_subrange(self.bytes, self.pos, self.pos + n);
            assert(out@ =~= self.bytes@.skip(self.pos as int).take(n as int));
            assert(self.bytes@.skip(self.pos as int).skip(n as int) =~= self.bytes@.skip(
                self.pos + n,
            ));
            self.pos = self.pos + n;
            Some(out)
        } else {
            None
        }
    }

    /// The number that the next `n` bytes spell, least significant byte
    /// first, or `None` where fewer are left.
    pub fn read_le(&mut self, n: usize) -> (r: Option<u64>)
        requires
            old(self).wf(),
            n <= 8,
        ensures
            final(self).wf(),
            final(self).bytes == old(self).bytes,
            old(self).remaining().len() < n ==> r is None && final(self).pos == old(self).pos,
            old(self).remaining().len() >= n ==> r == Some(
                spec_le_value(old(self).remaining().take(n as int)) as u64,
            ) && spec_le_value(old(self).remaining().take(n as int)) <= u64::MAX
                && final(self).pos == old(self).pos + n
                && final(self).remaining() == old(self).remaining().skip(n as int),
    {
        match self.read_exact(n) {
            None => None,
            Some(chunk) => {
                let mut acc: u64 = 0;
                let mut i: usize = n;
                proof {
                    lemma_pow256_values();
                    assert(chunk@.skip(n as int) =~= Seq::<u8>::empty());
                }
                while i > 0
                    invariant
                        i <= n <= 8,
                        chunk@.len() == n,
                        acc as nat == spec_le_value(chunk@.skip(i as int)),
                    decreases i,
                {
                    proof {
                        let t = chunk@.skip(i - 1);
                        assert(t.skip(1) =~= chunk@.skip(i as int));
                        lemma_le_value_bound(t);
                        lemma_le_value_bound(chunk@.skip(i as int));
                        lemma_pow256_values();
                        assert(t.len() <= 8);
                        lemma_pow256_monotone(t.len(), 8);
                    }
                    i = i - 1;
                    acc = acc * 256 + chunk[i] as u64;
                }
                proof {
                    assert(chunk@.skip(0) =~= chunk@);
                }
                Some(acc)
            },
        }
    }
}

/// Powers of 256 grow with the exponent.
pub proof fn lemma_pow256_monotone(a: nat, b: nat)
    requires
        a <= b,
    ensures
        spec_pow256(a) <= spec_pow256(b),
        spec_pow256(a) >= 1,
    decreases b,
{
    if a < b {
        lemma_pow256_monotone(a, (b - 1) as nat);
    } else if a > 0 {
        lemma_pow256_monotone((a - 1) as nat, (b - 1) as nat);
    }
}

/// The number that the `n` bytes of `bytes` from `from` on spell, least
/// significant byte first.
pub fn le_value_at(bytes: &[u8], from: usize, n: usize) -> (value: u64)
    requires
        from + n <= bytes@.len(),
        n <= 8,
    ensures
        value == spec_le_value(bytes@.subrange(from as int, from + n)),
{
    let mut reader = ByteReader { bytes, pos: from };
    proof {
        assert(reader.remaining().take(n as int) =~= bytes@.subrange(from as int, from + n));
    }
    match reader.read_le(n) {
        Some(v) => v,
        None => 0,
    }
}

/// `n` zero bytes.
pub open spec fn spec_zeros(n: nat) -> Seq<u8> {
    Seq::new(n, |i: int| 0u8)
}

/// Appends `n` zero bytes to `writer`.
pub fn write_zeros(writer: &mut Vec<u8>, n: usize)
    ensures
        final(writer)@ == old(writer)@ + spec_zeros(n as nat),
{
    let ghost before = writer@;
    let mut i: usize = 0;
    assert(writer@ =~= before + spec_zeros(0));
    while i < n
        invariant
            i <= n,
            writer@ == before + spec_zeros(i as nat),
        decreases n - i,
    {
        writer.push(0);
        i = i + 1;
        assert(writer@ =~= before + spec_zeros(i as nat));
    }
}

} // verus!
