//! The version-1 input stream: the number of events, then for each event
//! its frame and a control byte, then one terminator byte.
use vstd::prelude::*;
use crate::error::{TcmError, TcmErrorView};
use crate::input::InputCommand;
use crate::replay::reader::ByteReader;
use crate::replay::stream_v2::{lemma_prepend_nothing, lemma_prepend_prepend, spec_prepend};
use crate::replay::v1::{
    deserialize_input, serialize_input, spec_deserialize_input, spec_serialize_input, EOM,
};
use crate::replay::varint::{read_var_u32, spec_read_var_u32, spec_var_u32, write_var_u32};
use crate::replay::Replay;
use crate::Frame;

verus! {

/// The error for an event that version 1 cannot hold.
pub open spec fn spec_unsupported_input() -> TcmErrorView {
    TcmErrorView::InvalidInput { message: "Unsupported input type in v1 replay"@ }
}

/// The error for a control byte whose code is not in use.
pub open spec fn spec_invalid_input_byte() -> TcmErrorView {
    TcmErrorView::DeserializationError { message: "Invalid input byte in v1 replay"@ }
}

/// The error for a stream that ends before a control byte.
pub open spec fn spec_input_eof() -> TcmErrorView {
    TcmErrorView::UnexpectedEof { context: "input byte"@ }
}

/// The low 32 bits of a number.
pub open spec fn spec_low32(value: int) -> u32 {
    (value % 0x1_0000_0000) as u32
}

/// The bytes of one event: the low 32 bits of its frame and its control
/// byte.
pub open spec fn spec_encode_entry(command: InputCommand) -> Result<Seq<u8>, TcmErrorView> {
    match spec_serialize_input(command.input) {
        None => Err(spec_unsupported_input()),
        Some(byte) => Ok(spec_var_u32(spec_low32(command.frame as int)) + seq![byte]),
    }
}

/// The bytes of the events from the one at `i` on.
#[verifier::opaque]
pub open spec fn spec_encode_entries(inputs: Seq<InputCommand>, i: int) -> Result<
    Seq<u8>,
    TcmErrorView,
>
    decreases inputs.len() - i,
{
    if i < 0 || i >= inputs.len() {
        Ok(Seq::empty())
    } else {
        match spec_encode_entry(inputs[i]) {
            Err(e) => Err(e),
            Ok(bytes) => spec_prepend(bytes, spec_encode_entries(inputs, i + 1)),
        }
    }
}

/// The version-1 input stream of `inputs`: the low 32 bits of their
/// number, the events, the terminator.
pub open spec fn spec_encode_inputs_v1(inputs: Seq<InputCommand>) -> Result<Seq<u8>, TcmErrorView> {
    match spec_encode_entries(inputs, 0) {
        Err(e) => Err(e),
        Ok(entries) => Ok(spec_var_u32(spec_low32(inputs.len() as int)) + entries + seq![EOM]),
    }
}

/// The event at the start of `s` and the bytes it takes.
pub open spec fn spec_decode_entry(s: Seq<u8>) -> Result<(InputCommand, nat), TcmErrorView> {
    match spec_read_var_u32(s) {
        Err(e) => Err(e),
        Ok((frame, n)) => if s.len() <= n {
            Err(spec_input_eof())
        } else {
            match spec_deserialize_input(s[n as int]) {
                None => Err(spec_invalid_input_byte()),
                Some(input) => Ok((InputCommand { frame: frame as Frame, input }, n + 1)),
            }
        },
    }
}

/// The `count` events at the start of `s` and the bytes they take.
#[verifier::opaque]
pub open spec fn spec_decode_entries(s: Seq<u8>, count: nat) -> Result<
    (Seq<InputCommand>, nat),
    TcmErrorView,
>
    decreases count,
{
    if count == 0 {
        Ok((Seq::empty(), 0))
    } else {
        match spec_decode_entry(s) {
            Err(e) => Err(e),
            Ok((command, n)) => match spec_decode_entries(s.skip(n as int), (count - 1) as nat) {
                Err(e) => Err(e),
                Ok((rest, m)) => Ok((seq![command] + rest, n + m)),
            },
        }
    }
}

/// The events that a version-1 input stream stands for, and the bytes
/// that they and their number take.  The terminator is not looked at.
pub open spec fn spec_decode_inputs_v1(s: Seq<u8>) -> Result<
    (Seq<InputCommand>, nat),
    TcmErrorView,
> {
    match spec_read_var_u32(s) {
        Err(e) => Err(e),
        Ok((count, n)) => match spec_decode_entries(s.skip(n as int), count as nat) {
            Err(e) => Err(e),
            Ok((events, m)) => Ok((events, n + m)),
        },
    }
}

/// Past the last event nothing is written.
pub proof fn lemma_encode_entries_end(inputs: Seq<InputCommand>, i: int)
    requires
        i >= inputs.len(),
    ensures
        spec_encode_entries(inputs, i) == Ok::<Seq<u8>, TcmErrorView>(Seq::empty()),
{
    reveal(spec_encode_entries);
}

/// The bytes from the event at `i` on are its own, then those of the
/// events after it.
pub proof fn lemma_encode_entries_step(inputs: Seq<InputCommand>, i: int)
    requires
        0 <= i < inputs.len(),
    ensures
        spec_encode_entries(inputs, i) == match spec_encode_entry(inputs[i]) {
            Err(e) => Err::<Seq<u8>, TcmErrorView>(e),
            Ok(bytes) => spec_prepend(bytes, spec_encode_entries(inputs, i + 1)),
        },
{
    reveal(spec_encode_entries);
}

/// No events take no bytes.
pub proof fn lemma_decode_entries_end(s: Seq<u8>)
    ensures
        spec_decode_entries(s, 0) == Ok::<(Seq<InputCommand>, nat), TcmErrorView>(
            (Seq::empty(), 0),
        ),
{
    reveal(spec_decode_entries);
}

/// The events at the start of a stream are the first, then the others.
pub proof fn lemma_decode_entries_step(s: Seq<u8>, count: nat)
    requires
        count > 0,
    ensures
        spec_decode_entries(s, count) == match spec_decode_entry(s) {
            Err(e) => Err::<(Seq<InputCommand>, nat), TcmErrorView>(e),
            Ok((command, n)) => match spec_decode_entries(s.skip(n as int), (count - 1) as nat) {
                Err(e) => Err(e),
                Ok((rest, m)) => Ok((seq![command] + rest, n + m)),
            },
        },
{
    reveal(spec_decode_entries);
}

/// What the events read so far and the events still to be read make
/// together.
pub open spec fn spec_join_entries(
    done: Seq<InputCommand>,
    taken: nat,
    r: Result<(Seq<InputCommand>, nat), TcmErrorView>,
) -> Result<(Seq<InputCommand>, nat), TcmErrorView> {
    match r {
        Ok((rest, m)) => Ok((done + rest, taken + m)),
        Err(e) => Err(e),
    }
}

impl<M> Replay<M> {
    /// Appends the version-1 input stream of the events to `writer`.  Where
    /// an event cannot be held, nothing is appended.
    pub fn serialize_inputs_v1(&self, writer: &mut Vec<u8>) -> (r: Result<(), TcmError>)
        ensures
            match spec_encode_inputs_v1(self.inputs@) {
                Ok(bytes) => r is Ok && final(writer)@ == old(writer)@ + bytes,
                Err(e) => r is Err && r.unwrap_err()@ == e && final(writer)@ == old(writer)@,
            },
    {
        let n: usize = self.inputs.len();
        let mut out: Vec<u8> = Vec::new();
        write_var_u32(&mut out, (n as u64 % 0x1_0000_0000) as u32);
        let ghost prefix = out@;
        let ghost mut body: Seq<u8> = Seq::empty();
        let ghost total = spec_encode_entries(self.inputs@, 0);
        let mut i: usize = 0;
        proof {
            assert(prefix + body =~= out@);
            lemma_prepend_nothing(total);
        }
        while i < n
            invariant
                n == self.inputs@.len(),
                i <= n,
                out@ == prefix + body,
                total == spec_encode_entries(self.inputs@, 0),
                total == spec_prepend(body, spec_encode_entries(self.inputs@, i as int)),
                writer@ == old(writer)@,
            decreases n - i,
        {
            let input = &self.inputs[i];
            proof {
                lemma_encode_entries_step(self.inputs@, i as int);
            }
            let input_data: u8 = match serialize_input(&input.input) {
                Some(byte) => byte,
                None => {
                    return Err(TcmError::invalid_input("Unsupported input type in v1 replay"));
                },
            };
            let ghost before = body;
            write_var_u32(&mut out, (input.frame % 0x1_0000_0000) as u32);
            out.push(input_data);
            proof {
                let piece = spec_var_u32(spec_low32(input.frame as int)) + seq![input_data];
                body = body + piece;
                lemma_prepend_prepend(
                    before,
                    piece,
                    spec_encode_entries(self.inputs@, i as int + 1),
                );
                assert(out@ =~= prefix + body);
            }
            i = i + 1;
        }
        proof {
            lemma_encode_entries_end(self.inputs@, i as int);
            assert(body + Seq::<u8>::empty() =~= body);
        }
        out.push(EOM);
        let ghost old_writer = writer@;
        writer.append(&mut out);
        proof {
            assert(writer@ =~= old_writer + (prefix + body + seq![EOM]));
        }
        Ok(())
    }

    /// Reads a version-1 input stream.  On success the position is past
    /// the last event, before the terminator.
    pub fn deserialize_inputs_v1(reader: &mut ByteReader) -> (r: Result<
        Vec<InputCommand>,
        TcmError,
    >)
        requires
            old(reader).wf(),
        ensures
            final(reader).wf(),
            final(reader).bytes == old(reader).bytes,
            match spec_decode_inputs_v1(old(reader).remaining()) {
                Ok((events, n)) => r is Ok && r.unwrap()@ == events && final(reader).pos == old(
                    reader,
                ).pos + n,
                Err(e) => r is Err && r.unwrap_err()@ == e,
            },
    {
        let ghost start = reader.remaining();
        let input_count: u32 = match read_var_u32(reader) {
            Ok(v) => v,
            Err(e) => {
                return Err(e);
            },
        };
        let mut inputs: Vec<InputCommand> = Vec::new();
        let ghost first = reader.remaining();
        let ghost first_pos = reader.pos;
        let ghost total = spec_decode_entries(first, input_count as nat);
        let mut k: u32 = 0;
        proof {
            match total {
                Ok((rest, m)) => {
                    assert(Seq::<InputCommand>::empty() + rest =~= rest);
                },
                Err(e) => {},
            }
        }
        while k < input_count
            invariant
                reader.wf(),
                reader.bytes == old(reader).bytes,
                k <= input_count,
                old(reader).pos <= first_pos <= reader.pos,
                total == spec_decode_entries(first, input_count as nat),
                start == old(reader).remaining(),
                spec_read_var_u32(start) == Ok::<(u32, nat), TcmErrorView>(
                    (input_count, (first_pos - old(reader).pos) as nat),
                ),
                first == start.skip(first_pos - old(reader).pos),
                total == spec_join_entries(
                    inputs@,
                    (reader.pos - first_pos) as nat,
                    spec_decode_entries(reader.remaining(), (input_count - k) as nat),
                ),
            decreases input_count - k,
        {
            let ghost here = reader.remaining();
            let ghost before = inputs@;
            proof {
                lemma_decode_entries_step(here, (input_count - k) as nat);
            }
            let frame: Frame = match read_var_u32(reader) {
                Ok(v) => v as Frame,
                Err(e) => {
                    return Err(e);
                },
            };
            let ghost mid = reader.remaining();
            let byte: u8 = match reader.read_u8() {
                Some(b) => b,
                None => {
                    return Err(TcmError::unexpected_eof("input byte"));
                },
            };
            let input = match deserialize_input(byte) {
                Some(input) => input,
                None => {
                    return Err(TcmError::deserialization_error("Invalid input byte in v1 replay"));
                },
            };
            inputs.push(InputCommand { frame, input });
            proof {
                let n = spec_read_var_u32(here)->Ok_0.1;
                assert(mid == here.skip(n as int));
                assert(mid[0] == here[n as int]);
                assert(here.skip(n as int).skip(1) =~= here.skip(n as int + 1));
                match spec_decode_entries(here.skip(n as int + 1), (input_count - k - 1) as nat) {
                    Ok((rest, m)) => {
                        assert(before + (seq![InputCommand { frame, input }] + rest) =~= inputs@
                            + rest);
                    },
                    Err(e) => {},
                }
            }
            k = k + 1;
        }
        proof {
            lemma_decode_entries_end(reader.remaining());
            assert(inputs@ + Seq::<InputCommand>::empty() =~= inputs@);
        }
        Ok(inputs)
    }
}

} // verus!
