//! References from one node to another.

use crate::error::DecodeError;
use crate::visitor::{announced_len, filled, len_prefix, stopped, Decoded, Visit, Visitor};
use vstd::bytes::{lemma_auto_spec_u64_to_from_le_bytes, u64_from_le_bytes, u64_to_le_bytes};
use vstd::prelude::*;

verus! {

/// A reference to a node in the storage of the graph that holds it: a slot
/// and the generation of the slot's content. The graph gives it meaning; a
/// node only keeps it.
#[derive(Clone, Copy, Debug, PartialEq, Eq, Structural)]
pub struct Handle {
    pub index: u32,
    pub generation: u32,
}

impl View for Handle {
    type V = Handle;

    open spec fn view(&self) -> Handle {
        *self
    }
}

impl Handle {
    /// The handle that refers to no node.
    pub open spec fn spec_none() -> Handle {
        Handle { index: 0, generation: 0 }
    }

    /// The handle that refers to no node.
    #[verifier::when_used_as_spec(spec_none)]
    pub fn none() -> (handle: Handle)
        ensures
            handle == Handle::spec_none(),
    {
        Handle { index: 0, generation: 0 }
    }

    /// Whether the handle refers to no node.
    pub fn is_none(&self) -> (none: bool)
        ensures
            none == (*self == Handle::spec_none()),
    {
        self.index == 0 && self.generation == 0
    }

    /// Whether the handle refers to a node.
    pub fn is_some(&self) -> (some: bool)
        ensures
            some == (*self != Handle::spec_none()),
    {
        !self.is_none()
    }
}

impl Visit for Handle {
    open spec fn encodable(value: Handle) -> bool {
        true
    }

    /// The slot, then the generation: eight bytes.
    open spec fn encoding(value: Handle) -> Seq<u8> {
        u32::encoding(value.index) + u32::encoding(value.generation)
    }

    /// All eight bytes are read, or none.
    open spec fn decoding(dest: Handle, input: Seq<u8>) -> Decoded<Handle> {
        if input.len() >= 8 {
            filled(
                Handle {
                    index: u32::decoding(dest.index, input).value,
                    generation: u32::decoding(dest.generation, input.skip(4)).value,
                },
                input.skip(8),
            )
        } else {
            stopped(dest, input, DecodeError::UnexpectedEnd)
        }
    }

    open spec fn restored(value: Handle, dest: Handle) -> Handle {
        value
    }

    fn visit(&mut self, visitor: &mut Visitor) -> (result: Result<(), DecodeError>) {
        if visitor.is_reading() && visitor.remaining() < 8 {
            return Err(DecodeError::UnexpectedEnd);
        }
        self.index.visit(visitor)?;
        self.generation.visit(visitor)?;
        Ok(())
    }

    proof fn lemma_reads_back(value: Handle, dest: Handle, rest: Seq<u8>) {
        let after_index = u32::encoding(value.generation) + rest;
        u32::lemma_reads_back(value.index, dest.index, after_index);
        u32::lemma_reads_back(value.generation, dest.generation, rest);
        let input = Handle::encoding(value) + rest;
        assert(input =~= u32::encoding(value.index) + after_index);
        assert(input.skip(4).skip(4) =~= input.skip(8));
    }
}

/// The encodings of `handles`, one after the other.
pub open spec fn handles_encoding(handles: Seq<Handle>) -> Seq<u8>
    decreases handles.len(),
{
    if handles.len() == 0 {
        Seq::empty()
    } else {
        handles_encoding(handles.drop_last()) + Handle::encoding(handles.last())
    }
}

/// The handle that `input` starts with.
pub open spec fn handle_from(input: Seq<u8>) -> Handle {
    Handle::decoding(Handle::spec_none(), input).value
}

/// The `count` handles that `input` starts with.
pub open spec fn handles_decoding(input: Seq<u8>, count: nat) -> Seq<Handle> {
    Seq::new(count, |i: int| handle_from(input.skip(8 * i)))
}

impl Visit for Vec<Handle> {
    open spec fn encodable(value: Seq<Handle>) -> bool {
        value.len() <= u64::MAX
    }

    /// The number of handles, then the handles.
    open spec fn encoding(value: Seq<Handle>) -> Seq<u8> {
        len_prefix(value.len()) + handles_encoding(value)
    }

    /// The read is refused as a whole, and consumes nothing, when the input
    /// is shorter than the prefix announces.
    open spec fn decoding(dest: Seq<Handle>, input: Seq<u8>) -> Decoded<Seq<Handle>> {
        if input.len() < 8 || input.len() - 8 < 8 * announced_len(input) {
            stopped(dest, input, DecodeError::UnexpectedEnd)
        } else {
            let count = announced_len(input);
            filled(handles_decoding(input.skip(8), count as nat), input.skip(8 + 8 * count))
        }
    }

    open spec fn restored(value: Seq<Handle>, dest: Seq<Handle>) -> Seq<Handle> {
        value
    }

    fn visit(&mut self, visitor: &mut Visitor) -> (result: Result<(), DecodeError>) {
        if visitor.is_reading() {
            let left = visitor.remaining();
            if left < 8 {
                return Err(DecodeError::UnexpectedEnd);
            }
            let announced = u64_from_le_bytes(visitor.peek(0, 8).as_slice());
            if announced > ((left - 8) / 8) as u64 {
                return Err(DecodeError::UnexpectedEnd);
            }
            let count = announced as usize;
            visitor.advance(8);
            let ghost body = visitor.bytes();
            let mut handles: Vec<Handle> = Vec::new();
            let mut i: usize = 0;
            while i < count
                invariant
                    visitor.reading(),
                    i <= count,
                    8 * count <= body.len(),
                    visitor.bytes() == body.skip(8 * i),
                    handles@ == handles_decoding(body, i as nat),
                decreases count - i,
            {
                let mut handle = Handle::none();
                handle.visit(visitor)?;
                handles.push(handle);
                i = i + 1;
            }
            *self = handles;
            Ok(())
        } else {
            let ghost start = visitor.bytes();
            visitor.append(u64_to_le_bytes(self.len() as u64));
            let mut i: usize = 0;
            while i < self.len()
                invariant
                    !visitor.reading(),
                    i <= self.len(),
                    self@ == old(self)@,
                    visitor.bytes() == start + len_prefix(self@.len()) + handles_encoding(
                        self@.take(i as int),
                    ),
                decreases self.len() - i,
            {
                let mut handle = self[i];
                handle.visit(visitor)?;
                proof {
                    let next = self@.take(i + 1);
                    assert(next.drop_last() =~= self@.take(i as int));
                }
                i = i + 1;
            }
            proof {
                assert(self@.take(i as int) =~= self@);
            }
            Ok(())
        }
    }

    proof fn lemma_reads_back(value: Seq<Handle>, dest: Seq<Handle>, rest: Seq<u8>) {
        lemma_auto_spec_u64_to_from_le_bytes();
        lemma_handles_encoding_len(value);
        let body = handles_encoding(value) + rest;
        let input = Vec::<Handle>::encoding(value) + rest;
        assert(input.subrange(0, 8) =~= len_prefix(value.len()));
        assert(input.skip(8) =~= body);
        assert(input.skip(8 + 8 * (value.len() as int)) =~= rest);
        assert forall|i: int| 0 <= i < value.len() implies handle_from(body.skip(8 * i))
            == value[i] by {
            lemma_handle_in_encoding(value, i, rest);
        }
        assert(handles_decoding(body, value.len()) =~= value);
    }
}

/// Each handle takes eight bytes.
pub proof fn lemma_handles_encoding_len(handles: Seq<Handle>)
    ensures
        handles_encoding(handles).len() == 8 * handles.len(),
    decreases handles.len(),
{
    if handles.len() > 0 {
        lemma_handles_encoding_len(handles.drop_last());
        Handle::lemma_reads_back(handles.last(), handles.last(), Seq::empty());
    }
}

/// The handle at `i` stands `8 * i` bytes into the encoding of `handles`.
proof fn lemma_handle_in_encoding(handles: Seq<Handle>, i: int, rest: Seq<u8>)
    requires
        0 <= i < handles.len(),
    ensures
        handle_from((handles_encoding(handles) + rest).skip(8 * i)) == handles[i],
    decreases handles.len(),
{
    let front = handles.drop_last();
    let last = Handle::encoding(handles.last());
    lemma_handles_encoding_len(front);
    assert(handles_encoding(handles) + rest =~= handles_encoding(front) + (last + rest));
    if i < front.len() {
        lemma_handle_in_encoding(front, i, last + rest);
    } else {
        assert((handles_encoding(handles) + rest).skip(8 * i) =~= last + rest);
        Handle::lemma_reads_back(handles.last(), Handle::spec_none(), rest);
    }
}

} // verus!
