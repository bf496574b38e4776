//! A read or write session over a byte stream, and the protocol by which a
//! value passes through it.
//!
//! One `visit` serves both directions. In a writing session it appends the
//! value's encoding and leaves the value alone; in a reading session it
//! consumes bytes from the front of the input and fills the value in place.
//! Fields have no names in the stream: they are told apart by their order.

use crate::error::DecodeError;
use vstd::bytes::{
    lemma_auto_spec_u32_to_from_le_bytes, lemma_auto_spec_u64_to_from_le_bytes,
    spec_u32_from_le_bytes, spec_u32_to_le_bytes, spec_u64_from_le_bytes, spec_u64_to_le_bytes,
    u32_from_le_bytes, u32_to_le_bytes, u64_from_le_bytes, u64_to_le_bytes,
};
use vstd::prelude::*;
use vstd::slice::{slice_subrange, slice_to_vec};
use vstd::utf8::{
    decode_utf8, encode_utf8, encode_utf8_decode_utf8, encode_utf8_valid_utf8, valid_utf8,
};

verus! {

/// The input of a reading session: the bytes, and how many were consumed.
struct Input {
    data: Vec<u8>,
    pos: usize,
}

impl Input {
    #[verifier::type_invariant]
    spec fn within(self) -> bool {
        self.pos <= self.data.len()
    }

    spec fn unread(self) -> Seq<u8> {
        self.data@.skip(self.pos as int)
    }
}

/// A session that either writes values to a byte stream or reads them back.
pub struct Visitor {
    reading: bool,
    output: Vec<u8>,
    input: Input,
}

impl Visitor {
    /// Whether the session reads.
    pub closed spec fn reading(&self) -> bool {
        self.reading
    }

    /// The bytes written so far, in a writing session; the input not yet
    /// consumed, in a reading session.
    pub closed spec fn bytes(&self) -> Seq<u8> {
        if self.reading {
            self.input.unread()
        } else {
            self.output@
        }
    }

    /// Starts a writing session with nothing written.
    pub fn new() -> (visitor: Visitor)
        ensures
            !visitor.reading(),
            visitor.bytes() == Seq::<u8>::empty(),
    {
        Visitor { reading: false, output: Vec::new(), input: Input { data: Vec::new(), pos: 0 } }
    }

    /// Starts a reading session over `data`.
    pub fn from_bytes(data: Vec<u8>) -> (visitor: Visitor)
        ensures
            visitor.reading(),
            visitor.bytes() == data@,
    {
        Visitor { reading: true, output: Vec::new(), input: Input { data, pos: 0 } }
    }

    /// Whether the session reads.
    pub fn is_reading(&self) -> (reading: bool)
        ensures
            reading == self.reading(),
    {
        self.reading
    }

    /// How many bytes of input are left; 0 in a writing session.
    pub fn remaining(&self) -> (left: usize)
        ensures
            left == if self.reading() {
                self.bytes().len()
            } else {
                0
            },
    {
        proof {
            use_type_invariant(&self.input);
        }
        if self.reading {
            self.input.data.len() - self.input.pos
        } else {
            0
        }
    }

    /// Ends the session and hands out its bytes: what was written, or the
    /// input that was not consumed.
    pub fn into_bytes(self) -> (bytes: Vec<u8>)
        ensures
            bytes@ == self.bytes(),
    {
        proof {
            use_type_invariant(&self.input);
        }
        if self.reading {
            let Input { data, pos } = self.input;
            let mut data = data;
            data.split_off(pos)
        } else {
            self.output
        }
    }

    /// Appends `chunk` to what was written.
    pub(crate) fn append(&mut self, chunk: Vec<u8>)
        requires
            !old(self).reading(),
        ensures
            !final(self).reading(),
            final(self).bytes() == old(self).bytes() + chunk@,
    {
        let mut chunk = chunk;
        self.output.append(&mut chunk);
    }

    /// Copies `len` bytes of the input, starting `offset` bytes ahead,
    /// without consuming them.
    pub(crate) fn peek(&self, offset: usize, len: usize) -> (chunk: Vec<u8>)
        requires
            self.reading(),
            offset + len <= self.bytes().len(),
        ensures
            chunk@ == self.bytes().subrange(offset as int, offset + len),
    {
        proof {
            use_type_invariant(&self.input);
        }
        let start = self.input.pos + offset;
        slice_to_vec(slice_subrange(self.input.data.as_slice(), start, start + len))
    }

    /// Consumes `count` bytes of the input.
    pub(crate) fn advance(&mut self, count: usize)
        requires
            old(self).reading(),
            count <= old(self).bytes().len(),
        ensures
            final(self).reading(),
            final(self).bytes() == old(self).bytes().skip(count as int),
    {
        proof {
            use_type_invariant(&self.input);
        }
        self.input.pos = self.input.pos + count;
    }
}

/// What a read leaves behind.
pub struct Decoded<V> {
    /// The destination, as far as the read filled it.
    pub value: V,
    /// The input that was not consumed.
    pub rest: Seq<u8>,
    /// The reason for which the read stopped, if it did.
    pub fault: Option<DecodeError>,
}

/// A read that filled all of the value.
pub open spec fn filled<V>(value: V, rest: Seq<u8>) -> Decoded<V> {
    Decoded { value, rest, fault: None }
}

/// A read that stopped with `value` in the destination and `rest` unread.
pub open spec fn stopped<V>(value: V, rest: Seq<u8>, fault: DecodeError) -> Decoded<V> {
    Decoded { value, rest, fault: Some(fault) }
}

/// The read of a record after the read of one of its fields: `value` is the
/// record with that field in place, the rest and the fault are the field's.
pub open spec fn carried<F, V>(field: Decoded<F>, value: V) -> Decoded<V> {
    Decoded { value, rest: field.rest, fault: field.fault }
}

/// A value that can pass through a [`Visitor`].
///
/// An implementation says what it writes and what it makes of what it reads,
/// and proves that the two fit: what was written is read back.
pub trait Visit: Sized + View {
    /// Whether the encoding can express `value`: whether its lengths fit
    /// their prefixes. It holds of every value in memory, and a write says
    /// so of the value that it wrote.
    spec fn encodable(value: Self::V) -> bool;

    /// The bytes that a write of `value` appends.
    spec fn encoding(value: Self::V) -> Seq<u8>;

    /// What a read from `input` makes of `dest`.
    spec fn decoding(dest: Self::V, input: Seq<u8>) -> Decoded<Self::V>;

    /// What a read of the encoding of `value` makes of `dest`: `value`, but
    /// for the fields that are not stored. What those come to hold is for
    /// the implementation to say; it may depend on `dest`.
    spec fn restored(value: Self::V, dest: Self::V) -> Self::V;

    /// Writes the value to a writing session, or fills it from a reading one.
    ///
    /// A write always succeeds and leaves the value as it was. A read fails
    /// exactly when `decoding` reports a fault, and hands that fault out.
    fn visit(&mut self, visitor: &mut Visitor) -> (result: Result<(), DecodeError>)
        ensures
            final(visitor).reading() == old(visitor).reading(),
            !old(visitor).reading() ==> ({
                &&& result is Ok
                &&& final(self)@ == old(self)@
                &&& final(visitor).bytes() == old(visitor).bytes() + Self::encoding(old(self)@)
                &&& Self::encodable(old(self)@)
            }),
            old(visitor).reading() ==> ({
                let read = Self::decoding(old(self)@, old(visitor).bytes());
                &&& final(self)@ == read.value
                &&& final(visitor).bytes() == read.rest
                &&& match result {
                    Ok(_) => read.fault is None,
                    Err(fault) => read.fault == Some(fault),
                }
            }),
    ;

    /// What was written is read back: a read of the encoding of `value`
    /// succeeds, whatever the destination held and whatever follows in the
    /// input; it leaves `value` in the destination, but for the fields that
    /// are not stored, and consumes the encoding and no more.
    proof fn lemma_reads_back(value: Self::V, dest: Self::V, rest: Seq<u8>)
        requires
            Self::encodable(value),
        ensures
            Self::decoding(dest, Self::encoding(value) + rest) == filled(
                Self::restored(value, dest),
                rest,
            ),
    ;
}

impl Visit for u8 {
    open spec fn encodable(value: u8) -> bool {
        true
    }

    open spec fn encoding(value: u8) -> Seq<u8> {
        seq![value]
    }

    open spec fn decoding(dest: u8, input: Seq<u8>) -> Decoded<u8> {
        if input.len() >= 1 {
            filled(input[0], input.skip(1))
        } else {
            stopped(dest, input, DecodeError::UnexpectedEnd)
        }
    }

    open spec fn restored(value: u8, dest: u8) -> u8 {
        value
    }

    fn visit(&mut self, visitor: &mut Visitor) -> (result: Result<(), DecodeError>) {
        if visitor.is_reading() {
            if visitor.remaining() < 1 {
                return Err(DecodeError::UnexpectedEnd);
            }
            let chunk = visitor.peek(0, 1);
            visitor.advance(1);
            *self = chunk[0];
            Ok(())
        } else {
            let mut chunk: Vec<u8> = Vec::new();
            chunk.push(*self);
            visitor.append(chunk);
            Ok(())
        }
    }

    proof fn lemma_reads_back(value: u8, dest: u8, rest: Seq<u8>) {
        assert((u8::encoding(value) + rest).skip(1) =~= rest);
    }
}

impl Visit for u32 {
    open spec fn encodable(value: u32) -> bool {
        true
    }

    /// Four bytes, least significant first.
    open spec fn encoding(value: u32) -> Seq<u8> {
        spec_u32_to_le_bytes(value)
    }

    /// All four bytes are read, or none.
    open spec fn decoding(dest: u32, input: Seq<u8>) -> Decoded<u32> {
        if input.len() >= 4 {
            filled(spec_u32_from_le_bytes(input.subrange(0, 4)), input.skip(4))
        } else {
            stopped(dest, input, DecodeError::UnexpectedEnd)
        }
    }

    open spec fn restored(value: u32, dest: u32) -> u32 {
        value
    }

    fn visit(&mut self, visitor: &mut Visitor) -> (result: Result<(), DecodeError>) {
        if visitor.is_reading() {
            if visitor.remaining() < 4 {
                return Err(DecodeError::UnexpectedEnd);
            }
            let chunk = visitor.peek(0, 4);
            visitor.advance(4);
            *self = u32_from_le_bytes(chunk.as_slice());
            Ok(())
        } else {
            visitor.append(u32_to_le_bytes(*self));
            Ok(())
        }
    }

    proof fn lemma_reads_back(value: u32, dest: u32, rest: Seq<u8>) {
        lemma_auto_spec_u32_to_from_le_bytes();
        let input = u32::encoding(value) + rest;
        assert(input.subrange(0, 4) =~= u32::encoding(value));
        assert(input.skip(4) =~= rest);
    }
}

impl Visit for bool {
    open spec fn encodable(value: bool) -> bool {
        true
    }

    /// One byte: 1 for `true`, 0 for `false`.
    open spec fn encoding(value: bool) -> Seq<u8> {
        seq![if value { 1u8 } else { 0u8 }]
    }

    /// A byte other than 0 and 1 is refused, and stays in the input.
    open spec fn decoding(dest: bool, input: Seq<u8>) -> Decoded<bool> {
        if input.len() < 1 {
            stopped(dest, input, DecodeError::UnexpectedEnd)
        } else if input[0] == 0 {
            filled(false, input.skip(1))
        } else if input[0] == 1 {
            filled(true, input.skip(1))
        } else {
            stopped(dest, input, DecodeError::InvalidBool(input[0]))
        }
    }

    open spec fn restored(value: bool, dest: bool) -> bool {
        value
    }

    fn visit(&mut self, visitor: &mut Visitor) -> (result: Result<(), DecodeError>) {
        if visitor.is_reading() {
            if visitor.remaining() < 1 {
                return Err(DecodeError::UnexpectedEnd);
            }
            let byte = visitor.peek(0, 1)[0];
            if byte > 1 {
                return Err(DecodeError::InvalidBool(byte));
            }
            visitor.advance(1);
            *self = byte == 1;
            Ok(())
        } else {
            let mut chunk: Vec<u8> = Vec::new();
            chunk.push(if *self { 1 } else { 0 });
            visitor.append(chunk);
            Ok(())
        }
    }

    proof fn lemma_reads_back(value: bool, dest: bool, rest: Seq<u8>) {
        assert((bool::encoding(value) + rest).skip(1) =~= rest);
    }
}

/// The eight bytes that announce `len` bytes or items to follow: `len`,
/// least significant byte first.
pub open spec fn len_prefix(len: nat) -> Seq<u8> {
    spec_u64_to_le_bytes(len as u64)
}

/// The length that the first eight bytes of `input` announce.
pub open spec fn announced_len(input: Seq<u8>) -> int {
    spec_u64_from_le_bytes(input.subrange(0, 8)) as int
}

/// `std::string::FromUtf8Error`, with which `String::from_utf8` refuses
/// bytes. Nothing is said of what it holds.
#[verifier::external_type_specification]
#[verifier::external_body]
pub struct ExFromUtf8Error(std::string::FromUtf8Error);

/// `String::from_utf8` accepts a vector of bytes exactly when the bytes are
/// UTF-8, and then gives the text that they spell.
pub assume_specification[ String::from_utf8 ](vec: Vec<u8>) -> (text: Result<
    String,
    std::string::FromUtf8Error,
>)
    ensures
        match text {
            Ok(text) => valid_utf8(vec@) && text@ == decode_utf8(vec@),
            Err(_) => !valid_utf8(vec@),
        },
;

impl Visit for String {
    open spec fn encodable(value: Seq<char>) -> bool {
        encode_utf8(value).len() <= u64::MAX
    }

    /// The length of the text in bytes, then the text in UTF-8.
    open spec fn encoding(value: Seq<char>) -> Seq<u8> {
        len_prefix(encode_utf8(value).len()) + encode_utf8(value)
    }

    /// The read is refused as a whole, and consumes nothing, when the input
    /// is shorter than the prefix announces or the bytes are not UTF-8.
    open spec fn decoding(dest: Seq<char>, input: Seq<u8>) -> Decoded<Seq<char>> {
        if input.len() < 8 || input.len() - 8 < announced_len(input) {
            stopped(dest, input, DecodeError::UnexpectedEnd)
        } else {
            let end = 8 + announced_len(input);
            let text = input.subrange(8, end);
            if valid_utf8(text) {
                filled(decode_utf8(text), input.skip(end))
            } else {
                stopped(dest, input, DecodeError::InvalidUtf8)
            }
        }
    }

    open spec fn restored(value: Seq<char>, dest: Seq<char>) -> Seq<char> {
        value
    }

    fn visit(&mut self, visitor: &mut Visitor) -> (result: Result<(), DecodeError>) {
        if visitor.is_reading() {
            let left = visitor.remaining();
            if left < 8 {
                return Err(DecodeError::UnexpectedEnd);
            }
            let announced = u64_from_le_bytes(visitor.peek(0, 8).as_slice());
            if announced > (left - 8) as u64 {
                return Err(DecodeError::UnexpectedEnd);
            }
            let len = announced as usize;
            match String::from_utf8(visitor.peek(8, len)) {
                Ok(text) => {
                    visitor.advance(8 + len);
                    *self = text;
                    Ok(())
                },
                Err(_) => Err(DecodeError::InvalidUtf8),
            }
        } else {
            let mut text = slice_to_vec(self.as_str().as_bytes());
            let mut chunk = u64_to_le_bytes(text.len() as u64);
            chunk.append(&mut text);
            visitor.append(chunk);
            Ok(())
        }
    }

    proof fn lemma_reads_back(value: Seq<char>, dest: Seq<char>, rest: Seq<u8>) {
        lemma_auto_spec_u64_to_from_le_bytes();
        encode_utf8_valid_utf8(value);
        encode_utf8_decode_utf8(value);
        let text = encode_utf8(value);
        let input = String::encoding(value) + rest;
        let end = 8 + text.len() as int;
        assert(input.subrange(0, 8) =~= len_prefix(text.len()));
        assert(input.subrange(8, end) =~= text);
        assert(input.skip(end) =~= rest);
    }
}

} // verus!
