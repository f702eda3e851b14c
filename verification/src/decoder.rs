//! Single-pass reader of the display-list wire format.
//!
//! Every value is little-endian. A read of one value that would cross the
//! end of the buffer fails and leaves the reader where it was.

use crate::error::DecodeError;
use vstd::prelude::*;
use vstd::slice::slice_subrange;
use vstd::slice::slice_to_vec;
use vstd::utf8::decode_utf8;
use vstd::utf8::valid_utf8;

verus! {

/// The operations of a display list.
#[derive(Clone, Copy, Debug, PartialEq, Eq, Structural)]
pub enum OpCode {
    BeginFrame,
    Rect,
    Path,
    Text,
    EndFrame,
}

impl OpCode {
    /// The operation that an opcode byte names: 1 to 4 and 255 name one,
    /// every other byte names none.
    pub open spec fn spec_from_byte(byte: u8) -> Option<OpCode> {
        if byte == 1 {
            Some(OpCode::BeginFrame)
        } else if byte == 2 {
            Some(OpCode::Rect)
        } else if byte == 3 {
            Some(OpCode::Path)
        } else if byte == 4 {
            Some(OpCode::Text)
        } else if byte == 255 {
            Some(OpCode::EndFrame)
        } else {
            None
        }
    }

    /// The operation that an opcode byte names, if any.
    pub fn from_byte(byte: u8) -> (op: Option<OpCode>)
        ensures
            op == Self::spec_from_byte(byte),
    {
        match byte {
            1 => Some(OpCode::BeginFrame),
            2 => Some(OpCode::Rect),
            3 => Some(OpCode::Path),
            4 => Some(OpCode::Text),
            255 => Some(OpCode::EndFrame),
            _ => None,
        }
    }
}

/// The first two rows of a 3x3 affine map, each entry a single-precision bit
/// pattern: `(x, y)` goes to `(a*x + c*y + e, b*x + d*y + f)`.
#[derive(Clone, Copy, Debug, PartialEq, Eq, Structural)]
pub struct Mat3 {
    pub a: u32,
    pub b: u32,
    pub c: u32,
    pub d: u32,
    pub e: u32,
    pub f: u32,
}

/// The 32-bit value whose little-endian bytes are `b0 b1 b2 b3`.
pub open spec fn le_u32(b0: u8, b1: u8, b2: u8, b3: u8) -> u32 {
    (b0 as int + 0x100 * (b1 as int) + 0x1_0000 * (b2 as int) + 0x100_0000 * (b3 as int)) as u32
}

/// The byte at `at`, if the buffer reaches that far.
pub open spec fn u8_at(data: Seq<u8>, at: int) -> Option<u8> {
    if 0 <= at && at + 1 <= data.len() {
        Some(data[at])
    } else {
        None
    }
}

/// The little-endian 32-bit value at `at`, if the buffer reaches that far.
pub open spec fn u32_at(data: Seq<u8>, at: int) -> Option<u32> {
    if 0 <= at && at + 4 <= data.len() {
        Some(le_u32(data[at], data[at + 1], data[at + 2], data[at + 3]))
    } else {
        None
    }
}

/// Six consecutive 32-bit values at `at`, if the buffer reaches that far.
pub open spec fn mat3_at(data: Seq<u8>, at: int) -> Option<Mat3> {
    if 0 <= at && at + 24 <= data.len() {
        Some(
            Mat3 {
                a: u32_at(data, at)->0,
                b: u32_at(data, at + 4)->0,
                c: u32_at(data, at + 8)->0,
                d: u32_at(data, at + 12)->0,
                e: u32_at(data, at + 16)->0,
                f: u32_at(data, at + 20)->0,
            },
        )
    } else {
        None
    }
}

/// What reading a string of `len` bytes at `at` gives: the decoded text, or
/// the reason there is none.
pub open spec fn string_at(data: Seq<u8>, at: int, len: int) -> Result<Seq<char>, DecodeError> {
    if !(0 <= at && 0 <= len && at + len <= data.len()) {
        Err(DecodeError::UnexpectedEnd)
    } else if !valid_utf8(data.subrange(at, at + len)) {
        Err(DecodeError::InvalidUtf8)
    } else {
        Ok(decode_utf8(data.subrange(at, at + len)))
    }
}

/// `String::from_utf8` of std: the text that the bytes encode, and `None`
/// exactly when they are not UTF-8.
#[verifier::external_body]
fn string_from_utf8(bytes: Vec<u8>) -> (text: Option<String>)
    ensures
        text is Some <==> valid_utf8(bytes@),
        text matches Some(s) ==> s@ == decode_utf8(bytes@),
{
    String::from_utf8(bytes).ok()
}

/// A cursor over a borrowed display list.
pub struct Decoder<'a> {
    data: &'a [u8],
    offset: usize,
}

impl<'a> Decoder<'a> {
    #[verifier::type_invariant]
    spec fn in_bounds(&self) -> bool {
        self.offset <= self.data@.len()
    }

    /// The whole buffer.
    pub closed spec fn bytes(&self) -> Seq<u8> {
        self.data@
    }

    /// How many bytes have been consumed.
    pub closed spec fn position(&self) -> nat {
        self.offset as nat
    }

    /// Whether this reader stands `by` bytes past `before`, over the same
    /// buffer.
    pub open spec fn advanced(&self, before: &Self, by: int) -> bool {
        self.bytes() == before.bytes() && self.position() == before.position() + by
    }

    /// A reader at the start of `data`.
    pub fn new(data: &'a [u8]) -> (decoder: Self)
        ensures
            decoder.bytes() == data@,
            decoder.position() == 0,
    {
        Decoder { data, offset: 0 }
    }

    /// The number of bytes consumed so far.
    pub fn offset(&self) -> (n: usize)
        ensures
            n == self.position(),
            n <= self.bytes().len(),
    {
        proof {
            use_type_invariant(self);
        }
        self.offset
    }

    /// The number of bytes not yet consumed.
    pub fn remaining(&self) -> (n: usize)
        ensures
            n == self.bytes().len() - self.position(),
            self.bytes().len() <= usize::MAX,
    {
        proof {
            use_type_invariant(self);
        }
        self.data.len() - self.offset
    }

    /// Reads the next opcode: `None` at the end of the buffer, an error for a
    /// byte that names no operation. The byte is consumed either way.
    pub fn next_opcode(&mut self) -> (r: Result<Option<OpCode>, DecodeError>)
        ensures
            match u8_at(old(self).bytes(), old(self).position() as int) {
                None => {
                    &&& r == Ok::<Option<OpCode>, DecodeError>(None)
                    &&& final(self).advanced(old(self), 0)
                },
                Some(byte) => {
                    &&& r == match OpCode::spec_from_byte(byte) {
                        Some(op) => Ok::<Option<OpCode>, DecodeError>(Some(op)),
                        None => Err(DecodeError::UnknownOpcode),
                    }
                    &&& final(self).advanced(old(self), 1)
                },
            },
    {
        if self.remaining() == 0 {
            return Ok(None);
        }
        let byte = self.data[self.offset];
        self.offset += 1;
        match OpCode::from_byte(byte) {
            Some(op) => Ok(Some(op)),
            None => Err(DecodeError::UnknownOpcode),
        }
    }

    /// Reads one byte.
    pub fn read_u8(&mut self) -> (r: Result<u8, DecodeError>)
        ensures
            match u8_at(old(self).bytes(), old(self).position() as int) {
                Some(value) => {
                    &&& r == Ok::<u8, DecodeError>(value)
                    &&& final(self).advanced(old(self), 1)
                },
                None => {
                    &&& r == Err::<u8, DecodeError>(DecodeError::UnexpectedEnd)
                    &&& final(self).advanced(old(self), 0)
                },
            },
    {
        if self.remaining() < 1 {
            return Err(DecodeError::UnexpectedEnd);
        }
        let value = self.data[self.offset];
        self.offset += 1;
        Ok(value)
    }

    /// Reads a little-endian 32-bit unsigned integer.
    pub fn read_u32(&mut self) -> (r: Result<u32, DecodeError>)
        ensures
            match u32_at(old(self).bytes(), old(self).position() as int) {
                Some(value) => {
                    &&& r == Ok::<u32, DecodeError>(value)
                    &&& final(self).advanced(old(self), 4)
                },
                None => {
                    &&& r == Err::<u32, DecodeError>(DecodeError::UnexpectedEnd)
                    &&& final(self).advanced(old(self), 0)
                },
            },
    {
        if self.remaining() < 4 {
            return Err(DecodeError::UnexpectedEnd);
        }
        let b0: u32 = self.data[self.offset] as u32;
        let b1: u32 = self.data[self.offset + 1] as u32;
        let b2: u32 = self.data[self.offset + 2] as u32;
        let b3: u32 = self.data[self.offset + 3] as u32;
        self.offset += 4;
        Ok(b0 + 0x100 * b1 + 0x1_0000 * b2 + 0x100_0000 * b3)
    }

    /// Reads a single-precision number and returns its IEEE-754 bit pattern.
    pub fn read_f32(&mut self) -> (r: Result<u32, DecodeError>)
        ensures
            match u32_at(old(self).bytes(), old(self).position() as int) {
                Some(bits) => {
                    &&& r == Ok::<u32, DecodeError>(bits)
                    &&& final(self).advanced(old(self), 4)
                },
                None => {
                    &&& r == Err::<u32, DecodeError>(DecodeError::UnexpectedEnd)
                    &&& final(self).advanced(old(self), 0)
                },
            },
    {
        self.read_u32()
    }

    /// Reads six single-precision numbers. Where the buffer ends before the
    /// sixth, the numbers that are whole are consumed all the same.
    pub fn read_mat3(&mut self) -> (r: Result<Mat3, DecodeError>)
        ensures
            match mat3_at(old(self).bytes(), old(self).position() as int) {
                Some(matrix) => {
                    &&& r == Ok::<Mat3, DecodeError>(matrix)
                    &&& final(self).advanced(old(self), 24)
                },
                None => {
                    let left = old(self).bytes().len() - old(self).position();
                    &&& r == Err::<Mat3, DecodeError>(DecodeError::UnexpectedEnd)
                    &&& final(self).advanced(old(self), 4 * (left / 4))
                },
            },
    {
        proof {
            use_type_invariant(&*self);
        }
        let a = self.read_f32()?;
        let b = self.read_f32()?;
        let c = self.read_f32()?;
        let d = self.read_f32()?;
        let e = self.read_f32()?;
        let f = self.read_f32()?;
        Ok(Mat3 { a, b, c, d, e, f })
    }

    /// Reads `len` bytes as UTF-8 text. Bytes that are there but are not
    /// UTF-8 are consumed all the same.
    pub fn read_string(&mut self, len: usize) -> (r: Result<String, DecodeError>)
        ensures
            match string_at(old(self).bytes(), old(self).position() as int, len as int) {
                Ok(text) => {
                    &&& r matches Ok(read) && read@ == text
                    &&& final(self).advanced(old(self), len as int)
                },
                Err(DecodeError::UnexpectedEnd) => {
                    &&& r == Err::<String, DecodeError>(DecodeError::UnexpectedEnd)
                    &&& final(self).advanced(old(self), 0)
                },
                Err(error) => {
                    &&& r == Err::<String, DecodeError>(error)
                    &&& final(self).advanced(old(self), len as int)
                },
            },
    {
        if self.remaining() < len {
            return Err(DecodeError::UnexpectedEnd);
        }
        let bytes = slice_subrange(self.data, self.offset, self.offset + len);
        self.offset += len;
        match string_from_utf8(slice_to_vec(bytes)) {
            Some(text) => Ok(text),
            None => Err(DecodeError::InvalidUtf8),
        }
    }
}

} // verus!
