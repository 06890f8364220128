//! The primitive reader: a byte buffer and a cursor.

use crate::error::Md3Error;
use crate::format::{
    float_at, i16_at, i32_at, in_bounds, le_i16, le_i32, le_u32, string_at, vec3_at,
};
use crate::laws::lemma_first_nul;
use crate::types::{Float32, Vec3};
use byteorder::{ByteOrder, LittleEndian};
use std::string::FromUtf8Error;
use vstd::prelude::*;
use vstd::slice::{slice_subrange, slice_to_vec};
use vstd::utf8::{encode_utf8, encode_utf8_decode_utf8, valid_utf8};

verus! {

/// Calls `byteorder::LittleEndian::read_i16`, which panics on fewer than two
/// bytes and otherwise returns the first two as a two's-complement number,
/// low byte first.
#[verifier::external_body]
fn le_i16_of(field: &[u8]) -> (v: i16)
    requires
        field@.len() >= 2,
    ensures
        v == le_i16(field@),
{
    LittleEndian::read_i16(field)
}

/// Calls `byteorder::LittleEndian::read_i32`, which panics on fewer than four
/// bytes and otherwise returns the first four as a two's-complement number,
/// low byte first.
#[verifier::external_body]
fn le_i32_of(field: &[u8]) -> (v: i32)
    requires
        field@.len() >= 4,
    ensures
        v == le_i32(field@),
{
    LittleEndian::read_i32(field)
}

/// Calls `byteorder::LittleEndian::read_u32`, which panics on fewer than four
/// bytes and otherwise returns the first four as an unsigned number, low byte
/// first.
#[verifier::external_body]
fn le_u32_of(field: &[u8]) -> (v: u32)
    requires
        field@.len() >= 4,
    ensures
        v == le_u32(field@),
{
    LittleEndian::read_u32(field)
}

/// The error of `String::from_utf8`. Nothing is read from it.
#[verifier::external_type_specification]
#[verifier::external_body]
pub struct ExFromUtf8Error(std::string::FromUtf8Error);

/// `String::from_utf8` succeeds on the vectors that are UTF-8, and the string
/// it returns is made of the vector's bytes.
pub assume_specification[ String::from_utf8 ](vec: Vec<u8>) -> (r: Result<String, FromUtf8Error>)
    ensures
        r is Ok <==> valid_utf8(vec@),
        r matches Ok(s) ==> encode_utf8(s@) == vec@,
;

/// What a [`Reader`] is to a contract: the buffer and the cursor.
pub struct ReaderView {
    pub bytes: Seq<u8>,
    pub pos: int,
}

impl ReaderView {
    /// The reader after a read of `width` bytes: the cursor has moved past
    /// them where the read went well, and not at all where it failed.
    pub open spec fn after(self, width: int, ok: bool) -> ReaderView {
        ReaderView { bytes: self.bytes, pos: if ok { self.pos + width } else { self.pos } }
    }
}

/// The result of a read as a contract sees it: the view of what was read, or
/// the error.
pub open spec fn outcome<T: DeepView>(r: Result<T, Md3Error>) -> Result<T::V, Md3Error> {
    match r {
        Ok(value) => Ok(value.deep_view()),
        Err(e) => Err(e),
    }
}

/// A read-only byte buffer with a cursor.
///
/// The cursor may stand anywhere, also before or behind the buffer: a seek
/// never fails, and a read fails where the bytes it needs are not all inside.
/// A read that fails leaves the cursor where it was.
#[derive(Clone, Copy)]
pub struct Reader<'a> {
    bytes: &'a [u8],
    pos: i128,
}

impl<'a> View for Reader<'a> {
    type V = ReaderView;

    closed spec fn view(&self) -> ReaderView {
        ReaderView { bytes: self.bytes@, pos: self.pos as int }
    }
}

impl<'a> Reader<'a> {
    /// A reader over `bytes` with its cursor at the first byte.
    pub fn new(bytes: &'a [u8]) -> (r: Self)
        ensures
            r@ == (ReaderView { bytes: bytes@, pos: 0 }),
    {
        Reader { bytes, pos: 0 }
    }

    /// No buffer is longer than `usize::MAX` bytes.
    pub proof fn lemma_len_fits(&self)
        ensures
            self@.bytes.len() <= usize::MAX,
    {
        assert(self.bytes@.len() == self.bytes.len());
    }

    /// Where the cursor stands.
    pub fn position(&self) -> (p: i128)
        ensures
            p == self@.pos,
    {
        self.pos
    }

    /// Moves the cursor to `offset`, counted from the start of the buffer.
    pub fn seek(&mut self, offset: i64)
        ensures
            final(self)@ == (ReaderView { bytes: old(self)@.bytes, pos: offset as int }),
    {
        self.pos = offset as i128;
    }

    /// Moves the cursor to `delta` bytes behind `base`, or before it where
    /// `delta` is negative.
    pub fn seek_relative(&mut self, base: u64, delta: i32)
        ensures
            final(self)@ == (ReaderView { bytes: old(self)@.bytes, pos: base + delta }),
    {
        self.pos = base as i128 + delta as i128;
    }

    /// The `width` bytes at the cursor, where they are all inside the buffer.
    fn field(&self, width: usize) -> (r: Option<&'a [u8]>)
        ensures
            r is Some <==> in_bounds(self@.bytes, self@.pos, width as int),
            r matches Some(field) ==> field@ == self@.bytes.subrange(
                self@.pos,
                self@.pos + width,
            ),
            self@.bytes.len() <= usize::MAX,
    {
        let len: usize = self.bytes.len();
        if self.pos < 0 || self.pos > len as i128 - width as i128 {
            None
        } else {
            let at: usize = self.pos as usize;
            Some(slice_subrange(self.bytes, at, at + width))
        }
    }

    /// Reads a little-endian 16-bit integer and moves the cursor past it.
    pub fn read_s16(&mut self) -> (r: Result<i16, Md3Error>)
        ensures
            r == i16_at(old(self)@.bytes, old(self)@.pos),
            final(self)@ == old(self)@.after(2, r is Ok),
    {
        match self.field(2) {
            Some(field) => {
                self.pos = self.pos + 2;
                Ok(le_i16_of(field))
            },
            None => Err(Md3Error::UnexpectedEof),
        }
    }

    /// Reads a little-endian 32-bit integer and moves the cursor past it.
    pub fn read_s32(&mut self) -> (r: Result<i32, Md3Error>)
        ensures
            r == i32_at(old(self)@.bytes, old(self)@.pos),
            final(self)@ == old(self)@.after(4, r is Ok),
    {
        match self.field(4) {
            Some(field) => {
                self.pos = self.pos + 4;
                Ok(le_i32_of(field))
            },
            None => Err(Md3Error::UnexpectedEof),
        }
    }

    /// Reads the four little-endian bytes of a float and moves the cursor past
    /// them.
    pub fn read_f32(&mut self) -> (r: Result<Float32, Md3Error>)
        ensures
            r == float_at(old(self)@.bytes, old(self)@.pos),
            final(self)@ == old(self)@.after(4, r is Ok),
    {
        match self.field(4) {
            Some(field) => {
                self.pos = self.pos + 4;
                Ok(Float32 { bits: le_u32_of(field) })
            },
            None => Err(Md3Error::UnexpectedEof),
        }
    }

    /// Reads three floats, `x`, `y` and `z`, and moves the cursor past them.
    pub fn read_vec3(&mut self) -> (r: Result<Vec3, Md3Error>)
        ensures
            r == vec3_at(old(self)@.bytes, old(self)@.pos),
            final(self)@ == old(self)@.after(12, r is Ok),
    {
        let mut cur = *self;
        let x = cur.read_f32()?;
        let y = cur.read_f32()?;
        let z = cur.read_f32()?;
        *self = cur;
        Ok(Vec3 { x, y, z })
    }

    /// Reads a name of stored length `len` and moves the cursor past all
    /// `len` bytes. The name is the text before the first NUL; what follows
    /// that NUL is not looked at.
    pub fn read_string(&mut self, len: usize) -> (r: Result<String, Md3Error>)
        ensures
            outcome(r) == string_at(old(self)@.bytes, old(self)@.pos, len as int),
            final(self)@ == old(self)@.after(len as int, r is Ok),
    {
        let field = match self.field(len) {
            Some(field) => field,
            None => {
                return Err(Md3Error::UnexpectedEof);
            },
        };
        let mut k: usize = 0;
        while k < len && field[k] != 0
            invariant
                k <= len,
                field@.len() == len,
                forall|j: int| 0 <= j < k ==> field@[j] != 0,
            decreases len - k,
        {
            k = k + 1;
        }
        proof {
            lemma_first_nul(field@, k as int);
        }
        let text = slice_to_vec(slice_subrange(field, 0, k));
        match String::from_utf8(text) {
            Ok(name) => {
                proof {
                    encode_utf8_decode_utf8(name@);
                }
                self.pos = self.pos + len as i128;
                Ok(name)
            },
            Err(_) => Err(Md3Error::InvalidEncoding),
        }
    }
}

} // verus!
