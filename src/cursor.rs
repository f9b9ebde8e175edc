use vstd::prelude::*;
use vstd::utf8::{decode_utf8, valid_utf8};
use crate::types::{ErrorModel, ParsingError};

verus! {

/// What a reader makes of the input from a position on: a value and the position after it,
/// or the error that stops decoding.
pub type Parsed<T> = Result<(T, int), ErrorModel>;

/// True when the executable reader's result `r`, with the cursor left at `end`,
/// is the outcome `s` that the format gives.
pub open spec fn outcome<T: DeepView>(r: Result<T, ParsingError>, end: usize, s: Parsed<T::V>) -> bool {
    match s {
        Ok((v, q)) => r is Ok && r->Ok_0.deep_view() == v && end == q,
        Err(e) => r is Err && r->Err_0.deep_view() == e,
    }
}

pub open spec fn eof(p: int, wanted: int) -> ErrorModel {
    ErrorModel::UnexpectedEof { offset: p as usize, wanted: wanted as usize }
}

/// The `n` bytes at `p`, when the input holds them.
pub open spec fn spec_bytes(b: Seq<u8>, p: int, n: int) -> Parsed<Seq<u8>> {
    if 0 <= p && 0 <= n && p + n <= b.len() {
        Ok((b.subrange(p, p + n), p + n))
    } else {
        Err(eof(p, n))
    }
}

pub open spec fn be16(b: Seq<u8>, p: int) -> u16 {
    (b[p] as int * 0x100 + b[p + 1] as int) as u16
}

pub open spec fn be32(b: Seq<u8>, p: int) -> u32 {
    (((b[p] as int * 0x100 + b[p + 1] as int) * 0x100 + b[p + 2] as int) * 0x100
        + b[p + 3] as int) as u32
}

pub open spec fn be64(b: Seq<u8>, p: int) -> u64 {
    (be32(b, p) as int * 0x1_0000_0000 + be32(b, p + 4) as int) as u64
}

pub open spec fn spec_u1(b: Seq<u8>, p: int) -> Parsed<u8> {
    if 0 <= p && p + 1 <= b.len() {
        Ok((b[p], p + 1))
    } else {
        Err(eof(p, 1))
    }
}

pub open spec fn spec_u2(b: Seq<u8>, p: int) -> Parsed<u16> {
    if 0 <= p && p + 2 <= b.len() {
        Ok((be16(b, p), p + 2))
    } else {
        Err(eof(p, 2))
    }
}

pub open spec fn spec_u4(b: Seq<u8>, p: int) -> Parsed<u32> {
    if 0 <= p && p + 4 <= b.len() {
        Ok((be32(b, p), p + 4))
    } else {
        Err(eof(p, 4))
    }
}

pub open spec fn spec_u8(b: Seq<u8>, p: int) -> Parsed<u64> {
    if 0 <= p && p + 8 <= b.len() {
        Ok((be64(b, p), p + 8))
    } else {
        Err(eof(p, 8))
    }
}

/// A u2 length, then that many bytes of UTF-8 text.
pub open spec fn spec_length_and_utf8(b: Seq<u8>, p: int) -> Parsed<Seq<char>> {
    match spec_u2(b, p) {
        Err(e) => Err(e),
        Ok((n, q)) => match spec_bytes(b, q, n as int) {
            Err(e) => Err(e),
            Ok((raw, r)) => if valid_utf8(raw) {
                Ok((decode_utf8(raw), r))
            } else {
                Err(ErrorModel::InvalidUtf8 { offset: q as usize })
            },
        },
    }
}

/// Reads one byte.
pub fn read_u1(buffer: &Vec<u8>, index: &mut usize) -> (r: Result<u8, ParsingError>)
    ensures
        outcome(r, *final(index), spec_u1(buffer@, *old(index) as int)),
        r is Err ==> *final(index) == *old(index),
{
    if *index >= buffer.len() {
        Err(ParsingError::UnexpectedEof { offset: *index, wanted: 1 })
    } else {
        let value = buffer[*index];
        *index = *index + 1;
        Ok(value)
    }
}

/// Reads a big-endian u2.
pub fn read_u2(buffer: &Vec<u8>, index: &mut usize) -> (r: Result<u16, ParsingError>)
    ensures
        outcome(r, *final(index), spec_u2(buffer@, *old(index) as int)),
        r is Err ==> *final(index) == *old(index),
{
    if *index > buffer.len() || buffer.len() - *index < 2 {
        Err(ParsingError::UnexpectedEof { offset: *index, wanted: 2 })
    } else {
        let value = (buffer[*index] as u16) * 0x100 + (buffer[*index + 1] as u16);
        *index = *index + 2;
        Ok(value)
    }
}

/// Reads a big-endian u4.
pub fn read_u4(buffer: &Vec<u8>, index: &mut usize) -> (r: Result<u32, ParsingError>)
    ensures
        outcome(r, *final(index), spec_u4(buffer@, *old(index) as int)),
        r is Err ==> *final(index) == *old(index),
{
    if *index > buffer.len() || buffer.len() - *index < 4 {
        Err(ParsingError::UnexpectedEof { offset: *index, wanted: 4 })
    } else {
        let i = *index;
        let value = (((buffer[i] as u32) * 0x100 + (buffer[i + 1] as u32)) * 0x100
            + (buffer[i + 2] as u32)) * 0x100 + (buffer[i + 3] as u32);
        *index = i + 4;
        Ok(value)
    }
}

/// Reads a big-endian u8 (eight bytes).
pub fn read_u8(buffer: &Vec<u8>, index: &mut usize) -> (r: Result<u64, ParsingError>)
    ensures
        outcome(r, *final(index), spec_u8(buffer@, *old(index) as int)),
        r is Err ==> *final(index) == *old(index),
{
    if *index > buffer.len() || buffer.len() - *index < 8 {
        Err(ParsingError::UnexpectedEof { offset: *index, wanted: 8 })
    } else {
        let start = *index;
        let high = read_u4(buffer, index);
        let low = read_u4(buffer, index);
        match (high, low) {
            (Ok(h), Ok(l)) => Ok((h as u64) * 0x1_0000_0000 + (l as u64)),
            _ => {
                *index = start;
                Err(ParsingError::UnexpectedEof { offset: start, wanted: 8 })
            },
        }
    }
}

/// Copies `n` bytes and advances past them.
pub fn read_bytes(buffer: &Vec<u8>, index: &mut usize, n: usize) -> (r: Result<Vec<u8>, ParsingError>)
    ensures
        outcome(r, *final(index), spec_bytes(buffer@, *old(index) as int, n as int)),
        r is Err ==> *final(index) == *old(index),
{
    if *index > buffer.len() || buffer.len() - *index < n {
        return Err(ParsingError::UnexpectedEof { offset: *index, wanted: n });
    }
    let start = *index;
    let mut out: Vec<u8> = Vec::with_capacity(n);
    let mut i: usize = 0;
    while i < n
        invariant
            start + n <= buffer.len(),
            i <= n,
            out@ == buffer@.subrange(start as int, start + i),
        decreases n - i,
    {
        out.push(buffer[start + i]);
        i = i + 1;
    }
    *index = start + n;
    assert(out.deep_view() =~= out@);
    Ok(out)
}

/// Relies on String::from_utf8: it accepts exactly the valid UTF-8 byte sequences,
/// and the string it builds holds the characters that they encode.
#[verifier::external_body]
fn utf8_to_string(bytes: Vec<u8>) -> (r: Option<String>)
    ensures
        r is Some <==> valid_utf8(bytes@),
        r matches Some(s) ==> s@ == decode_utf8(bytes@),
{
    String::from_utf8(bytes).ok()
}

/// Reads a u2 length and that many bytes of UTF-8 text.
pub fn read_length_and_utf8(buffer: &Vec<u8>, index: &mut usize) -> (r: Result<String, ParsingError>)
    ensures
        outcome(r, *final(index), spec_length_and_utf8(buffer@, *old(index) as int)),
{
    let length = read_u2(buffer, index)?;
    let start = *index;
    let raw = read_bytes(buffer, index, length as usize)?;
    assert(raw.deep_view() =~= raw@);
    match utf8_to_string(raw) {
        Some(s) => Ok(s),
        None => Err(ParsingError::InvalidUtf8 { offset: start }),
    }
}

} // verus!
