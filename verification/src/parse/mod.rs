//! The raw parsed data of a font file, and the big-endian readers that every
//! table parser is built from.

use crate::error::{ImtError, ImtErrorKind, ImtErrorSource};
use vstd::prelude::*;

pub mod avar_table;
pub mod cmap_table;
pub mod font;
pub mod fvar_table;
pub mod glyf_table;
pub mod gvar_table;
pub mod head_table;
pub mod hhea_table;
pub mod hmtx_table;
pub mod hvar_table;
pub mod loca_table;
pub mod maxp_table;
pub mod name_table;
pub mod outline;
pub mod packed;
pub mod table_directory;
pub mod table_tag;
pub mod ttc_header;

pub use avar_table::{AvarTable, AxisValueMap, SegmentMap};
pub use cmap_table::{CmapSubtable, CmapTable, EncodingRecord};
pub use font::Font;
pub use fvar_table::{FvarTable, InstanceRecord, VariationAxisRecord};
pub use glyf_table::GlyfTable;
pub use gvar_table::GvarTable;
pub use head_table::HeadTable;
pub use hhea_table::HheaTable;
pub use hmtx_table::HmtxTable;
pub use hvar_table::HvarTable;
pub use loca_table::LocaTable;
pub use maxp_table::MaxpTable;
pub use name_table::{LangTagRecord, NameRecord, NameTable};
pub use outline::Outline;
pub use table_directory::{TableDirectory, TableRecord};
pub use ttc_header::TTCHeader;

verus! {

/// A signed 16.16 fixed-point number, kept as its 32 raw bits: the number it
/// stands for is the raw value divided by 65536.
pub type Fixed = i32;

/// A signed 2.14 fixed-point number, kept as its 16 raw bits: the number it
/// stands for is the raw value divided by 16384.
pub type F2Dot14 = i16;

/// The raw value of the 2.14 number one.
pub const F2DOT14_ONE: i16 = 16384;

/// The error every reader and parser gives when data ends too early.
pub open spec fn truncated(source: ImtErrorSource) -> ImtError {
    ImtError { kind: ImtErrorKind::Truncated, source }
}

/// The error given for data that breaks a rule of the format.
pub open spec fn malformed(source: ImtErrorSource) -> ImtError {
    ImtError { kind: ImtErrorKind::Malformed, source }
}

/// The error given for a version that is not understood.
pub open spec fn unexpected_version(source: ImtErrorSource) -> ImtError {
    ImtError { kind: ImtErrorKind::UnexpectedVersion, source }
}

/// The error given for a format that is not implemented.
pub open spec fn format_not_supported(source: ImtErrorSource) -> ImtError {
    ImtError { kind: ImtErrorKind::FormatNotSupported, source }
}

/// Builds the error for data that ends too early.
pub fn truncated_in(source: ImtErrorSource) -> (e: ImtError)
    ensures
        e == truncated(source),
{
    ImtError { kind: ImtErrorKind::Truncated, source }
}

/// Builds the error for data that breaks a rule of the format.
pub fn malformed_in(source: ImtErrorSource) -> (e: ImtError)
    ensures
        e == malformed(source),
{
    ImtError { kind: ImtErrorKind::Malformed, source }
}

/// Whether `size` bytes starting at `off` lie inside `b`.
pub open spec fn fits(b: Seq<u8>, off: int, size: int) -> bool {
    off + size <= b.len()
}

/// The unsigned big-endian 16-bit number at `off`.
pub open spec fn be_u16(b: Seq<u8>, off: int) -> u16 {
    (b[off] as int * 0x100 + b[off + 1] as int) as u16
}

/// The two's-complement big-endian 16-bit number at `off`.
pub open spec fn be_i16(b: Seq<u8>, off: int) -> i16 {
    let v = be_u16(b, off) as int;
    if v >= 0x8000 {
        (v - 0x1_0000) as i16
    } else {
        v as i16
    }
}

/// The unsigned big-endian 32-bit number at `off`.
pub open spec fn be_u32(b: Seq<u8>, off: int) -> u32 {
    (be_u16(b, off) as int * 0x1_0000 + be_u16(b, off + 2) as int) as u32
}

/// The two's-complement big-endian 32-bit number at `off`.
pub open spec fn be_i32(b: Seq<u8>, off: int) -> i32 {
    let v = be_u32(b, off) as int;
    if v >= 0x8000_0000 {
        (v - 0x1_0000_0000) as i32
    } else {
        v as i32
    }
}

/// The unsigned big-endian 64-bit number at `off`.
pub open spec fn be_u64(b: Seq<u8>, off: int) -> u64 {
    (be_u32(b, off) as int * 0x1_0000_0000 + be_u32(b, off + 4) as int) as u64
}

/// The two's-complement big-endian 64-bit number at `off`.
pub open spec fn be_i64(b: Seq<u8>, off: int) -> i64 {
    let v = be_u64(b, off) as int;
    if v >= 0x8000_0000_0000_0000 {
        (v - 0x1_0000_0000_0000_0000) as i64
    } else {
        v as i64
    }
}

/// The two's-complement 8-bit number at `off`.
pub open spec fn be_i8(b: Seq<u8>, off: int) -> i8 {
    let v = b[off] as int;
    if v >= 0x80 {
        (v - 0x100) as i8
    } else {
        v as i8
    }
}

/// The `count` big-endian 16-bit code units that start at `off`.
pub open spec fn be_u16_units(b: Seq<u8>, off: int, count: nat) -> Seq<u16> {
    Seq::new(count, |i: int| be_u16(b, off + 2 * i))
}

/// The text that a sequence of UTF-16 code units spells, as
/// `String::from_utf16` decodes it; nothing when the units are not valid
/// UTF-16.
pub uninterp spec fn utf16_text(units: Seq<u16>) -> Option<Seq<char>>;

/// The first check that fails when `length` bytes of UTF-16 text are read at
/// `off`, if any: an odd length, text that runs past the end of the data,
/// code units that are not valid UTF-16.
pub open spec fn utf16_failure(b: Seq<u8>, off: int, length: int, source: ImtErrorSource) -> Option<
    ImtError,
> {
    if length % 2 != 0 {
        Some(malformed(source))
    } else if !fits(b, off, length) {
        Some(truncated(source))
    } else if utf16_text(be_u16_units(b, off, (length / 2) as nat)).is_none() {
        Some(malformed(source))
    } else {
        None
    }
}

/// The text that the `length` bytes at `off` spell.
pub open spec fn utf16_string(b: Seq<u8>, off: int, length: int) -> Seq<char> {
    utf16_text(be_u16_units(b, off, (length / 2) as nat)).unwrap()
}

/// The first failure among steps `0` to `n - 1`, where `f` gives the failure
/// of each step: parsing stops at the first step that fails.
pub open spec fn first_failure(n: int, f: spec_fn(int) -> Option<ImtError>) -> Option<ImtError>
    decreases n,
{
    if n <= 0 {
        None
    } else if first_failure(n - 1, f).is_some() {
        first_failure(n - 1, f)
    } else {
        f(n - 1)
    }
}

/// Once a step has failed, later steps do not change the failure.
pub(crate) proof fn lemma_first_failure_stays(i: int, n: int, f: spec_fn(int) -> Option<ImtError>)
    requires
        0 <= i <= n,
        first_failure(i, f).is_some(),
    ensures
        first_failure(n, f) == first_failure(i, f),
    decreases n - i,
{
    if i < n {
        lemma_first_failure_stays(i, n - 1, f);
    }
}

/// The sum of two offsets, if it fits the machine word.
pub open spec fn offset_sum_spec(base: usize, rel: usize) -> Option<usize> {
    if base + rel <= usize::MAX {
        Some((base + rel) as usize)
    } else {
        None
    }
}

/// Adds two offsets; there is no sum when it does not fit the machine word.
pub fn offset_sum(base: usize, rel: usize) -> (r: Option<usize>)
    ensures
        r == offset_sum_spec(base, rel),
{
    base.checked_add(rel)
}

/// Adds a 32-bit offset to a base; there is no sum when it lies past the end
/// of a buffer of `len` bytes.
pub fn wide_offset(base: usize, relative: u32, len: usize) -> (r: Option<usize>)
    ensures
        r == (if base + relative <= len {
            Some((base + relative) as usize)
        } else {
            None
        }),
{
    if base > len {
        return None;
    }
    let room: u64 = (len - base) as u64;
    if relative as u64 > room {
        return None;
    }
    Some(base + relative as usize)
}

/// Tells whether `size` bytes starting at `offset` lie inside a buffer of
/// `len` bytes, without overflowing on any input.
pub fn in_bounds(len: usize, offset: usize, size: usize) -> (b: bool)
    ensures
        b == (offset + size <= len),
{
    offset <= len && size <= len - offset
}

/// Tells whether `size` bytes starting at `offset` lie inside a buffer of
/// `len` bytes, for a size that may not fit the machine word.
pub fn in_bounds_wide(len: usize, offset: usize, size: u64) -> (b: bool)
    ensures
        b == (offset + size <= len),
{
    offset <= len && size <= (len - offset) as u64
}

/// Reads one byte at `offset`.
pub fn read_u8(bytes: &[u8], offset: usize, source: ImtErrorSource) -> (r: Result<u8, ImtError>)
    ensures
        r == (if fits(bytes@, offset as int, 1) {
            Ok::<u8, ImtError>(bytes@[offset as int])
        } else {
            Err(truncated(source))
        }),
{
    if !in_bounds(bytes.len(), offset, 1) {
        return Err(ImtError { kind: ImtErrorKind::Truncated, source });
    }
    Ok(bytes[offset])
}

/// Reads a signed byte at `offset`.
pub fn read_i8(bytes: &[u8], offset: usize, source: ImtErrorSource) -> (r: Result<i8, ImtError>)
    ensures
        r == (if fits(bytes@, offset as int, 1) {
            Ok::<i8, ImtError>(be_i8(bytes@, offset as int))
        } else {
            Err(truncated(source))
        }),
{
    let v: u8 = read_u8(bytes, offset, source)?;
    if v >= 0x80 {
        Ok((v as i16 - 0x100) as i8)
    } else {
        Ok(v as i8)
    }
}

/// Reads an unsigned big-endian 16-bit number at `offset`.
pub fn read_u16(bytes: &[u8], offset: usize, source: ImtErrorSource) -> (r: Result<u16, ImtError>)
    ensures
        r == (if fits(bytes@, offset as int, 2) {
            Ok::<u16, ImtError>(be_u16(bytes@, offset as int))
        } else {
            Err(truncated(source))
        }),
{
    if !in_bounds(bytes.len(), offset, 2) {
        return Err(ImtError { kind: ImtErrorKind::Truncated, source });
    }
    let hi: u16 = bytes[offset] as u16;
    let lo: u16 = bytes[offset + 1] as u16;
    Ok(hi * 0x100 + lo)
}

/// Reads a signed big-endian 16-bit number at `offset`.
pub fn read_i16(bytes: &[u8], offset: usize, source: ImtErrorSource) -> (r: Result<i16, ImtError>)
    ensures
        r == (if fits(bytes@, offset as int, 2) {
            Ok::<i16, ImtError>(be_i16(bytes@, offset as int))
        } else {
            Err(truncated(source))
        }),
{
    let v: u16 = read_u16(bytes, offset, source)?;
    if v >= 0x8000 {
        Ok((v as i32 - 0x1_0000) as i16)
    } else {
        Ok(v as i16)
    }
}

/// Reads an unsigned big-endian 32-bit number at `offset`.
pub fn read_u32(bytes: &[u8], offset: usize, source: ImtErrorSource) -> (r: Result<u32, ImtError>)
    ensures
        r == (if fits(bytes@, offset as int, 4) {
            Ok::<u32, ImtError>(be_u32(bytes@, offset as int))
        } else {
            Err(truncated(source))
        }),
{
    if !in_bounds(bytes.len(), offset, 4) {
        return Err(ImtError { kind: ImtErrorKind::Truncated, source });
    }
    let hi: u32 = read_u16(bytes, offset, source)? as u32;
    let lo: u32 = read_u16(bytes, offset + 2, source)? as u32;
    Ok(hi * 0x1_0000 + lo)
}

/// Reads a signed big-endian 32-bit number at `offset`.
pub fn read_i32(bytes: &[u8], offset: usize, source: ImtErrorSource) -> (r: Result<i32, ImtError>)
    ensures
        r == (if fits(bytes@, offset as int, 4) {
            Ok::<i32, ImtError>(be_i32(bytes@, offset as int))
        } else {
            Err(truncated(source))
        }),
{
    let v: u32 = read_u32(bytes, offset, source)?;
    if v >= 0x8000_0000 {
        Ok((v as i64 - 0x1_0000_0000) as i32)
    } else {
        Ok(v as i32)
    }
}

/// Reads a signed big-endian 64-bit number at `offset`.
pub fn read_i64(bytes: &[u8], offset: usize, source: ImtErrorSource) -> (r: Result<i64, ImtError>)
    ensures
        r == (if fits(bytes@, offset as int, 8) {
            Ok::<i64, ImtError>(be_i64(bytes@, offset as int))
        } else {
            Err(truncated(source))
        }),
{
    if !in_bounds(bytes.len(), offset, 8) {
        return Err(ImtError { kind: ImtErrorKind::Truncated, source });
    }
    let hi: u64 = read_u32(bytes, offset, source)? as u64;
    let lo: u64 = read_u32(bytes, offset + 4, source)? as u64;
    let v: u64 = hi * 0x1_0000_0000 + lo;
    if v >= 0x8000_0000_0000_0000 {
        Ok((v as i128 - 0x1_0000_0000_0000_0000) as i64)
    } else {
        Ok(v as i64)
    }
}

/// Reads a 16.16 fixed-point number at `offset`, as its raw bits.
pub fn read_fixed(bytes: &[u8], offset: usize, source: ImtErrorSource) -> (r: Result<
    Fixed,
    ImtError,
>)
    ensures
        r == (if fits(bytes@, offset as int, 4) {
            Ok::<i32, ImtError>(be_i32(bytes@, offset as int))
        } else {
            Err(truncated(source))
        }),
{
    read_i32(bytes, offset, source)
}

/// Reads a 2.14 fixed-point number at `offset`, as its raw bits.
pub fn read_f2dot14(bytes: &[u8], offset: usize, source: ImtErrorSource) -> (r: Result<
    F2Dot14,
    ImtError,
>)
    ensures
        r == (if fits(bytes@, offset as int, 2) {
            Ok::<i16, ImtError>(be_i16(bytes@, offset as int))
        } else {
            Err(truncated(source))
        }),
{
    read_i16(bytes, offset, source)
}

/// The error of `String::from_utf16`, which carries nothing that is read here.
#[verifier::external_type_specification]
#[verifier::external_body]
pub struct ExFromUtf16Error(std::string::FromUtf16Error);

/// Decodes UTF-16 code units with `String::from_utf16`. The text that comes
/// back is the one named [`utf16_text`]; units that are not valid UTF-16 give
/// the error of the standard library.
#[verifier::external_body]
fn string_from_utf16(units: &Vec<u16>) -> (r: Result<String, std::string::FromUtf16Error>)
    ensures
        match r {
            Ok(s) => utf16_text(units@) == Some(s@),
            Err(_) => utf16_text(units@).is_none(),
        },
{
    String::from_utf16(units)
}

/// Reads `length` bytes at `offset` as big-endian UTF-16 text.
pub fn read_utf16be(bytes: &[u8], offset: usize, length: usize, source: ImtErrorSource) -> (r:
    Result<String, ImtError>)
    ensures
        match r {
            Ok(s) => utf16_failure(bytes@, offset as int, length as int, source).is_none() && s@
                == utf16_string(bytes@, offset as int, length as int),
            Err(e) => utf16_failure(bytes@, offset as int, length as int, source) == Some(e),
        },
{
    if length % 2 != 0 {
        return Err(malformed_in(source));
    }
    if !in_bounds(bytes.len(), offset, length) {
        return Err(truncated_in(source));
    }
    let count: usize = length / 2;
    let mut units: Vec<u16> = Vec::with_capacity(count);
    let mut i: usize = 0;
    while i < count
        invariant
            i <= count,
            count * 2 == length,
            offset + length <= bytes@.len() <= usize::MAX,
            units@ == be_u16_units(bytes@, offset as int, i as nat),
        decreases count - i,
    {
        let unit: u16 = read_u16(bytes, offset + i * 2, source)?;
        units.push(unit);
        i += 1;
    }
    match string_from_utf16(&units) {
        Ok(s) => Ok(s),
        Err(_) => Err(malformed_in(source)),
    }
}

/// The four bytes of a tag as one big-endian number.
pub fn tag(bytes: &[u8; 4]) -> (t: u32)
    ensures
        t == be_u32(bytes@, 0),
{
    let a: u32 = bytes[0] as u32;
    let b: u32 = bytes[1] as u32;
    let c: u32 = bytes[2] as u32;
    let d: u32 = bytes[3] as u32;
    (a * 0x100 + b) * 0x1_0000 + (c * 0x100 + d)
}

} // verus!
