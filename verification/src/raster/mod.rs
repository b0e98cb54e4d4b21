//! What is decided in whole numbers when a glyph is scaled: the advance
//! width it starts from and the fingerprint of the request.

use crate::parse::font::Font;
use crate::util::ImtUtilError;
use std::collections::hash_map::DefaultHasher;
use std::hash::Hasher;
use vstd::prelude::*;
use vstd::std_specs::hash::DefaultHasherAdditionalSpecFns;

verus! {

/// What can go wrong when a glyph is scaled.
#[derive(Debug, Clone, Copy, PartialEq, Eq, Structural)]
pub enum ScaledGlyphErr {
    /// Glyph data is missing.
    Missing,
    /// Coordinates are invalid.
    InvalidCoords,
    /// Font is malformed.
    Malformed,
}

/// The two bytes of a 16-bit number, the low byte first.
pub open spec fn low_first_u16(v: u16) -> Seq<u8> {
    seq![(v % 0x100) as u8, (v / 0x100) as u8]
}

/// The four bytes of a 32-bit number, the low byte first.
pub open spec fn low_first_u32(v: u32) -> Seq<u8> {
    seq![
        (v % 0x100) as u8,
        (v / 0x100 % 0x100) as u8,
        (v / 0x1_0000 % 0x100) as u8,
        (v / 0x100_0000) as u8,
    ]
}

/// The bits of the coordinates that go into a fingerprint: those given, or
/// a zero for each axis when none are given.
pub open spec fn fingerprint_coords(coords: Option<Seq<u32>>, axis_count: nat) -> Seq<u32> {
    match coords {
        Some(bits) => bits,
        None => Seq::new(axis_count, |a: int| 0u32),
    }
}

/// What is hashed for a fingerprint, piece by piece: the glyph id, the bits
/// of the size, and the bits of each coordinate.
pub open spec fn fingerprint_stream(
    glyph_id: u16,
    size_bits: u32,
    coords: Seq<u32>,
) -> Seq<Seq<u8>> {
    seq![low_first_u16(glyph_id), low_first_u32(size_bits)] + Seq::new(
        coords.len(),
        |a: int| low_first_u32(coords[a]),
    )
}

/// Writes the four bytes of `v` to `hasher`, the low byte first.
fn write_bits(hasher: &mut DefaultHasher, v: u32)
    ensures
        final(hasher)@ == old(hasher)@.push(low_first_u32(v)),
{
    let bytes: [u8; 4] = [
        (v % 0x100) as u8,
        (v / 0x100 % 0x100) as u8,
        (v / 0x1_0000 % 0x100) as u8,
        (v / 0x100_0000) as u8,
    ];
    hasher.write(&bytes);
}

/// The fingerprint of a request for a scaled glyph: a hash of the glyph id,
/// of the bits of the size, and of the bits of the normalized coordinates,
/// or of one zero per axis where no coordinates are given. The hash is that
/// of the standard library's `DefaultHasher`, fed with each number as its
/// bytes from the lowest to the highest. It is the same for the same
/// request, whenever and wherever it is asked for.
pub fn unique_id(glyph_id: u16, size_bits: u32, coords: Option<&Vec<u32>>, axis_count: usize) -> (id:
    u64)
    ensures
        id == DefaultHasher::spec_finish(
            fingerprint_stream(
                glyph_id,
                size_bits,
                fingerprint_coords(
                    match coords {
                        Some(bits) => Some(bits@),
                        None => None,
                    },
                    axis_count as nat,
                ),
            ),
        ),
{
    let mut hasher = DefaultHasher::new();
    let id_bytes: [u8; 2] = [(glyph_id % 0x100) as u8, (glyph_id / 0x100) as u8];
    hasher.write(&id_bytes);
    write_bits(&mut hasher, size_bits);
    let ghost all = fingerprint_coords(
        match coords {
            Some(bits) => Some(bits@),
            None => None,
        },
        axis_count as nat,
    );
    let count: usize = match coords {
        Some(bits) => bits.len(),
        None => axis_count,
    };
    let mut a: usize = 0;
    while a < count
        invariant
            a <= count == all.len(),
            match coords {
                Some(bits) => bits@ == all,
                None => forall|j: int| 0 <= j < all.len() ==> all[j] == 0,
            },
            hasher@ == seq![low_first_u16(glyph_id), low_first_u32(size_bits)] + Seq::new(
                a as nat,
                |j: int| low_first_u32(all[j]),
            ),
        decreases count - a,
    {
        let bits: u32 = match coords {
            Some(bits) => bits[a],
            None => 0,
        };
        write_bits(&mut hasher, bits);
        a += 1;
    }
    hasher.finish()
}

/// The advance width that scaling starts from, in font design units: that
/// of the glyph in the `hmtx` table.
pub fn base_advance(font: &Font, glyph_id: u16) -> (r: Result<u16, ScaledGlyphErr>)
    ensures
        match r {
            Ok(advance) => font.spec_hmtx_table().advance_of(glyph_id as int) == Some(advance),
            Err(e) => e == ScaledGlyphErr::Missing && font.spec_hmtx_table().advance_of(
                glyph_id as int,
            ).is_none(),
        },
{
    match font.hmtx_table().advance_width(glyph_id) {
        Some(advance) => Ok(advance),
        None => Err(ScaledGlyphErr::Missing),
    }
}

/// The number of axes of a font: that of its `fvar` table, or none for a
/// font without one.
pub open spec fn axis_count_of(font: Font) -> nat {
    match font.spec_fvar_table() {
        Some(fvar) => fvar.axes@.len(),
        None => 0,
    }
}

/// The fingerprint of a request for a glyph of `font`: that of the glyph id,
/// the bits of the size and the bits of the normalized coordinates, with a
/// zero for each axis of the font where no coordinates are given.
pub fn request_id(font: &Font, glyph_id: u16, size_bits: u32, coords: Option<&Vec<u32>>) -> (id: u64)
    ensures
        id == DefaultHasher::spec_finish(
            fingerprint_stream(
                glyph_id,
                size_bits,
                fingerprint_coords(
                    match coords {
                        Some(bits) => Some(bits@),
                        None => None,
                    },
                    axis_count_of(*font),
                ),
            ),
        ),
{
    let axis_count: usize = match font.fvar_table() {
        Some(fvar) => fvar.axes.len(),
        None => 0,
    };
    unique_id(glyph_id, size_bits, coords, axis_count)
}

/// What a failure to vary the outline of a glyph means for scaling it:
/// coordinates that are refused and a font that is malformed end it; a font
/// without a `gvar` table and a glyph without variation data do not, and
/// the outline stays as it is.
pub open spec fn variation_failure_of(e: ImtUtilError) -> Option<ScaledGlyphErr> {
    match e {
        ImtUtilError::InvalidCoords => Some(ScaledGlyphErr::InvalidCoords),
        ImtUtilError::MalformedFont => Some(ScaledGlyphErr::Malformed),
        ImtUtilError::NoData => None,
        ImtUtilError::MissingTable => None,
    }
}

/// Decides whether a failure to vary the outline of a glyph ends the
/// scaling of the glyph, and with which error.
pub fn variation_failure(e: ImtUtilError) -> (r: Option<ScaledGlyphErr>)
    ensures
        r == variation_failure_of(e),
{
    match e {
        ImtUtilError::InvalidCoords => Some(ScaledGlyphErr::InvalidCoords),
        ImtUtilError::MalformedFont => Some(ScaledGlyphErr::Malformed),
        ImtUtilError::NoData => None,
        ImtUtilError::MissingTable => None,
    }
}

} // verus!
