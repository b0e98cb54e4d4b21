//! The header of a font collection. Collections are recognised so that they
//! can be refused.

use crate::error::{ImtError, ImtErrorKind, ImtErrorSource};
use crate::parse::table_tag;
use crate::parse::{
    be_u16, be_u32, fits, in_bounds, in_bounds_wide, read_u16, read_u32, truncated, truncated_in,
};
use vstd::prelude::*;

verus! {

/// The header of a font collection. In a header of a version before 2 the
/// three fields of the digital signature are zero.
#[derive(Debug, Clone)]
pub struct TTCHeader {
    pub ttc_tag: u32,
    pub major_version: u16,
    pub minor_version: u16,
    pub num_fonts: u32,
    pub table_directory_offsets: Vec<u32>,
    pub dsig_tag: u32,
    pub dsig_length: u32,
    pub dsig_offset: u32,
}

impl TTCHeader {
    /// Whether the data starts with the tag of a font collection.
    pub open spec fn has_tag(b: Seq<u8>) -> bool {
        fits(b, 0, 4) && be_u32(b, 0) == table_tag::TTCF
    }

    /// The number of fonts that the header announces.
    pub open spec fn font_count(b: Seq<u8>) -> int {
        be_u32(b, 8) as int
    }

    /// Where the offsets of the fonts end.
    pub open spec fn offsets_end(b: Seq<u8>) -> int {
        12 + 4 * Self::font_count(b)
    }

    /// The first check that fails when a header is read, if any: the tag of
    /// a collection is not there; the header is cut short; the offsets are
    /// cut short; in version 2, the digital signature is cut short.
    pub open spec fn failure(b: Seq<u8>) -> Option<ImtError> {
        let src = ImtErrorSource::TTCHeader;
        if !Self::has_tag(b) {
            Some(ImtError { kind: ImtErrorKind::UnexpectedTag, source: src })
        } else if !fits(b, 0, 12) {
            Some(truncated(src))
        } else if !fits(b, 0, Self::offsets_end(b)) {
            Some(truncated(src))
        } else if be_u16(b, 4) == 2 && !fits(b, Self::offsets_end(b), 12) {
            Some(truncated(src))
        } else {
            None
        }
    }

    /// Every field holds what the header spells.
    pub open spec fn decodes(&self, b: Seq<u8>) -> bool {
        &&& self.ttc_tag == be_u32(b, 0)
        &&& self.major_version == be_u16(b, 4)
        &&& self.minor_version == be_u16(b, 6)
        &&& self.num_fonts == be_u32(b, 8)
        &&& self.table_directory_offsets@ == Seq::new(
            Self::font_count(b) as nat,
            |i: int| be_u32(b, 12 + 4 * i),
        )
        &&& self.dsig_tag == if self.major_version == 2 {
            be_u32(b, Self::offsets_end(b))
        } else {
            0
        }
        &&& self.dsig_length == if self.major_version == 2 {
            be_u32(b, Self::offsets_end(b) + 4)
        } else {
            0
        }
        &&& self.dsig_offset == if self.major_version == 2 {
            be_u32(b, Self::offsets_end(b) + 8)
        } else {
            0
        }
    }

    /// Reads the header of a font collection from the start of `bytes`.
    pub fn try_parse(bytes: &[u8]) -> (r: Result<Self, ImtError>)
        ensures
            match r {
                Ok(t) => Self::failure(bytes@).is_none() && t.decodes(bytes@),
                Err(e) => Self::failure(bytes@) == Some(e),
            },
    {
        let src = ImtErrorSource::TTCHeader;
        let len: usize = bytes.len();
        if !in_bounds(len, 0, 4) {
            return Err(ImtError { kind: ImtErrorKind::UnexpectedTag, source: src });
        }
        let ttc_tag: u32 = read_u32(bytes, 0, src)?;
        if ttc_tag != table_tag::TTCF {
            return Err(ImtError { kind: ImtErrorKind::UnexpectedTag, source: src });
        }
        if !in_bounds(len, 0, 12) {
            return Err(truncated_in(src));
        }
        let major_version: u16 = read_u16(bytes, 4, src)?;
        let minor_version: u16 = read_u16(bytes, 6, src)?;
        let num_fonts: u32 = read_u32(bytes, 8, src)?;
        if !in_bounds_wide(len, 12, num_fonts as u64 * 4) {
            return Err(truncated_in(src));
        }
        let count: usize = num_fonts as usize;
        let mut table_directory_offsets: Vec<u32> = Vec::new();
        let mut i: usize = 0;
        while i < count
            invariant
                i <= count == Self::font_count(bytes@),
                12 + 4 * count <= bytes@.len() <= usize::MAX,
                table_directory_offsets@ == Seq::new(i as nat, |j: int| be_u32(bytes@, 12 + 4 * j)),
            decreases count - i,
        {
            let offset: u32 = read_u32(bytes, 12 + i * 4, ImtErrorSource::TTCHeader)?;
            table_directory_offsets.push(offset);
            i += 1;
        }
        let offsets_end: usize = 12 + count * 4;
        if major_version == 2 {
            if !in_bounds(len, offsets_end, 12) {
                return Err(truncated_in(src));
            }
            let dsig_tag: u32 = read_u32(bytes, offsets_end, src)?;
            let dsig_length: u32 = read_u32(bytes, offsets_end + 4, src)?;
            let dsig_offset: u32 = read_u32(bytes, offsets_end + 8, src)?;
            Ok(
                Self {
                    ttc_tag,
                    major_version,
                    minor_version,
                    num_fonts,
                    table_directory_offsets,
                    dsig_tag,
                    dsig_length,
                    dsig_offset,
                },
            )
        } else {
            Ok(
                Self {
                    ttc_tag,
                    major_version,
                    minor_version,
                    num_fonts,
                    table_directory_offsets,
                    dsig_tag: 0,
                    dsig_length: 0,
                    dsig_offset: 0,
                },
            )
        }
    }
}

} // verus!
