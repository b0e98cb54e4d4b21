//! The tags of the tables this library reads, each as the big-endian number
//! its four ASCII letters spell.

use vstd::prelude::*;

verus! {

/// The tag of the `cmap` table.
pub const CMAP: u32 = 0x636D_6170;

/// The tag of the `head` table.
pub const HEAD: u32 = 0x6865_6164;

/// The tag of the `hhea` table.
pub const HHEA: u32 = 0x6868_6561;

/// The tag of the `hmtx` table.
pub const HMTX: u32 = 0x686D_7478;

/// The tag of the `maxp` table.
pub const MAXP: u32 = 0x6D61_7870;

/// The tag of the `loca` table.
pub const LOCA: u32 = 0x6C6F_6361;

/// The tag of the `glyf` table.
pub const GLYF: u32 = 0x676C_7966;

/// The tag of the `fvar` table.
pub const FVAR: u32 = 0x6676_6172;

/// The tag of the `name` table.
pub const NAME: u32 = 0x6E61_6D65;

/// The tag of the `gvar` table.
pub const GVAR: u32 = 0x6776_6172;

/// The tag of the `avar` table.
pub const AVAR: u32 = 0x6176_6172;

/// The tag of the `HVAR` table.
pub const HVAR: u32 = 0x4856_4152;

/// The tag at the start of a font collection.
pub const TTCF: u32 = 0x7474_6366;

/// The signature of a font with CFF outlines.
pub const OTTO: u32 = 0x4F54_544F;

} // verus!
