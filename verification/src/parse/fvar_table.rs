//! The `fvar` table: the axes along which a font varies, and its named
//! instances.

use crate::error::{ImtError, ImtErrorKind, ImtErrorSource};
use crate::parse::{
    be_i32, be_u16, be_u32, fits, in_bounds, in_bounds_wide, malformed, malformed_in, read_fixed,
    read_u16, read_u32, truncated, truncated_in, unexpected_version, wide_offset, Fixed,
};
use vstd::prelude::*;

verus! {

/// The number of bytes of one axis record.
pub const AXIS_RECORD_SIZE: usize = 20;

/// The `fvar` table.
#[derive(Debug, Clone)]
pub struct FvarTable {
    pub major_version: u16,
    pub minor_version: u16,
    pub axes: Vec<VariationAxisRecord>,
    pub instances: Vec<InstanceRecord>,
}

/// One axis of variation: its tag and the least, the default and the
/// greatest value a user can ask for.
#[derive(Debug, Clone, Copy)]
pub struct VariationAxisRecord {
    pub axis_tag: u32,
    pub min_value: Fixed,
    pub default_value: Fixed,
    pub max_value: Fixed,
    pub flags: u16,
    pub axis_name_id: u16,
}

/// A named point of the design space, with one coordinate per axis.
#[derive(Debug, Clone)]
pub struct InstanceRecord {
    pub sub_family_name_id: u16,
    pub flags: u16,
    pub coordinates: Vec<Fixed>,
    pub post_script_name_id: Option<u16>,
}

impl VariationAxisRecord {
    /// The record that the 20 bytes at `off` spell.
    pub open spec fn decode(b: Seq<u8>, off: int) -> VariationAxisRecord {
        VariationAxisRecord {
            axis_tag: be_u32(b, off),
            min_value: be_i32(b, off + 4),
            default_value: be_i32(b, off + 8),
            max_value: be_i32(b, off + 12),
            flags: be_u16(b, off + 16),
            axis_name_id: be_u16(b, off + 18),
        }
    }

    /// What parsing at `off` gives: the record, or `Truncated` when fewer
    /// than 20 bytes are left.
    pub open spec fn parse_spec(b: Seq<u8>, off: int) -> Result<VariationAxisRecord, ImtError> {
        if fits(b, off, 20) {
            Ok(Self::decode(b, off))
        } else {
            Err(truncated(ImtErrorSource::FvarTable))
        }
    }

    /// Reads the axis record at `record_offset`.
    pub fn parse(bytes: &[u8], record_offset: usize) -> (r: Result<Self, ImtError>)
        ensures
            r == Self::parse_spec(bytes@, record_offset as int),
    {
        let src = ImtErrorSource::FvarTable;
        if !in_bounds(bytes.len(), record_offset, 20) {
            return Err(truncated_in(src));
        }
        Ok(
            Self {
                axis_tag: read_u32(bytes, record_offset, src)?,
                min_value: read_fixed(bytes, record_offset + 4, src)?,
                default_value: read_fixed(bytes, record_offset + 8, src)?,
                max_value: read_fixed(bytes, record_offset + 12, src)?,
                flags: read_u16(bytes, record_offset + 16, src)?,
                axis_name_id: read_u16(bytes, record_offset + 18, src)?,
            },
        )
    }

    /// Whether the axis should be kept out of user interfaces.
    #[verifier::when_used_as_spec(spec_hidden_axis)]
    pub fn hidden_axis(&self) -> (r: bool)
        ensures
            r == self.spec_hidden_axis(),
    {
        self.flags & 0x0001 == 0x0001
    }

    /// What [`Self::hidden_axis`] tells.
    pub open spec fn spec_hidden_axis(&self) -> bool {
        self.flags & 0x0001 == 0x0001
    }
}

impl InstanceRecord {
    /// The number of bytes of an instance record for `axis_count` axes.
    pub open spec fn size(axis_count: int, post_script_name: bool) -> int {
        if post_script_name {
            4 * axis_count + 6
        } else {
            4 * axis_count + 4
        }
    }

    /// The first check that fails when a record is read at `off`, if any:
    /// only that the record is cut short.
    pub open spec fn failure(
        b: Seq<u8>,
        off: int,
        axis_count: int,
        post_script_name: bool,
    ) -> Option<ImtError> {
        if fits(b, off, Self::size(axis_count, post_script_name)) {
            None
        } else {
            Some(truncated(ImtErrorSource::FvarTable))
        }
    }

    /// Every field holds what the record at `off` spells.
    pub open spec fn decodes(
        &self,
        b: Seq<u8>,
        off: int,
        axis_count: int,
        post_script_name: bool,
    ) -> bool {
        &&& self.sub_family_name_id == be_u16(b, off)
        &&& self.flags == be_u16(b, off + 2)
        &&& self.coordinates@ == Seq::new(axis_count as nat, |i: int| be_i32(b, off + 4 + 4 * i))
        &&& self.post_script_name_id == if post_script_name {
            Some(be_u16(b, off + 4 + 4 * axis_count))
        } else {
            None
        }
    }

    /// Reads the instance record at `record_offset`, with one coordinate for
    /// each of `axis_count` axes, and with the id of a PostScript name if
    /// `post_script_name` says so.
    pub fn parse(bytes: &[u8], record_offset: usize, axis_count: usize, post_script_name: bool) -> (r:
        Result<Self, ImtError>)
        ensures
            match r {
                Ok(t) => Self::failure(
                    bytes@,
                    record_offset as int,
                    axis_count as int,
                    post_script_name,
                ).is_none() && t.decodes(
                    bytes@,
                    record_offset as int,
                    axis_count as int,
                    post_script_name,
                ),
                Err(e) => Self::failure(
                    bytes@,
                    record_offset as int,
                    axis_count as int,
                    post_script_name,
                ) == Some(e),
            },
    {
        let src = ImtErrorSource::FvarTable;
        let size: u128 = if post_script_name {
            axis_count as u128 * 4 + 6
        } else {
            axis_count as u128 * 4 + 4
        };
        if record_offset as u128 + size > bytes.len() as u128 {
            return Err(truncated_in(src));
        }
        let sub_family_name_id: u16 = read_u16(bytes, record_offset, src)?;
        let flags: u16 = read_u16(bytes, record_offset + 2, src)?;
        let mut coordinates: Vec<Fixed> = Vec::with_capacity(axis_count);
        let mut i: usize = 0;
        while i < axis_count
            invariant
                i <= axis_count,
                record_offset + 4 + axis_count * 4 <= bytes@.len() <= usize::MAX,
                coordinates@ == Seq::new(
                    i as nat,
                    |j: int| be_i32(bytes@, record_offset + 4 + 4 * j),
                ),
            decreases axis_count - i,
        {
            let coordinate: Fixed = read_fixed(
                bytes,
                record_offset + 4 + i * 4,
                ImtErrorSource::FvarTable,
            )?;
            coordinates.push(coordinate);
            i += 1;
        }
        let post_script_name_id: Option<u16> = if post_script_name {
            Some(read_u16(bytes, record_offset + 4 + axis_count * 4, src)?)
        } else {
            None
        };
        Ok(Self { sub_family_name_id, flags, coordinates, post_script_name_id })
    }
}

impl FvarTable {
    /// The number of axes of the table at `off`.
    pub open spec fn axis_count(b: Seq<u8>, off: int) -> int {
        be_u16(b, off + 8) as int
    }

    /// The number of instances of the table at `off`.
    pub open spec fn instance_count(b: Seq<u8>, off: int) -> int {
        be_u16(b, off + 12) as int
    }

    /// The number of bytes of each instance record.
    pub open spec fn instance_size(b: Seq<u8>, off: int) -> int {
        be_u16(b, off + 14) as int
    }

    /// Whether the instance records end with the id of a PostScript name.
    pub open spec fn with_post_script_name(b: Seq<u8>, off: int) -> bool {
        Self::instance_size(b, off) == InstanceRecord::size(Self::axis_count(b, off), true)
    }

    /// Where the axis records start.
    pub open spec fn axes_at(b: Seq<u8>, off: int) -> int {
        off + be_u16(b, off + 4)
    }

    /// Where the instance records start.
    pub open spec fn instances_at(b: Seq<u8>, off: int) -> int {
        Self::axes_at(b, off) + 20 * Self::axis_count(b, off)
    }

    /// The first check that fails when the table is read at `off`, if any:
    /// a header cut short; a version other than 1.0; a reserved number that
    /// is not 2; axis records that are not 20 bytes long; instance records
    /// of a length that fits neither with nor without the id of a PostScript
    /// name; records cut short.
    pub open spec fn failure(b: Seq<u8>, off: int) -> Option<ImtError> {
        let src = ImtErrorSource::FvarTable;
        if !fits(b, off, 16) {
            Some(truncated(src))
        } else if be_u16(b, off) != 1 || be_u16(b, off + 2) != 0 {
            Some(unexpected_version(src))
        } else if be_u16(b, off + 6) != 2 {
            Some(malformed(src))
        } else if be_u16(b, off + 10) != 20 {
            Some(malformed(src))
        } else if Self::instance_size(b, off) != InstanceRecord::size(Self::axis_count(b, off), false)
            && Self::instance_size(b, off) != InstanceRecord::size(Self::axis_count(b, off), true) {
            Some(malformed(src))
        } else if !fits(
            b,
            Self::axes_at(b, off),
            20 * Self::axis_count(b, off) + Self::instance_count(b, off) * Self::instance_size(
                b,
                off,
            ),
        ) {
            Some(truncated(src))
        } else {
            None
        }
    }

    /// Every field holds what the table at `off` spells.
    pub open spec fn decodes(&self, b: Seq<u8>, off: int) -> bool {
        &&& self.major_version == be_u16(b, off)
        &&& self.minor_version == be_u16(b, off + 2)
        &&& self.axes@ == Seq::new(
            Self::axis_count(b, off) as nat,
            |i: int| VariationAxisRecord::decode(b, Self::axes_at(b, off) + 20 * i),
        )
        &&& self.instances@.len() == Self::instance_count(b, off)
        &&& forall|i: int|
            0 <= i < self.instances@.len() ==> (#[trigger] self.instances@[i]).decodes(
                b,
                Self::instances_at(b, off) + Self::instance_size(b, off) * i,
                Self::axis_count(b, off),
                Self::with_post_script_name(b, off),
            )
    }

    /// Reads the `fvar` table that starts at `table_offset`.
    pub fn try_parse(bytes: &[u8], table_offset: usize) -> (r: Result<Self, ImtError>)
        ensures
            match r {
                Ok(t) => Self::failure(bytes@, table_offset as int).is_none() && t.decodes(
                    bytes@,
                    table_offset as int,
                ),
                Err(e) => Self::failure(bytes@, table_offset as int) == Some(e),
            },
    {
        let src = ImtErrorSource::FvarTable;
        let len: usize = bytes.len();
        let ghost b = bytes@;
        let ghost off = table_offset as int;
        if !in_bounds(len, table_offset, 16) {
            return Err(truncated_in(src));
        }
        let major_version: u16 = read_u16(bytes, table_offset, src)?;
        let minor_version: u16 = read_u16(bytes, table_offset + 2, src)?;
        if major_version != 1 || minor_version != 0 {
            return Err(ImtError { kind: ImtErrorKind::UnexpectedVersion, source: src });
        }
        let axes_array_offset: u16 = read_u16(bytes, table_offset + 4, src)?;
        let reserved: u16 = read_u16(bytes, table_offset + 6, src)?;
        if reserved != 2 {
            return Err(malformed_in(src));
        }
        let axis_count: usize = read_u16(bytes, table_offset + 8, src)? as usize;
        let axis_size: usize = read_u16(bytes, table_offset + 10, src)? as usize;
        if axis_size != AXIS_RECORD_SIZE {
            return Err(malformed_in(src));
        }
        let instance_count: usize = read_u16(bytes, table_offset + 12, src)? as usize;
        let instance_size: usize = read_u16(bytes, table_offset + 14, src)? as usize;
        let size_without_ps_name: usize = axis_count * 4 + 4;
        let size_with_ps_name: usize = axis_count * 4 + 6;
        if instance_size != size_without_ps_name && instance_size != size_with_ps_name {
            return Err(malformed_in(src));
        }
        let post_script_name: bool = instance_size == size_with_ps_name;
        assert(instance_count * instance_size <= 0xFFFF * 0xFFFF) by (nonlinear_arith)
            requires
                instance_count <= 0xFFFF,
                instance_size <= 0xFFFF,
        ;
        let total: u64 = axis_count as u64 * 20 + instance_count as u64 * instance_size as u64;
        let axes_at: usize = match wide_offset(table_offset, axes_array_offset as u32, len) {
            Some(at) => at,
            None => {
                return Err(truncated_in(src));
            },
        };
        if !in_bounds_wide(len, axes_at, total) {
            return Err(truncated_in(src));
        }
        let mut axes: Vec<VariationAxisRecord> = Vec::with_capacity(axis_count);
        let mut i: usize = 0;
        while i < axis_count
            invariant
                i <= axis_count == Self::axis_count(b, off),
                b == bytes@,
                axes_at == Self::axes_at(b, off),
                axes_at + axis_count * 20 <= b.len() <= usize::MAX,
                axes@ == Seq::new(
                    i as nat,
                    |j: int| VariationAxisRecord::decode(b, Self::axes_at(b, off) + 20 * j),
                ),
            decreases axis_count - i,
        {
            let axis = VariationAxisRecord::parse(bytes, axes_at + i * 20)?;
            axes.push(axis);
            i += 1;
        }
        let instances_at: usize = axes_at + axis_count * 20;
        let mut instances: Vec<InstanceRecord> = Vec::with_capacity(instance_count);
        let mut record_offset: usize = instances_at;
        let mut i: usize = 0;
        while i < instance_count
            invariant
                i <= instance_count == Self::instance_count(b, off),
                b == bytes@,
                axis_count == Self::axis_count(b, off),
                instance_size == Self::instance_size(b, off),
                instance_size == InstanceRecord::size(axis_count as int, post_script_name),
                post_script_name == Self::with_post_script_name(b, off),
                instances_at == Self::instances_at(b, off),
                record_offset == instances_at + instance_size * i,
                instances_at + instance_count * instance_size <= b.len() <= usize::MAX,
                instances@.len() == i,
                forall|j: int|
                    0 <= j < i ==> (#[trigger] instances@[j]).decodes(
                        b,
                        Self::instances_at(b, off) + Self::instance_size(b, off) * j,
                        Self::axis_count(b, off),
                        Self::with_post_script_name(b, off),
                    ),
            decreases instance_count - i,
        {
            assert(record_offset + instance_size <= b.len()) by (nonlinear_arith)
                requires
                    record_offset == instances_at + instance_size * i,
                    i < instance_count,
                    instances_at + instance_count * instance_size <= b.len(),
            ;
            let instance = match InstanceRecord::parse(
                bytes,
                record_offset,
                axis_count,
                post_script_name,
            ) {
                Ok(instance) => instance,
                Err(e) => {
                    return Err(e);
                },
            };
            instances.push(instance);
            assert(instance_size * (i + 1) == instance_size * i + instance_size)
                by (nonlinear_arith);
            record_offset += instance_size;
            i += 1;
        }
        Ok(Self { major_version, minor_version, axes, instances })
    }
}

} // verus!
