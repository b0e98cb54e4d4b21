//! The `name` table: the strings that describe a font.

use crate::error::{ImtError, ImtErrorKind, ImtErrorSource};
use crate::parse::{
    be_u16, first_failure, fits, in_bounds, lemma_first_failure_stays, malformed_in, offset_sum,
    offset_sum_spec,
    read_u16, read_utf16be, truncated, truncated_in, unexpected_version, utf16_failure,
    utf16_string,
};
use vstd::prelude::*;

verus! {

/// The `name` table. A table of version 0 has no language tags.
#[derive(Debug, Clone)]
pub struct NameTable {
    pub version: u16,
    pub name_records: Vec<NameRecord>,
    pub lang_tag_records: Vec<LangTagRecord>,
}

/// One string of the `name` table, and what it names.
#[derive(Debug, Clone)]
pub struct NameRecord {
    pub platform_id: u16,
    pub encoding_id: u16,
    pub language_id: u16,
    pub name_id: u16,
    pub name: String,
}

/// A language tag of a `name` table of version 1.
#[derive(Debug, Clone)]
pub struct LangTagRecord(pub String);

impl NameRecord {
    /// Where the string of the record at `record` starts, when the strings
    /// are stored from `storage` on.
    pub open spec fn string_offset(b: Seq<u8>, record: int, storage: int) -> int {
        storage + be_u16(b, record + 10)
    }

    /// The first check that fails when a record is read at `record`, if any:
    /// fewer than 12 bytes, then what can fail for its string.
    pub open spec fn failure(b: Seq<u8>, record: int, storage: int) -> Option<ImtError> {
        if !fits(b, record, 12) {
            Some(truncated(ImtErrorSource::NameRecord))
        } else {
            utf16_failure(
                b,
                Self::string_offset(b, record, storage),
                be_u16(b, record + 8) as int,
                ImtErrorSource::NameRecord,
            )
        }
    }

    /// Every field holds what the record at `record` spells.
    pub open spec fn decodes(&self, b: Seq<u8>, record: int, storage: int) -> bool {
        &&& self.platform_id == be_u16(b, record)
        &&& self.encoding_id == be_u16(b, record + 2)
        &&& self.language_id == be_u16(b, record + 4)
        &&& self.name_id == be_u16(b, record + 6)
        &&& self.name@ == utf16_string(
            b,
            Self::string_offset(b, record, storage),
            be_u16(b, record + 8) as int,
        )
    }

    /// Reads the name record at `record_offset`, whose string is stored from
    /// `storage_offset` on.
    pub fn try_parse(bytes: &[u8], record_offset: usize, storage_offset: usize) -> (r: Result<
        Self,
        ImtError,
    >)
        ensures
            match r {
                Ok(t) => Self::failure(bytes@, record_offset as int, storage_offset as int).is_none()
                    && t.decodes(bytes@, record_offset as int, storage_offset as int),
                Err(e) => Self::failure(bytes@, record_offset as int, storage_offset as int)
                    == Some(e),
            },
    {
        let src = ImtErrorSource::NameRecord;
        if !in_bounds(bytes.len(), record_offset, 12) {
            return Err(truncated_in(src));
        }
        let platform_id: u16 = read_u16(bytes, record_offset, src)?;
        let encoding_id: u16 = read_u16(bytes, record_offset + 2, src)?;
        let language_id: u16 = read_u16(bytes, record_offset + 4, src)?;
        let name_id: u16 = read_u16(bytes, record_offset + 6, src)?;
        let length: usize = read_u16(bytes, record_offset + 8, src)? as usize;
        let relative: usize = read_u16(bytes, record_offset + 10, src)? as usize;
        let name = match offset_sum(storage_offset, relative) {
            Some(string_offset) => read_utf16be(bytes, string_offset, length, src)?,
            None => {
                return Err(unreachable_text(length, src));
            },
        };
        Ok(Self { platform_id, encoding_id, language_id, name_id, name })
    }
}

/// The failure of a string that starts past every offset a buffer can have:
/// an odd length is reported first, as for any string.
fn unreachable_text(length: usize, source: ImtErrorSource) -> (e: ImtError)
    ensures
        forall|b: Seq<u8>, off: int|
            off > usize::MAX && b.len() <= usize::MAX ==> #[trigger] utf16_failure(
                b,
                off,
                length as int,
                source,
            ) == Some(e),
{
    if length % 2 != 0 {
        malformed_in(source)
    } else {
        truncated_in(source)
    }
}

impl LangTagRecord {
    /// Where the tag of the record at `record` starts.
    pub open spec fn string_offset(b: Seq<u8>, record: int, storage: int) -> int {
        storage + be_u16(b, record + 2)
    }

    /// The first check that fails when a record is read at `record`, if any.
    pub open spec fn failure(b: Seq<u8>, record: int, storage: int) -> Option<ImtError> {
        if !fits(b, record, 4) {
            Some(truncated(ImtErrorSource::NameTagRecord))
        } else {
            utf16_failure(
                b,
                Self::string_offset(b, record, storage),
                be_u16(b, record) as int,
                ImtErrorSource::NameTagRecord,
            )
        }
    }

    /// The tag is the text that the record at `record` points to.
    pub open spec fn decodes(&self, b: Seq<u8>, record: int, storage: int) -> bool {
        self.0@ == utf16_string(
            b,
            Self::string_offset(b, record, storage),
            be_u16(b, record) as int,
        )
    }

    /// Reads the language tag record at `record_offset`, whose tag is stored
    /// from `storage_offset` on.
    pub fn try_parse(bytes: &[u8], record_offset: usize, storage_offset: usize) -> (r: Result<
        Self,
        ImtError,
    >)
        ensures
            match r {
                Ok(t) => Self::failure(bytes@, record_offset as int, storage_offset as int).is_none()
                    && t.decodes(bytes@, record_offset as int, storage_offset as int),
                Err(e) => Self::failure(bytes@, record_offset as int, storage_offset as int)
                    == Some(e),
            },
    {
        let src = ImtErrorSource::NameTagRecord;
        if !in_bounds(bytes.len(), record_offset, 4) {
            return Err(truncated_in(src));
        }
        let length: usize = read_u16(bytes, record_offset, src)? as usize;
        let relative: usize = read_u16(bytes, record_offset + 2, src)? as usize;
        let tag = match offset_sum(storage_offset, relative) {
            Some(string_offset) => read_utf16be(bytes, string_offset, length, src)?,
            None => {
                return Err(unreachable_text(length, src));
            },
        };
        Ok(Self(tag))
    }
}

impl NameTable {
    /// Where the strings of the table at `off` are stored.
    pub open spec fn storage(b: Seq<u8>, off: int) -> int {
        off + be_u16(b, off + 4)
    }

    /// The number of name records of the table at `off`.
    pub open spec fn name_count(b: Seq<u8>, off: int) -> int {
        be_u16(b, off + 2) as int
    }

    /// Where the language tags of a table of version 1 are counted.
    pub open spec fn lang_tags_at(b: Seq<u8>, off: int) -> int {
        off + 6 + 12 * Self::name_count(b, off)
    }

    /// The number of language tags of the table at `off`.
    pub open spec fn lang_tag_count(b: Seq<u8>, off: int) -> int {
        if be_u16(b, off) == 1 {
            be_u16(b, Self::lang_tags_at(b, off)) as int
        } else {
            0
        }
    }

    /// The failure of each name record, by its index.
    pub open spec fn name_failures(b: Seq<u8>, off: int) -> spec_fn(int) -> Option<ImtError> {
        |i: int| NameRecord::failure(b, off + 6 + 12 * i, Self::storage(b, off))
    }

    /// The failure of each language tag, by its index.
    pub open spec fn lang_tag_failures(b: Seq<u8>, off: int) -> spec_fn(int) -> Option<ImtError> {
        |i: int|
            LangTagRecord::failure(b, Self::lang_tags_at(b, off) + 2 + 4 * i, Self::storage(b, off))
    }

    /// The first check that fails when the table is read at `off`, if any:
    /// a header cut short, a version other than 0 and 1, name records cut
    /// short, the first name record that fails, and for version 1 the count
    /// of language tags cut short, the tags cut short, the first tag that
    /// fails.
    pub open spec fn failure(b: Seq<u8>, off: int) -> Option<ImtError> {
        if !fits(b, off, 6) {
            Some(truncated(ImtErrorSource::NameTable))
        } else if be_u16(b, off) != 0 && be_u16(b, off) != 1 {
            Some(unexpected_version(ImtErrorSource::NameTable))
        } else if !fits(b, off + 6, 12 * Self::name_count(b, off)) {
            Some(truncated(ImtErrorSource::NameTable))
        } else if first_failure(Self::name_count(b, off), Self::name_failures(b, off)).is_some() {
            first_failure(Self::name_count(b, off), Self::name_failures(b, off))
        } else if be_u16(b, off) == 0 {
            None
        } else if !fits(b, Self::lang_tags_at(b, off), 2) {
            Some(truncated(ImtErrorSource::NameTable))
        } else if !fits(b, Self::lang_tags_at(b, off) + 2, 4 * Self::lang_tag_count(b, off)) {
            Some(truncated(ImtErrorSource::NameTable))
        } else {
            first_failure(Self::lang_tag_count(b, off), Self::lang_tag_failures(b, off))
        }
    }

    /// Every field holds what the table at `off` spells.
    pub open spec fn decodes(&self, b: Seq<u8>, off: int) -> bool {
        &&& self.version == be_u16(b, off)
        &&& self.name_records@.len() == Self::name_count(b, off)
        &&& forall|i: int|
            0 <= i < self.name_records@.len() ==> (#[trigger] self.name_records@[i]).decodes(
                b,
                off + 6 + 12 * i,
                Self::storage(b, off),
            )
        &&& self.lang_tag_records@.len() == Self::lang_tag_count(b, off)
        &&& forall|i: int|
            0 <= i < self.lang_tag_records@.len() ==> (#[trigger] self.lang_tag_records@[i]).decodes(
                b,
                Self::lang_tags_at(b, off) + 2 + 4 * i,
                Self::storage(b, off),
            )
    }

    /// Reads the `name` table that starts at `table_offset`.
    pub fn try_parse(bytes: &[u8], table_offset: usize) -> (r: Result<Self, ImtError>)
        ensures
            match r {
                Ok(t) => Self::failure(bytes@, table_offset as int).is_none() && t.decodes(
                    bytes@,
                    table_offset as int,
                ),
                Err(e) => Self::failure(bytes@, table_offset as int) == Some(e),
            },
    {
        let src = ImtErrorSource::NameTable;
        if !in_bounds(bytes.len(), table_offset, 6) {
            return Err(truncated_in(src));
        }
        let version: u16 = read_u16(bytes, table_offset, src)?;
        if version != 0 && version != 1 {
            return Err(ImtError { kind: ImtErrorKind::UnexpectedVersion, source: src });
        }
        let name_count: usize = read_u16(bytes, table_offset + 2, src)? as usize;
        let storage_relative: usize = read_u16(bytes, table_offset + 4, src)? as usize;
        let storage_offset: Option<usize> = offset_sum(table_offset, storage_relative);
        let records_offset: usize = table_offset + 6;
        if !in_bounds(bytes.len(), records_offset, name_count * 12) {
            return Err(truncated_in(src));
        }
        let ghost b = bytes@;
        let ghost off = table_offset as int;
        let ghost name_failures = Self::name_failures(b, off);
        let mut name_records: Vec<NameRecord> = Vec::with_capacity(name_count);
        let mut i: usize = 0;
        while i < name_count
            invariant
                i <= name_count,
                b == bytes@,
                off == table_offset,
                name_failures == Self::name_failures(b, off),
                name_count == Self::name_count(b, off),
                fits(b, off, 6),
                version == be_u16(b, off),
                version == 0 || version == 1,
                records_offset == table_offset + 6,
                records_offset + name_count * 12 <= bytes@.len() <= usize::MAX,
                storage_offset == offset_sum_spec(table_offset, storage_relative),
                storage_relative == be_u16(b, off + 4),
                first_failure(i as int, name_failures).is_none(),
                name_records@.len() == i,
                forall|j: int|
                    0 <= j < i ==> (#[trigger] name_records@[j]).decodes(
                        b,
                        off + 6 + 12 * j,
                        Self::storage(b, off),
                    ),
            decreases name_count - i,
        {
            let record_offset: usize = records_offset + i * 12;
            let parsed = match storage_offset {
                Some(storage) => NameRecord::try_parse(bytes, record_offset, storage),
                None => {
                    let length: usize = read_u16(bytes, record_offset + 8, src)? as usize;
                    Err(unreachable_text(length, ImtErrorSource::NameRecord))
                },
            };
            match parsed {
                Ok(record) => {
                    name_records.push(record);
                },
                Err(e) => {
                    proof {
                        lemma_first_failure_stays(i + 1, name_count as int, name_failures);
                    }
                    return Err(e);
                },
            }
            i += 1;
        }
        let mut lang_tag_records: Vec<LangTagRecord> = Vec::new();
        if version == 1 {
            let count_offset: usize = records_offset + name_count * 12;
            if !in_bounds(bytes.len(), count_offset, 2) {
                return Err(truncated_in(src));
            }
            let lang_tag_count: usize = read_u16(bytes, count_offset, src)? as usize;
            let tags_offset: usize = count_offset + 2;
            if !in_bounds(bytes.len(), tags_offset, lang_tag_count * 4) {
                return Err(truncated_in(src));
            }
            let ghost tag_failures = Self::lang_tag_failures(b, off);
            let mut i: usize = 0;
            while i < lang_tag_count
                invariant
                    i <= lang_tag_count,
                    b == bytes@,
                    off == table_offset,
                    tag_failures == Self::lang_tag_failures(b, off),
                    lang_tag_count == Self::lang_tag_count(b, off),
                    fits(b, off, 6),
                    fits(b, off + 6, 12 * Self::name_count(b, off)),
                    fits(b, Self::lang_tags_at(b, off), 2),
                    first_failure(
                        Self::name_count(b, off),
                        Self::name_failures(b, off),
                    ).is_none(),
                    be_u16(b, off) == 1,
                    tags_offset == Self::lang_tags_at(b, off) + 2,
                    tags_offset + lang_tag_count * 4 <= bytes@.len() <= usize::MAX,
                    storage_offset == offset_sum_spec(table_offset, storage_relative),
                    storage_relative == be_u16(b, off + 4),
                    first_failure(i as int, tag_failures).is_none(),
                    lang_tag_records@.len() == i,
                    forall|j: int|
                        0 <= j < i ==> (#[trigger] lang_tag_records@[j]).decodes(
                            b,
                            Self::lang_tags_at(b, off) + 2 + 4 * j,
                            Self::storage(b, off),
                        ),
                decreases lang_tag_count - i,
            {
                let record_offset: usize = tags_offset + i * 4;
                let parsed = match storage_offset {
                    Some(storage) => LangTagRecord::try_parse(bytes, record_offset, storage),
                    None => {
                        let length: usize = read_u16(bytes, record_offset, src)? as usize;
                        Err(unreachable_text(length, ImtErrorSource::NameTagRecord))
                    },
                };
                match parsed {
                    Ok(record) => {
                        lang_tag_records.push(record);
                    },
                    Err(e) => {
                        proof {
                            lemma_first_failure_stays(i + 1, lang_tag_count as int, tag_failures);
                        }
                        return Err(e);
                    },
                }
                i += 1;
            }
        }
        Ok(Self { version, name_records, lang_tag_records })
    }
}

} // verus!
