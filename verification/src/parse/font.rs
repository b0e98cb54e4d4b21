//! A font: the tables of one font file, read and checked against each
//! other.

use crate::error::{ImtError, ImtErrorKind, ImtErrorSource};
use crate::parse::avar_table::AvarTable;
use crate::parse::cmap_table::CmapTable;
use crate::parse::fvar_table::FvarTable;
use crate::parse::glyf_table::GlyfTable;
use crate::parse::gvar_table::GvarTable;
use crate::parse::head_table::HeadTable;
use crate::parse::hhea_table::HheaTable;
use crate::parse::hmtx_table::HmtxTable;
use crate::parse::hvar_table::HvarTable;
use crate::parse::loca_table::LocaTable;
use crate::parse::maxp_table::MaxpTable;
use crate::parse::name_table::NameTable;
use crate::parse::table_directory::{TableDirectory, TableRecord};
use crate::parse::table_tag;
use crate::parse::ttc_header::TTCHeader;
use crate::parse::{
    be_i16, be_u16, first_failure, lemma_first_failure_stays, truncated, truncated_in,
};
use vstd::prelude::*;
use vstd::slice::slice_subrange;

verus! {

/// A font with TrueType outlines. The tables `fvar`, `gvar`, `avar` and
/// `HVAR` are there only in a font that varies. A font is made by
/// [`Font::from_bytes`] alone, so its tables always fit together.
#[derive(Debug)]
pub struct Font {
    cmap: CmapTable,
    head: HeadTable,
    hhea: HheaTable,
    hmtx: HmtxTable,
    maxp: MaxpTable,
    name: NameTable,
    glyf: GlyfTable,
    fvar: Option<FvarTable>,
    gvar: Option<GvarTable>,
    avar: Option<AvarTable>,
    hvar: Option<HvarTable>,
}

/// The error for a table that a font must have and does not have.
pub open spec fn missing(source: ImtErrorSource) -> ImtError {
    ImtError { kind: ImtErrorKind::MissingTable, source }
}

/// Builds the error for a table that a font must have and does not have.
fn missing_in(source: ImtErrorSource) -> (e: ImtError)
    ensures
        e == missing(source),
{
    ImtError { kind: ImtErrorKind::MissingTable, source }
}

/// The error for a font collection.
pub open spec fn collection_refused() -> ImtError {
    ImtError { kind: ImtErrorKind::CollectionNotSupported, source: ImtErrorSource::FontData }
}

/// The last of the first `n` records that has the tag `tag`, if there is
/// one: of records with the same tag the last counts.
pub open spec fn last_record(records: Seq<TableRecord>, tag: u32, n: int) -> Option<TableRecord>
    decreases n,
{
    if n <= 0 {
        None
    } else if records[n - 1].table_tag == tag {
        Some(records[n - 1])
    } else {
        last_record(records, tag, n - 1)
    }
}

/// The record of the table with the tag `tag` in the directory of a font.
pub open spec fn record_of(b: Seq<u8>, tag: u32) -> Option<TableRecord> {
    last_record(TableDirectory::records(b, 0), tag, TableDirectory::records(b, 0).len() as int)
}

/// Whether the font has a table with the tag `tag`.
pub open spec fn has_table(b: Seq<u8>, tag: u32) -> bool {
    record_of(b, tag).is_some()
}

/// The bytes of the table with the tag `tag`.
pub open spec fn table_of(b: Seq<u8>, tag: u32) -> Seq<u8> {
    b.subrange(
        record_of(b, tag).unwrap().offset as int,
        record_of(b, tag).unwrap().offset + record_of(b, tag).unwrap().length,
    )
}

/// Whether the table with the tag `tag` runs past the end of the font.
pub open spec fn table_cut(b: Seq<u8>, tag: u32) -> bool {
    has_table(b, tag) && record_of(b, tag).unwrap().offset + record_of(b, tag).unwrap().length
        > b.len()
}

/// What can fail before a table is read: a table that must be there is
/// missing, or the table runs past the end of the font.
pub open spec fn locate_failure(
    b: Seq<u8>,
    tag: u32,
    source: ImtErrorSource,
    required: bool,
) -> Option<ImtError> {
    if !has_table(b, tag) {
        if required {
            Some(missing(source))
        } else {
            None
        }
    } else if table_cut(b, tag) {
        Some(truncated(source))
    } else {
        None
    }
}

/// The failure of a table: what fails before it is read, else what fails
/// when it is read, if it is there.
pub open spec fn table_failure(
    b: Seq<u8>,
    tag: u32,
    source: ImtErrorSource,
    required: bool,
    parse: Option<ImtError>,
) -> Option<ImtError> {
    if locate_failure(b, tag, source, required).is_some() {
        locate_failure(b, tag, source, required)
    } else if has_table(b, tag) {
        parse
    } else {
        None
    }
}

/// Finds the record of the table with the tag `tag`.
fn find_record(directory: &TableDirectory, tag: u32) -> (r: Option<TableRecord>)
    ensures
        r == last_record(directory.table_records@, tag, directory.table_records@.len() as int),
{
    let mut found: Option<TableRecord> = None;
    let mut i: usize = 0;
    while i < directory.table_records.len()
        invariant
            i <= directory.table_records@.len(),
            found == last_record(directory.table_records@, tag, i as int),
        decreases directory.table_records@.len() - i,
    {
        if directory.table_records[i].table_tag == tag {
            found = Some(directory.table_records[i]);
        }
        i += 1;
    }
    found
}

/// Finds the bytes of the table with the tag `tag`, if the font has it.
fn table_slice<'a>(
    bytes: &'a [u8],
    directory: &TableDirectory,
    tag: u32,
    source: ImtErrorSource,
    required: bool,
) -> (r: Result<Option<&'a [u8]>, ImtError>)
    requires
        directory.table_records@ == TableDirectory::records(bytes@, 0),
    ensures
        match r {
            Ok(Some(table)) => {
                &&& locate_failure(bytes@, tag, source, required).is_none()
                &&& has_table(bytes@, tag)
                &&& table@ == table_of(bytes@, tag)
            },
            Ok(None) => locate_failure(bytes@, tag, source, required).is_none() && !has_table(
                bytes@,
                tag,
            ),
            Err(e) => locate_failure(bytes@, tag, source, required) == Some(e),
        },
{
    let len: usize = bytes.len();
    match find_record(directory, tag) {
        Some(record) => {
            let start: u64 = record.offset as u64;
            let end: u64 = start + record.length as u64;
            if end > len as u64 {
                return Err(truncated_in(source));
            }
            Ok(Some(slice_subrange(bytes, start as usize, end as usize)))
        },
        None => {
            if required {
                Err(missing_in(source))
            } else {
                Ok(None)
            }
        },
    }
}

impl Font {
    /// The number of glyphs that the `maxp` table of a font gives.
    pub open spec fn num_glyphs(b: Seq<u8>) -> int {
        be_u16(table_of(b, table_tag::MAXP), 4) as int
    }

    /// The number of full metrics that the `hhea` table of a font gives.
    pub open spec fn num_h_metrics(b: Seq<u8>) -> int {
        be_u16(table_of(b, table_tag::HHEA), 34) as int
    }

    /// The format of the `loca` table that the `head` table of a font gives.
    pub open spec fn loca_format(b: Seq<u8>) -> int {
        be_i16(table_of(b, table_tag::HEAD), 50) as int
    }

    /// The offsets of the glyphs that the `loca` table of a font gives.
    pub open spec fn loca_offsets(b: Seq<u8>) -> Seq<u32> {
        LocaTable::decoded_offsets(
            table_of(b, table_tag::LOCA),
            0,
            Self::loca_format(b),
            Self::num_glyphs(b),
        )
    }

    /// The number of points of each glyph of the font that has an outline.
    pub open spec fn point_counts(b: Seq<u8>) -> Map<u16, int> {
        GlyfTable::decoded_point_counts(table_of(b, table_tag::GLYF), 0, Self::loca_offsets(b))
    }

    /// What fails when table number `step` is read, if anything. The tables
    /// are read in this order: the directory, `cmap`, `head`, `hhea`,
    /// `maxp`, `name`, `hmtx`, `loca`, `glyf`, `fvar`, `gvar`, `avar`,
    /// `HVAR`. The last four need not be there.
    #[verifier::opaque]
    pub open spec fn step_failure(b: Seq<u8>, step: int) -> Option<ImtError> {
        if step == 0 {
            TableDirectory::failure(b, 0)
        } else if step == 1 {
            table_failure(
                b,
                table_tag::CMAP,
                ImtErrorSource::CmapTable,
                true,
                CmapTable::failure(table_of(b, table_tag::CMAP), 0),
            )
        } else if step == 2 {
            table_failure(
                b,
                table_tag::HEAD,
                ImtErrorSource::HeadTable,
                true,
                HeadTable::failure(table_of(b, table_tag::HEAD), 0),
            )
        } else if step == 3 {
            table_failure(
                b,
                table_tag::HHEA,
                ImtErrorSource::HheaTable,
                true,
                match HheaTable::parse_spec(table_of(b, table_tag::HHEA), 0) {
                    Ok(_) => None,
                    Err(e) => Some(e),
                },
            )
        } else if step == 4 {
            table_failure(
                b,
                table_tag::MAXP,
                ImtErrorSource::MaxpTable,
                true,
                match MaxpTable::parse_spec(table_of(b, table_tag::MAXP), 0) {
                    Ok(_) => None,
                    Err(e) => Some(e),
                },
            )
        } else if step == 5 {
            table_failure(
                b,
                table_tag::NAME,
                ImtErrorSource::NameTable,
                true,
                NameTable::failure(table_of(b, table_tag::NAME), 0),
            )
        } else if step == 6 {
            table_failure(
                b,
                table_tag::HMTX,
                ImtErrorSource::HmtxTable,
                true,
                HmtxTable::failure(
                    table_of(b, table_tag::HMTX),
                    0,
                    Self::num_glyphs(b),
                    Self::num_h_metrics(b),
                ),
            )
        } else if step == 7 {
            table_failure(
                b,
                table_tag::LOCA,
                ImtErrorSource::LocaTable,
                true,
                LocaTable::failure(
                    table_of(b, table_tag::LOCA),
                    0,
                    Self::loca_format(b),
                    Self::num_glyphs(b),
                ),
            )
        } else if step == 8 {
            table_failure(
                b,
                table_tag::GLYF,
                ImtErrorSource::GlyfTable,
                true,
                GlyfTable::failure(table_of(b, table_tag::GLYF), 0, Self::loca_offsets(b)),
            )
        } else if step == 9 {
            table_failure(
                b,
                table_tag::FVAR,
                ImtErrorSource::FvarTable,
                false,
                FvarTable::failure(table_of(b, table_tag::FVAR), 0),
            )
        } else if step == 10 {
            table_failure(
                b,
                table_tag::GVAR,
                ImtErrorSource::GvarTable,
                false,
                GvarTable::failure(table_of(b, table_tag::GVAR), 0, Self::point_counts(b)),
            )
        } else if step == 11 {
            table_failure(
                b,
                table_tag::AVAR,
                ImtErrorSource::AvarTable,
                false,
                AvarTable::failure(table_of(b, table_tag::AVAR), 0),
            )
        } else {
            table_failure(
                b,
                table_tag::HVAR,
                ImtErrorSource::HvarTable,
                false,
                HvarTable::failure(table_of(b, table_tag::HVAR), 0),
            )
        }
    }

    /// The failure of each table, by its number.
    pub open spec fn step_failures(b: Seq<u8>) -> spec_fn(int) -> Option<ImtError> {
        |step: int| Self::step_failure(b, step)
    }

    /// The first check that fails when a font is read, if any: the font is
    /// a collection, or a table fails, and then the first that does.
    pub open spec fn failure(b: Seq<u8>) -> Option<ImtError> {
        if TTCHeader::has_tag(b) {
            Some(collection_refused())
        } else {
            first_failure(13, Self::step_failures(b))
        }
    }

    /// The `cmap` table.
    pub closed spec fn spec_cmap_table(&self) -> CmapTable {
        self.cmap
    }

    /// The `head` table.
    pub closed spec fn spec_head_table(&self) -> HeadTable {
        self.head
    }

    /// The `hhea` table.
    pub closed spec fn spec_hhea_table(&self) -> HheaTable {
        self.hhea
    }

    /// The `hmtx` table.
    pub closed spec fn spec_hmtx_table(&self) -> HmtxTable {
        self.hmtx
    }

    /// The `maxp` table.
    pub closed spec fn spec_maxp_table(&self) -> MaxpTable {
        self.maxp
    }

    /// The `name` table.
    pub closed spec fn spec_name_table(&self) -> NameTable {
        self.name
    }

    /// The `glyf` table.
    pub closed spec fn spec_glyf_table(&self) -> GlyfTable {
        self.glyf
    }

    /// The `fvar` table, if the font has one.
    pub closed spec fn spec_fvar_table(&self) -> Option<FvarTable> {
        self.fvar
    }

    /// The `gvar` table, if the font has one.
    pub closed spec fn spec_gvar_table(&self) -> Option<GvarTable> {
        self.gvar
    }

    /// The `avar` table, if the font has one.
    pub closed spec fn spec_avar_table(&self) -> Option<AvarTable> {
        self.avar
    }

    /// The `HVAR` table, if the font has one.
    pub closed spec fn spec_hvar_table(&self) -> Option<HvarTable> {
        self.hvar
    }

    /// Whether every table of the font holds what the bytes spell for it,
    /// and an optional table is there exactly when the bytes hold it.
    pub open spec fn decodes(&self, b: Seq<u8>) -> bool {
        &&& self.spec_cmap_table().decodes(table_of(b, table_tag::CMAP), 0)
        &&& self.spec_head_table().decodes(table_of(b, table_tag::HEAD), 0)
        &&& self.spec_hhea_table() == HheaTable::decode(table_of(b, table_tag::HHEA), 0)
        &&& Ok::<MaxpTable, ImtError>(self.spec_maxp_table()) == MaxpTable::parse_spec(
            table_of(b, table_tag::MAXP),
            0,
        )
        &&& self.spec_name_table().decodes(table_of(b, table_tag::NAME), 0)
        &&& self.spec_hmtx_table().hor_metric@ == HmtxTable::metrics(
            table_of(b, table_tag::HMTX),
            0,
            Self::num_h_metrics(b),
        )
        &&& self.spec_hmtx_table().left_side_bearings@ == HmtxTable::bearings(
            table_of(b, table_tag::HMTX),
            0,
            Self::num_glyphs(b),
            Self::num_h_metrics(b),
        )
        &&& self.spec_glyf_table().decodes(table_of(b, table_tag::GLYF), 0, Self::loca_offsets(b))
        &&& match self.spec_fvar_table() {
            Some(fvar) => has_table(b, table_tag::FVAR) && fvar.decodes(
                table_of(b, table_tag::FVAR),
                0,
            ),
            None => !has_table(b, table_tag::FVAR),
        }
        &&& match self.spec_gvar_table() {
            Some(gvar) => has_table(b, table_tag::GVAR) && gvar.decodes(
                table_of(b, table_tag::GVAR),
                0,
                Self::point_counts(b),
            ),
            None => !has_table(b, table_tag::GVAR),
        }
        &&& match self.spec_avar_table() {
            Some(avar) => has_table(b, table_tag::AVAR) && avar.decodes(
                table_of(b, table_tag::AVAR),
                0,
            ),
            None => !has_table(b, table_tag::AVAR),
        }
        &&& match self.spec_hvar_table() {
            Some(hvar) => has_table(b, table_tag::HVAR) && hvar.decodes(
                table_of(b, table_tag::HVAR),
                0,
            ),
            None => !has_table(b, table_tag::HVAR),
        }
    }

    /// What holds of every font: its tables fit together. The outlines are
    /// ones that a font can hold, the `gvar` table fits the outlines, the
    /// breakpoints of the `avar` table form maps, and the parts of the store
    /// of the `HVAR` table fit each other.
    #[verifier::type_invariant]
    pub open spec fn wf(&self) -> bool {
        &&& self.spec_glyf_table().wf()
        &&& match self.spec_gvar_table() {
            Some(gvar) => gvar.wf(self.spec_glyf_table().point_counts()),
            None => true,
        }
        &&& match self.spec_avar_table() {
            Some(avar) => avar.wf(),
            None => true,
        }
        &&& match self.spec_hvar_table() {
            Some(hvar) => hvar.item_variation_store.wf(),
            None => true,
        }
    }

    /// Reads a font from the bytes of a font file. Font collections are
    /// refused.
    pub fn from_bytes(bytes: &[u8]) -> (r: Result<Self, ImtError>)
        ensures
            match r {
                Ok(font) => Self::failure(bytes@).is_none() && font.decodes(bytes@) && font.wf(),
                Err(e) => Self::failure(bytes@) == Some(e),
            },
    {
        let ghost b = bytes@;
        match TTCHeader::try_parse(bytes) {
            Ok(_) => {
                return Err(
                    ImtError {
                        kind: ImtErrorKind::CollectionNotSupported,
                        source: ImtErrorSource::FontData,
                    },
                );
            },
            Err(e) => {
                match e.kind {
                    ImtErrorKind::UnexpectedTag => {},
                    _ => {
                        return Err(
                            ImtError {
                                kind: ImtErrorKind::CollectionNotSupported,
                                source: ImtErrorSource::FontData,
                            },
                        );
                    },
                }
            },
        }
        let ghost failures = Self::step_failures(b);
        assert(first_failure(0, failures).is_none());
        assert(Self::step_failure(b, 0) == TableDirectory::failure(b, 0)) by {
            reveal(Font::step_failure);
        }
        let directory = match TableDirectory::try_parse(bytes, 0) {
            Ok(directory) => directory,
            Err(e) => {
                proof {
                    lemma_first_failure_stays(1, 13, failures);
                }
                return Err(e);
            },
        };
        let cmap = match Self::read_cmap(bytes, &directory) {
            Ok(table) => table,
            Err(e) => {
                proof {
                    lemma_first_failure_stays(2, 13, failures);
                }
                return Err(e);
            },
        };
        let head = match Self::read_head(bytes, &directory) {
            Ok(table) => table,
            Err(e) => {
                proof {
                    lemma_first_failure_stays(3, 13, failures);
                }
                return Err(e);
            },
        };
        let hhea = match Self::read_hhea(bytes, &directory) {
            Ok(table) => table,
            Err(e) => {
                proof {
                    lemma_first_failure_stays(4, 13, failures);
                }
                return Err(e);
            },
        };
        let maxp = match Self::read_maxp(bytes, &directory) {
            Ok(table) => table,
            Err(e) => {
                proof {
                    lemma_first_failure_stays(5, 13, failures);
                }
                return Err(e);
            },
        };
        let name = match Self::read_name(bytes, &directory) {
            Ok(table) => table,
            Err(e) => {
                proof {
                    lemma_first_failure_stays(6, 13, failures);
                }
                return Err(e);
            },
        };
        let hmtx = match Self::read_hmtx(bytes, &directory, &maxp, &hhea) {
            Ok(table) => table,
            Err(e) => {
                proof {
                    lemma_first_failure_stays(7, 13, failures);
                }
                return Err(e);
            },
        };
        let loca = match Self::read_loca(bytes, &directory, &head, &maxp) {
            Ok(table) => table,
            Err(e) => {
                proof {
                    lemma_first_failure_stays(8, 13, failures);
                }
                return Err(e);
            },
        };
        let glyf = match Self::read_glyf(bytes, &directory, &loca) {
            Ok(table) => table,
            Err(e) => {
                proof {
                    lemma_first_failure_stays(9, 13, failures);
                }
                return Err(e);
            },
        };
        proof {
            glyf.lemma_point_counts(table_of(b, table_tag::GLYF), 0, Self::loca_offsets(b));
        }
        let fvar = match Self::read_fvar(bytes, &directory) {
            Ok(table) => table,
            Err(e) => {
                proof {
                    lemma_first_failure_stays(10, 13, failures);
                }
                return Err(e);
            },
        };
        let gvar = match Self::read_gvar(bytes, &directory, &glyf) {
            Ok(table) => table,
            Err(e) => {
                proof {
                    lemma_first_failure_stays(11, 13, failures);
                }
                return Err(e);
            },
        };
        let avar = match Self::read_avar(bytes, &directory) {
            Ok(table) => table,
            Err(e) => {
                proof {
                    lemma_first_failure_stays(12, 13, failures);
                }
                return Err(e);
            },
        };
        let hvar = match Self::read_hvar(bytes, &directory) {
            Ok(table) => table,
            Err(e) => {
                proof {
                    lemma_first_failure_stays(13, 13, failures);
                }
                return Err(e);
            },
        };
        Ok(Self { cmap, head, hhea, hmtx, maxp, name, glyf, fvar, gvar, avar, hvar })
    }

    /// Reads the `cmap` table.
    fn read_cmap(bytes: &[u8], directory: &TableDirectory) -> (r: Result<CmapTable, ImtError>)
        requires
            directory.table_records@ == TableDirectory::records(bytes@, 0),
        ensures
            match r {
                Ok(t) => Self::step_failure(bytes@, 1).is_none() && t.decodes(
                    table_of(bytes@, table_tag::CMAP),
                    0,
                ),
                Err(e) => Self::step_failure(bytes@, 1) == Some(e),
            },
    {
        proof {
            reveal(Font::step_failure);
        }
        match table_slice(bytes, directory, table_tag::CMAP, ImtErrorSource::CmapTable, true)? {
            Some(table) => CmapTable::try_parse(table, 0),
            None => Err(missing_in(ImtErrorSource::CmapTable)),
        }
    }

    /// Reads the `head` table.
    fn read_head(bytes: &[u8], directory: &TableDirectory) -> (r: Result<HeadTable, ImtError>)
        requires
            directory.table_records@ == TableDirectory::records(bytes@, 0),
        ensures
            match r {
                Ok(t) => Self::step_failure(bytes@, 2).is_none() && t.decodes(
                    table_of(bytes@, table_tag::HEAD),
                    0,
                ),
                Err(e) => Self::step_failure(bytes@, 2) == Some(e),
            },
    {
        proof {
            reveal(Font::step_failure);
        }
        match table_slice(bytes, directory, table_tag::HEAD, ImtErrorSource::HeadTable, true)? {
            Some(table) => HeadTable::try_parse(table, 0),
            None => Err(missing_in(ImtErrorSource::HeadTable)),
        }
    }

    /// Reads the `hhea` table.
    fn read_hhea(bytes: &[u8], directory: &TableDirectory) -> (r: Result<HheaTable, ImtError>)
        requires
            directory.table_records@ == TableDirectory::records(bytes@, 0),
        ensures
            match r {
                Ok(t) => Self::step_failure(bytes@, 3).is_none() && t == HheaTable::decode(
                    table_of(bytes@, table_tag::HHEA),
                    0,
                ),
                Err(e) => Self::step_failure(bytes@, 3) == Some(e),
            },
    {
        proof {
            reveal(Font::step_failure);
        }
        match table_slice(bytes, directory, table_tag::HHEA, ImtErrorSource::HheaTable, true)? {
            Some(table) => HheaTable::try_parse(table, 0),
            None => Err(missing_in(ImtErrorSource::HheaTable)),
        }
    }

    /// Reads the `maxp` table.
    fn read_maxp(bytes: &[u8], directory: &TableDirectory) -> (r: Result<MaxpTable, ImtError>)
        requires
            directory.table_records@ == TableDirectory::records(bytes@, 0),
        ensures
            match r {
                Ok(t) => Self::step_failure(bytes@, 4).is_none() && Ok::<MaxpTable, ImtError>(t)
                    == MaxpTable::parse_spec(table_of(bytes@, table_tag::MAXP), 0),
                Err(e) => Self::step_failure(bytes@, 4) == Some(e),
            },
    {
        proof {
            reveal(Font::step_failure);
        }
        match table_slice(bytes, directory, table_tag::MAXP, ImtErrorSource::MaxpTable, true)? {
            Some(table) => MaxpTable::try_parse(table, 0),
            None => Err(missing_in(ImtErrorSource::MaxpTable)),
        }
    }

    /// Reads the `name` table.
    fn read_name(bytes: &[u8], directory: &TableDirectory) -> (r: Result<NameTable, ImtError>)
        requires
            directory.table_records@ == TableDirectory::records(bytes@, 0),
        ensures
            match r {
                Ok(t) => Self::step_failure(bytes@, 5).is_none() && t.decodes(
                    table_of(bytes@, table_tag::NAME),
                    0,
                ),
                Err(e) => Self::step_failure(bytes@, 5) == Some(e),
            },
    {
        proof {
            reveal(Font::step_failure);
        }
        match table_slice(bytes, directory, table_tag::NAME, ImtErrorSource::NameTable, true)? {
            Some(table) => NameTable::try_parse(table, 0),
            None => Err(missing_in(ImtErrorSource::NameTable)),
        }
    }

    /// Reads the `hmtx` table.
    fn read_hmtx(
        bytes: &[u8],
        directory: &TableDirectory,
        maxp: &MaxpTable,
        hhea: &HheaTable,
    ) -> (r: Result<HmtxTable, ImtError>)
        requires
            directory.table_records@ == TableDirectory::records(bytes@, 0),
            maxp.num_glyphs == Self::num_glyphs(bytes@),
            hhea.number_of_h_metrics == Self::num_h_metrics(bytes@),
        ensures
            match r {
                Ok(t) => {
                    &&& Self::step_failure(bytes@, 6).is_none()
                    &&& t.hor_metric@ == HmtxTable::metrics(
                        table_of(bytes@, table_tag::HMTX),
                        0,
                        Self::num_h_metrics(bytes@),
                    )
                    &&& t.left_side_bearings@ == HmtxTable::bearings(
                        table_of(bytes@, table_tag::HMTX),
                        0,
                        Self::num_glyphs(bytes@),
                        Self::num_h_metrics(bytes@),
                    )
                },
                Err(e) => Self::step_failure(bytes@, 6) == Some(e),
            },
    {
        proof {
            reveal(Font::step_failure);
        }
        match table_slice(bytes, directory, table_tag::HMTX, ImtErrorSource::HmtxTable, true)? {
            Some(table) => HmtxTable::try_parse(table, 0, maxp, hhea),
            None => Err(missing_in(ImtErrorSource::HmtxTable)),
        }
    }

    /// Reads the `loca` table.
    fn read_loca(
        bytes: &[u8],
        directory: &TableDirectory,
        head: &HeadTable,
        maxp: &MaxpTable,
    ) -> (r: Result<LocaTable, ImtError>)
        requires
            directory.table_records@ == TableDirectory::records(bytes@, 0),
            maxp.num_glyphs == Self::num_glyphs(bytes@),
            head.index_to_loc_format == Self::loca_format(bytes@),
        ensures
            match r {
                Ok(t) => Self::step_failure(bytes@, 7).is_none() && t.offsets@
                    == Self::loca_offsets(bytes@),
                Err(e) => Self::step_failure(bytes@, 7) == Some(e),
            },
    {
        proof {
            reveal(Font::step_failure);
        }
        match table_slice(bytes, directory, table_tag::LOCA, ImtErrorSource::LocaTable, true)? {
            Some(table) => LocaTable::try_parse(table, 0, head, maxp),
            None => Err(missing_in(ImtErrorSource::LocaTable)),
        }
    }

    /// Reads the `glyf` table.
    fn read_glyf(bytes: &[u8], directory: &TableDirectory, loca: &LocaTable) -> (r: Result<
        GlyfTable,
        ImtError,
    >)
        requires
            directory.table_records@ == TableDirectory::records(bytes@, 0),
            loca.offsets@ == Self::loca_offsets(bytes@),
        ensures
            match r {
                Ok(t) => {
                    &&& Self::step_failure(bytes@, 8).is_none()
                    &&& t.decodes(
                        table_of(bytes@, table_tag::GLYF),
                        0,
                        Self::loca_offsets(bytes@),
                    )
                    &&& t.wf()
                },
                Err(e) => Self::step_failure(bytes@, 8) == Some(e),
            },
    {
        proof {
            reveal(Font::step_failure);
        }
        match table_slice(bytes, directory, table_tag::GLYF, ImtErrorSource::GlyfTable, true)? {
            Some(table) => GlyfTable::try_parse(table, 0, loca),
            None => Err(missing_in(ImtErrorSource::GlyfTable)),
        }
    }

    /// Reads the `fvar` table, if the font has one.
    fn read_fvar(bytes: &[u8], directory: &TableDirectory) -> (r: Result<
        Option<FvarTable>,
        ImtError,
    >)
        requires
            directory.table_records@ == TableDirectory::records(bytes@, 0),
        ensures
            match r {
                Ok(Some(t)) => Self::step_failure(bytes@, 9).is_none() && has_table(
                    bytes@,
                    table_tag::FVAR,
                ) && t.decodes(table_of(bytes@, table_tag::FVAR), 0),
                Ok(None) => Self::step_failure(bytes@, 9).is_none() && !has_table(
                    bytes@,
                    table_tag::FVAR,
                ),
                Err(e) => Self::step_failure(bytes@, 9) == Some(e),
            },
    {
        proof {
            reveal(Font::step_failure);
        }
        match table_slice(bytes, directory, table_tag::FVAR, ImtErrorSource::FvarTable, false)? {
            Some(table) => Ok(Some(FvarTable::try_parse(table, 0)?)),
            None => Ok(None),
        }
    }

    /// Reads the `gvar` table, if the font has one.
    fn read_gvar(bytes: &[u8], directory: &TableDirectory, glyf: &GlyfTable) -> (r: Result<
        Option<GvarTable>,
        ImtError,
    >)
        requires
            directory.table_records@ == TableDirectory::records(bytes@, 0),
            glyf.point_counts() == Self::point_counts(bytes@),
        ensures
            match r {
                Ok(Some(t)) => {
                    &&& Self::step_failure(bytes@, 10).is_none()
                    &&& has_table(bytes@, table_tag::GVAR)
                    &&& t.decodes(
                        table_of(bytes@, table_tag::GVAR),
                        0,
                        Self::point_counts(bytes@),
                    )
                    &&& t.wf(glyf.point_counts())
                },
                Ok(None) => Self::step_failure(bytes@, 10).is_none() && !has_table(
                    bytes@,
                    table_tag::GVAR,
                ),
                Err(e) => Self::step_failure(bytes@, 10) == Some(e),
            },
    {
        proof {
            reveal(Font::step_failure);
        }
        match table_slice(bytes, directory, table_tag::GVAR, ImtErrorSource::GvarTable, false)? {
            Some(table) => Ok(Some(GvarTable::try_parse(table, 0, glyf)?)),
            None => Ok(None),
        }
    }

    /// Reads the `avar` table, if the font has one.
    fn read_avar(bytes: &[u8], directory: &TableDirectory) -> (r: Result<
        Option<AvarTable>,
        ImtError,
    >)
        requires
            directory.table_records@ == TableDirectory::records(bytes@, 0),
        ensures
            match r {
                Ok(Some(t)) => {
                    &&& Self::step_failure(bytes@, 11).is_none()
                    &&& has_table(bytes@, table_tag::AVAR)
                    &&& t.decodes(table_of(bytes@, table_tag::AVAR), 0)
                    &&& t.wf()
                },
                Ok(None) => Self::step_failure(bytes@, 11).is_none() && !has_table(
                    bytes@,
                    table_tag::AVAR,
                ),
                Err(e) => Self::step_failure(bytes@, 11) == Some(e),
            },
    {
        proof {
            reveal(Font::step_failure);
        }
        match table_slice(bytes, directory, table_tag::AVAR, ImtErrorSource::AvarTable, false)? {
            Some(table) => Ok(Some(AvarTable::try_parse(table, 0)?)),
            None => Ok(None),
        }
    }

    /// Reads the `HVAR` table, if the font has one.
    fn read_hvar(bytes: &[u8], directory: &TableDirectory) -> (r: Result<
        Option<HvarTable>,
        ImtError,
    >)
        requires
            directory.table_records@ == TableDirectory::records(bytes@, 0),
        ensures
            match r {
                Ok(Some(t)) => {
                    &&& Self::step_failure(bytes@, 12).is_none()
                    &&& has_table(bytes@, table_tag::HVAR)
                    &&& t.decodes(table_of(bytes@, table_tag::HVAR), 0)
                    &&& t.item_variation_store.wf()
                },
                Ok(None) => Self::step_failure(bytes@, 12).is_none() && !has_table(
                    bytes@,
                    table_tag::HVAR,
                ),
                Err(e) => Self::step_failure(bytes@, 12) == Some(e),
            },
    {
        proof {
            reveal(Font::step_failure);
        }
        match table_slice(bytes, directory, table_tag::HVAR, ImtErrorSource::HvarTable, false)? {
            Some(table) => Ok(Some(HvarTable::try_parse(table, 0)?)),
            None => Ok(None),
        }
    }

    /// The `cmap` table.
    pub fn cmap_table(&self) -> (r: &CmapTable)
        ensures
            *r == self.spec_cmap_table(),
    {
        &self.cmap
    }

    /// The `head` table.
    pub fn head_table(&self) -> (r: &HeadTable)
        ensures
            *r == self.spec_head_table(),
    {
        &self.head
    }

    /// The `hhea` table.
    pub fn hhea_table(&self) -> (r: &HheaTable)
        ensures
            *r == self.spec_hhea_table(),
    {
        &self.hhea
    }

    /// The `hmtx` table.
    pub fn hmtx_table(&self) -> (r: &HmtxTable)
        ensures
            *r == self.spec_hmtx_table(),
    {
        &self.hmtx
    }

    /// The `maxp` table.
    pub fn maxp_table(&self) -> (r: &MaxpTable)
        ensures
            *r == self.spec_maxp_table(),
    {
        &self.maxp
    }

    /// The `name` table.
    pub fn name_table(&self) -> (r: &NameTable)
        ensures
            *r == self.spec_name_table(),
    {
        &self.name
    }

    /// The `glyf` table.
    pub fn glyf_table(&self) -> (r: &GlyfTable)
        ensures
            *r == self.spec_glyf_table(),
    {
        &self.glyf
    }

    /// The `fvar` table, if the font has one.
    pub fn fvar_table(&self) -> (r: Option<&FvarTable>)
        ensures
            match r {
                Some(table) => self.spec_fvar_table() == Some(*table),
                None => self.spec_fvar_table().is_none(),
            },
    {
        self.fvar.as_ref()
    }

    /// The `gvar` table, if the font has one.
    pub fn gvar_table(&self) -> (r: Option<&GvarTable>)
        ensures
            match r {
                Some(table) => self.spec_gvar_table() == Some(*table),
                None => self.spec_gvar_table().is_none(),
            },
    {
        self.gvar.as_ref()
    }

    /// The `avar` table, if the font has one.
    pub fn avar_table(&self) -> (r: Option<&AvarTable>)
        ensures
            match r {
                Some(table) => self.spec_avar_table() == Some(*table),
                None => self.spec_avar_table().is_none(),
            },
    {
        self.avar.as_ref()
    }

    /// The `HVAR` table, if the font has one.
    pub fn hvar_table(&self) -> (r: Option<&HvarTable>)
        ensures
            match r {
                Some(table) => self.spec_hvar_table() == Some(*table),
                None => self.spec_hvar_table().is_none(),
            },
    {
        self.hvar.as_ref()
    }
}

} // verus!
