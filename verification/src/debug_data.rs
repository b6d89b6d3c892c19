//! The debug sections of an image as plain bytes, and the tables that are read
//! from them.

use gimli::AttributeValue::{DebugAddrIndex, DebugStrOffsetsIndex};
use gimli::RunTimeEndian::{Big, Little};
use gimli::{
    AttributeValue, DebugAbbrev, DebugAranges, DebugInfo, DebugInfoOffset, DwAt, Dwarf, EndianSlice,
    LineInstruction, Unit, UnitOffset,
};
use vstd::prelude::*;
use crate::dwarf::{ArangeEntry, LineRow, PcValue};
use crate::text::same_text;

verus! {

/// The contents of a section, uncompressed: borrowed from the bytes of the
/// image, or held in a buffer of their own where the image stores them
/// compressed.
pub enum SectionData<'a> {
    Borrowed(&'a [u8]),
    Owned(Vec<u8>),
}

impl<'a> View for SectionData<'a> {
    type V = Seq<u8>;

    open spec fn view(&self) -> Seq<u8> {
        match self {
            SectionData::Borrowed(bytes) => bytes@,
            SectionData::Owned(bytes) => bytes@,
        }
    }
}

impl<'a> SectionData<'a> {
    /// The contents, wherever they are held.
    pub fn bytes(&self) -> (r: &[u8])
        ensures
            r@ == self@,
    {
        match self {
            SectionData::Borrowed(bytes) => bytes,
            SectionData::Owned(bytes) => bytes.as_slice(),
        }
    }
}

/// One section of an image: its name and its contents.
pub struct Section<'a> {
    pub name: String,
    pub data: SectionData<'a>,
}

/// The debug sections of one image.
pub struct DebugSections<'a> {
    pub little_endian: bool,
    pub sections: Vec<Section<'a>>,
}

/// The debug sections as plain values: each section a name and its bytes.
pub struct DebugSectionsView {
    pub little_endian: bool,
    pub sections: Seq<(Seq<char>, Seq<u8>)>,
}

impl<'a> View for DebugSections<'a> {
    type V = DebugSectionsView;

    open spec fn view(&self) -> DebugSectionsView {
        DebugSectionsView {
            little_endian: self.little_endian,
            sections: Seq::new(
                self.sections@.len(),
                |i: int| (self.sections@[i].name@, self.sections@[i].data@),
            ),
        }
    }
}

/// The contents of the first section called `name` among `sections` from
/// position `from` on; empty where there is none.
pub open spec fn section_data_from(sections: Seq<(Seq<char>, Seq<u8>)>, name: Seq<char>, from: int) -> Seq<u8>
    decreases sections.len() - from,
{
    if from < 0 || from >= sections.len() {
        Seq::empty()
    } else if sections[from].0 == name {
        sections[from].1
    } else {
        section_data_from(sections, name, from + 1)
    }
}

impl<'a> DebugSections<'a> {
    /// The contents of the section called `name`; empty where the image has none.
    pub fn section(&self, name: &str) -> (r: &[u8])
        ensures
            r@ == section_data_from(self@.sections, name@, 0),
    {
        let mut i: usize = 0;
        while i < self.sections.len()
            invariant
                i <= self.sections.len(),
                section_data_from(self@.sections, name@, i as int) == section_data_from(
                    self@.sections,
                    name@,
                    0,
                ),
            decreases self.sections.len() - i,
        {
            if same_text(self.sections[i].name.as_str(), name) {
                return self.sections[i].data.bytes();
            }
            i += 1;
        }
        &[]
    }
}

/// The contents of the address-range section.
pub open spec fn aranges_section(sections: DebugSectionsView) -> Seq<u8> {
    section_data_from(sections.sections, ".debug_aranges"@, 0)
}

/// The contents of the section of unit data.
pub open spec fn info_section(sections: DebugSectionsView) -> Seq<u8> {
    section_data_from(sections.sections, ".debug_info"@, 0)
}

/// The contents of the section of abbreviations.
pub open spec fn abbrev_section(sections: DebugSectionsView) -> Seq<u8> {
    section_data_from(sections.sections, ".debug_abbrev"@, 0)
}

/// What gimli reads from the bytes of an address-range section: the entries
/// of all its headers, in order, up to the first that it cannot read.
pub uninterp spec fn arange_table(section: Seq<u8>, little_endian: bool) -> Seq<ArangeEntry>;

/// The number of zero bytes in a row from which on an address-range section
/// is not read.
pub const LONG_ZERO_RUN: usize = 4096;

/// At `p` the bytes hold `LONG_ZERO_RUN` zero bytes in a row.
pub open spec fn zero_run_at(bytes: Seq<u8>, p: int) -> bool {
    &&& 0 <= p
    &&& p + LONG_ZERO_RUN <= bytes.len()
    &&& forall|k: int| 0 <= k < LONG_ZERO_RUN ==> #[trigger] bytes[p + k] == 0
}

/// The bytes hold no long run of zero bytes.
pub open spec fn zero_runs_short(bytes: Seq<u8>) -> bool {
    forall|p: int| !zero_run_at(bytes, p)
}

/// Tests whether the bytes hold no long run of zero bytes.
pub fn has_short_zero_runs(bytes: &[u8]) -> (r: bool)
    ensures
        r == zero_runs_short(bytes@),
{
    let mut run: usize = 0;
    let mut i: usize = 0;
    while i < bytes.len()
        invariant
            i <= bytes.len(),
            run <= i,
            run < LONG_ZERO_RUN,
            forall|j: int| i - run <= j < i ==> bytes@[j] == 0,
            run < i ==> bytes@[i - run - 1] != 0,
            forall|p: int| p + LONG_ZERO_RUN <= i ==> !zero_run_at(bytes@, p),
        decreases bytes.len() - i,
    {
        if bytes[i] == 0 {
            run += 1;
            if run == LONG_ZERO_RUN {
                assert(zero_run_at(bytes@, i + 1 - LONG_ZERO_RUN)) by {
                    assert forall|k: int| 0 <= k < LONG_ZERO_RUN implies #[trigger] bytes@[i + 1
                        - LONG_ZERO_RUN + k] == 0 by {}
                }
                return false;
            }
            assert forall|p: int| p + LONG_ZERO_RUN <= i + 1 implies !zero_run_at(bytes@, p) by {
                if p + LONG_ZERO_RUN == i + 1 && p >= 0 {
                    let at = i + 1 - run - 1;
                    assert(bytes@[p + (at - p)] != 0);
                }
            }
        } else {
            run = 0;
            assert forall|p: int| p + LONG_ZERO_RUN <= i + 1 implies !zero_run_at(bytes@, p) by {
                if p + LONG_ZERO_RUN == i + 1 && p >= 0 {
                    assert(bytes@[p + (i - p)] != 0);
                }
            }
        }
        i += 1;
    }
    true
}

/// The address-range table of the debug sections; empty where the section
/// holds a long run of zero bytes.
pub open spec fn aranges_of(sections: DebugSectionsView) -> Seq<ArangeEntry> {
    if zero_runs_short(aranges_section(sections)) {
        arange_table(aranges_section(sections), sections.little_endian)
    } else {
        Seq::empty()
    }
}

/// Reads the address-range table of the debug sections.
pub fn load_aranges(sections: &DebugSections<'_>) -> (r: Vec<ArangeEntry>)
    ensures
        r@ == aranges_of(sections@),
{
    let section = sections.section(".debug_aranges");
    if has_short_zero_runs(section) {
        read_aranges(section, sections.little_endian)
    } else {
        Vec::new()
    }
}

/// Calls `gimli::DebugAranges::headers`, `ArangeHeader::entries` and the `next`
/// of both iterators, and hands out each entry with the unit offset of its
/// header. The walk ends at the end of the section or at the first error.
/// gimli passes over an entry of zeros by calling itself, once for each such
/// entry in a row: the `requires` leaves out the sections with a long run of
/// zero bytes, so that the calls stay few.
/// The contract is taken from the source of gimli and is not proved.
#[verifier::external_body]
pub(crate) fn read_aranges(section: &[u8], little_endian: bool) -> (r: Vec<ArangeEntry>)
    requires
        zero_runs_short(section@),
    ensures
        r@ == arange_table(section@, little_endian),
{
    let endian = if little_endian { Little } else { Big };
    let mut headers = DebugAranges::new(section, endian).headers();
    let mut out = Vec::new();
    while let Ok(Some(header)) = headers.next() {
        let mut entries = header.entries();
        loop {
            match entries.next() {
                Ok(Some(e)) => out.push(ArangeEntry { begin: e.address(), length: e.length(), unit: header.debug_info_offset().0 }),
                Ok(None) => break,
                Err(_) => return out,
            }
        }
    }
    out
}

/// The greatest index into the table of string offsets or of addresses that is
/// looked up. gimli multiplies such an index by the size of a table entry,
/// which is below 256, in 64 bits and without a test; up to this index the
/// product fits.
pub const MAX_TABLE_INDEX: u64 = 0x00ff_ffff_ffff_ffff;

/// An attribute holds no index into a table, or one that is looked up.
pub open spec fn index_fits(index: Option<u64>) -> bool {
    index matches Some(n) ==> n <= MAX_TABLE_INDEX
}

/// For each attribute of the first entry of the unit at `unit`, in order and
/// up to the first that gimli cannot read: the index that it holds, where its
/// value is an index into the table of string offsets or of addresses.
pub uninterp spec fn unit_indices(info: Seq<u8>, abbrev: Seq<u8>, little_endian: bool, unit: usize) -> Seq<
    Option<u64>,
>;

/// Calls `gimli::DebugInfo::header_from_offset`, `UnitHeader::abbreviations`
/// and `UnitHeader::entries`, steps to the first entry with
/// `EntriesCursor::next_dfs` and reads its attributes with `AttrsIter::next`
/// and `Attribute::value`. None of them looks an index up.
/// The contract only names the result and is not proved.
#[verifier::external_body]
pub(crate) fn read_unit_indices(info: &[u8], abbrev: &[u8], little_endian: bool, unit: usize) -> (r: Vec<
    Option<u64>,
>)
    ensures
        r@ == unit_indices(info@, abbrev@, little_endian, unit),
{
    let mut out = Vec::new();
    let endian = if little_endian { Little } else { Big };
    let header = DebugInfo::new(info, endian).header_from_offset(DebugInfoOffset(unit));
    let Ok((Ok(t), h)) = header.map(|h| (h.abbreviations(&DebugAbbrev::new(abbrev, endian)), h)) else { return out };
    let mut cursor = h.entries(&t);
    let Ok(Some((_, root))) = cursor.next_dfs() else { return out };
    let mut attrs = root.attrs();
    while let Ok(Some(a)) = attrs.next() {
        out.push(match a.value() {
            DebugStrOffsetsIndex(i) => Some(i.0 as u64),
            DebugAddrIndex(i) => Some(i.0 as u64),
            _ => None,
        });
    }
    out
}

/// gimli can set the unit at `unit` up without a product that leaves 64 bits:
/// no attribute of its first entry holds an index above `MAX_TABLE_INDEX`.
pub open spec fn unit_readable(sections: DebugSectionsView, unit: usize) -> bool {
    forall|i: int|
        0 <= i < unit_indices(
            info_section(sections),
            abbrev_section(sections),
            sections.little_endian,
            unit,
        ).len() ==> index_fits(
            #[trigger] unit_indices(
                info_section(sections),
                abbrev_section(sections),
                sections.little_endian,
                unit,
            )[i],
        )
}

/// Tests whether gimli can set the unit at `unit` up.
pub fn unit_is_readable(sections: &DebugSections<'_>, unit: usize) -> (r: bool)
    ensures
        r == unit_readable(sections@, unit),
{
    let indices = read_unit_indices(
        sections.section(".debug_info"),
        sections.section(".debug_abbrev"),
        sections.little_endian,
        unit,
    );
    let mut i: usize = 0;
    while i < indices.len()
        invariant
            i <= indices.len(),
            indices@ == unit_indices(
                info_section(sections@),
                abbrev_section(sections@),
                sections@.little_endian,
                unit,
            ),
            forall|k: int| 0 <= k < i ==> index_fits(#[trigger] indices@[k]),
        decreases indices.len() - i,
    {
        match indices[i] {
            Some(n) => {
                if n > MAX_TABLE_INDEX {
                    assert(!index_fits(indices@[i as int]));
                    return false;
                }
            },
            None => {},
        }
        i += 1;
    }
    true
}

/// One entry of a compilation unit: its offset in the unit and its tag.
#[derive(Clone, Copy, Debug, PartialEq, Eq, Structural)]
pub struct DebugEntry {
    pub offset: usize,
    pub tag: u16,
}

/// What gimli reads as the entries of the unit whose header stands at `unit`:
/// all of them in order, up to the first that it cannot read; none where the
/// unit itself cannot be read.
pub uninterp spec fn unit_entries(sections: DebugSectionsView, unit: usize) -> Seq<DebugEntry>;

/// Calls `gimli::Dwarf::unit` and `Unit::entries`, then `EntriesCursor::next_entry`
/// until it ends or fails, and hands out the offset and tag of each entry that
/// `EntriesCursor::current` gives.
/// `Dwarf::unit` looks up the indices that the first entry holds, and panics
/// where the product of one with the size of a table entry leaves 64 bits and
/// overflow is checked: the `requires` leaves those units out.
/// The contract is taken from the source of gimli and is not proved.
#[verifier::external_body]
pub(crate) fn read_unit_entries(sections: &DebugSections<'_>, unit: usize) -> (r: Vec<DebugEntry>)
    requires
        unit_readable(sections@, unit),
    ensures
        r@ == unit_entries(sections@, unit),
{
    let mut out = Vec::new();
    let endian = if sections.little_endian { Little } else { Big };
    let dwarf = Dwarf::load(|id| Ok::<_, gimli::Error>(EndianSlice::new(sections.section(id.name()), endian)));
    let parsed = dwarf.and_then(|d| d.unit(d.debug_info.header_from_offset(DebugInfoOffset(unit))?));
    if let Ok(u) = parsed {
        let mut cursor = u.entries();
        while let Ok(Some(_)) = cursor.next_entry() {
            if let Some(e) = cursor.current() {
                out.push(DebugEntry { offset: e.offset().0, tag: e.tag().0 });
            }
        }
    }
    out
}

/// What gimli reads as the value of the attribute `attribute` of the entry at
/// `entry` in the unit at `unit`.
pub uninterp spec fn entry_pc(sections: DebugSectionsView, unit: usize, entry: usize, attribute: u16) -> PcValue;

/// Calls `gimli::Unit::entry` and `DebuggingInformationEntry::attr_value`. An
/// address value and an unsigned constant are handed out as such; a missing
/// attribute, any other form and any error are `Absent`.
/// The `requires` leaves out the units on which `Dwarf::unit` can panic.
/// The contract is taken from the source of gimli and is not proved.
#[verifier::external_body]
pub(crate) fn read_entry_pc(sections: &DebugSections<'_>, unit: usize, entry: usize, attribute: u16) -> (r: PcValue)
    requires
        unit_readable(sections@, unit),
    ensures
        r == entry_pc(sections@, unit, entry, attribute),
{
    let endian = if sections.little_endian { Little } else { Big };
    let dwarf = Dwarf::load(|id| Ok::<_, gimli::Error>(EndianSlice::new(sections.section(id.name()), endian)));
    let parsed = dwarf.and_then(|d| d.unit(d.debug_info.header_from_offset(DebugInfoOffset(unit))?));
    let value = parsed.and_then(|u| u.entry(UnitOffset(entry))?.attr_value(DwAt(attribute)));
    match value {
        Ok(Some(AttributeValue::Addr(address))) => PcValue::Address(address),
        Ok(Some(AttributeValue::Udata(size))) => PcValue::Size(size),
        _ => PcValue::Absent,
    }
}

/// The index into the table of string offsets that the name attribute of the
/// entry at `entry` holds; `None` where the entry has no name or its name is
/// given in another form.
pub uninterp spec fn entry_name_index(sections: DebugSectionsView, unit: usize, entry: usize) -> Option<u64>;

/// Calls `gimli::Unit::entry` and `DebuggingInformationEntry::attr_value` for
/// the name attribute; the index is not looked up.
/// The `requires` leaves out the units on which `Dwarf::unit` can panic.
/// The contract only names the result and is not proved.
#[verifier::external_body]
pub(crate) fn read_entry_name_index(sections: &DebugSections<'_>, unit: usize, entry: usize) -> (r: Option<u64>)
    requires
        unit_readable(sections@, unit),
    ensures
        r == entry_name_index(sections@, unit, entry),
{
    let endian = if sections.little_endian { Little } else { Big };
    let dwarf = Dwarf::load(|id| Ok::<_, gimli::Error>(EndianSlice::new(sections.section(id.name()), endian)));
    let parsed = dwarf.and_then(|d| d.unit(d.debug_info.header_from_offset(DebugInfoOffset(unit))?));
    let value = parsed.and_then(|u| u.entry(UnitOffset(entry))?.attr_value(gimli::DW_AT_name));
    match value {
        Ok(Some(DebugStrOffsetsIndex(index))) => Some(index.0 as u64),
        _ => None,
    }
}

/// What gimli reads as the name of the entry at `entry` in the unit at `unit`:
/// `None` where the entry has no name attribute or the name cannot be read.
pub uninterp spec fn entry_name(sections: DebugSectionsView, unit: usize, entry: usize) -> Option<Seq<char>>;

/// Calls `gimli::Unit::entry`, `DebuggingInformationEntry::attr_value` for the
/// name attribute and `Dwarf::attr_string`; the bytes of the name are turned
/// into text with `to_string_lossy`.
/// `Dwarf::attr_string` looks up a name that is given as an index, and panics
/// where the product of the index with the size of a table entry leaves 64
/// bits and overflow is checked: the `requires` leaves those names out, and
/// the units on which `Dwarf::unit` can panic.
/// The contract is taken from the source of gimli and is not proved.
#[verifier::external_body]
pub(crate) fn read_entry_name(sections: &DebugSections<'_>, unit: usize, entry: usize) -> (r: Option<String>)
    requires
        unit_readable(sections@, unit),
        index_fits(entry_name_index(sections@, unit, entry)),
    ensures
        r is Some <==> entry_name(sections@, unit, entry) is Some,
        r matches Some(name) ==> entry_name(sections@, unit, entry) == Some(name@),
{
    let endian = if sections.little_endian { Little } else { Big };
    let dwarf = Dwarf::load(|id| Ok::<_, gimli::Error>(EndianSlice::new(sections.section(id.name()), endian))).ok()?;
    let parsed = dwarf.unit(dwarf.debug_info.header_from_offset(DebugInfoOffset(unit)).ok()?).ok()?;
    let value = parsed.entry(UnitOffset(entry)).ok()?.attr_value(gimli::DW_AT_name).ok()??;
    let name = dwarf.attr_string(&parsed, value).ok()?;
    Some(name.to_string_lossy().into_owned())
}

/// For each instruction of the line-number program of the unit at `unit`, in
/// order and up to the first that gimli cannot read: the operand, where the
/// instruction advances the line by a signed operand.
pub uninterp spec fn line_advances(sections: DebugSectionsView, unit: usize) -> Seq<Option<i64>>;

/// Calls `gimli::Dwarf::unit`, `LineProgramHeader::instructions` on the header
/// of the unit's line-number program and `LineInstructions::next_instruction`
/// until it ends or fails. The instructions are read and not carried out.
/// The `requires` leaves out the units on which `Dwarf::unit` can panic.
/// The contract only names the result and is not proved.
#[verifier::external_body]
pub(crate) fn read_line_advances(sections: &DebugSections<'_>, unit: usize) -> (r: Vec<Option<i64>>)
    requires
        unit_readable(sections@, unit),
    ensures
        r@ == line_advances(sections@, unit),
{
    let mut out = Vec::new();
    let endian = if sections.little_endian { Little } else { Big };
    let dwarf = Dwarf::load(|id| Ok::<_, gimli::Error>(EndianSlice::new(sections.section(id.name()), endian)));
    let parsed = dwarf.and_then(|d| d.unit(d.debug_info.header_from_offset(DebugInfoOffset(unit))?));
    if let Ok(Unit { line_program: Some(program), .. }) = parsed {
        let mut instructions = program.header().instructions();
        while let Ok(Some(i)) = instructions.next_instruction(program.header()) {
            out.push(match i {
                LineInstruction::AdvanceLine(advance) => Some(advance),
                _ => None,
            });
        }
    }
    out
}

/// gimli can run the line-number program of the unit at `unit` without
/// negating the least signed number: the unit can be set up, and no
/// instruction advances the line by that number.
pub open spec fn program_readable(sections: DebugSectionsView, unit: usize) -> bool {
    &&& unit_readable(sections, unit)
    &&& forall|i: int|
        0 <= i < line_advances(sections, unit).len() ==> (#[trigger] line_advances(sections, unit)[i])
            != Some(i64::MIN)
}

/// Tests whether gimli can run the line-number program of a unit that it can
/// set up.
pub(crate) fn advances_are_readable(sections: &DebugSections<'_>, unit: usize) -> (r: bool)
    requires
        unit_readable(sections@, unit),
    ensures
        r == program_readable(sections@, unit),
{
    let advances = read_line_advances(sections, unit);
    let mut i: usize = 0;
    while i < advances.len()
        invariant
            i <= advances.len(),
            advances@ == line_advances(sections@, unit),
            forall|k: int| 0 <= k < i ==> (#[trigger] advances@[k]) != Some(i64::MIN),
        decreases advances.len() - i,
    {
        match advances[i] {
            Some(n) => {
                if n == i64::MIN {
                    assert(advances@[i as int] == Some(i64::MIN));
                    return false;
                }
            },
            None => {},
        }
        i += 1;
    }
    true
}

/// Tests whether gimli can set the unit at `unit` up and run its line-number
/// program.
pub fn program_is_readable(sections: &DebugSections<'_>, unit: usize) -> (r: bool)
    ensures
        r == program_readable(sections@, unit),
{
    unit_is_readable(sections, unit) && advances_are_readable(sections, unit)
}

/// What gimli reads as the rows of the line-number program of the unit at
/// `unit`: all of them in program order, up to the first that it cannot read;
/// none where the unit cannot be read or has no line-number program.
pub uninterp spec fn line_rows(sections: DebugSectionsView, unit: usize) -> Seq<LineRow>;

/// Calls `gimli::Dwarf::unit`, `IncompleteLineProgram::rows` on the unit's
/// line-number program and `LineRows::next_row` until it ends or fails.
/// `LineRows::next_row` negates the operand of an instruction that advances
/// the line by a negative number, and panics on the least signed number where
/// overflow is checked: the `requires` leaves the programs with such an
/// instruction out, and the units on which `Dwarf::unit` can panic.
/// The contract is taken from the source of gimli and is not proved.
#[verifier::external_body]
pub(crate) fn read_line_rows(sections: &DebugSections<'_>, unit: usize) -> (r: Vec<LineRow>)
    requires
        program_readable(sections@, unit),
    ensures
        r@ == line_rows(sections@, unit),
{
    let mut out = Vec::new();
    let endian = if sections.little_endian { Little } else { Big };
    let dwarf = Dwarf::load(|id| Ok::<_, gimli::Error>(EndianSlice::new(sections.section(id.name()), endian)));
    let parsed = dwarf.and_then(|d| d.unit(d.debug_info.header_from_offset(DebugInfoOffset(unit))?));
    if let Ok(Unit { line_program: Some(program), .. }) = parsed {
        let mut rows = program.rows();
        while let Ok(Some((_, row))) = rows.next_row() {
            out.push(LineRow::new(row.address(), row.end_sequence(), row.file_index(), row.line().map(|n| n.get())));
        }
    }
    out
}

/// The number of names in the file table of the line-number program of the
/// unit at `unit`, as the table stands when gimli has run the program to its
/// end or to its first error; `None` where the unit cannot be read or has no
/// such program.
pub uninterp spec fn file_count(sections: DebugSectionsView, unit: usize) -> Option<usize>;

/// Calls `gimli::Dwarf::unit`, runs the unit's line-number program with
/// `LineRows::next_row`, and gives the length of `LineProgramHeader::file_names`.
/// The `requires` leaves out the units and programs on which `Dwarf::unit` and
/// `LineRows::next_row` can panic.
/// The contract is taken from the source of gimli and is not proved.
#[verifier::external_body]
pub(crate) fn read_file_count(sections: &DebugSections<'_>, unit: usize) -> (r: Option<usize>)
    requires
        program_readable(sections@, unit),
    ensures
        r == file_count(sections@, unit),
{
    let endian = if sections.little_endian { Little } else { Big };
    let dwarf = Dwarf::load(|id| Ok::<_, gimli::Error>(EndianSlice::new(sections.section(id.name()), endian)));
    let parsed = dwarf.and_then(|d| d.unit(d.debug_info.header_from_offset(DebugInfoOffset(unit))?));
    let mut rows = parsed.ok()?.line_program?.rows();
    while let Ok(Some(_)) = rows.next_row() {}
    Some(rows.header().file_names().len())
}

/// The index into the table of string offsets that the path name of the file
/// at `index` of that table holds; `None` where there is no such file or its
/// path name is given in another form.
pub uninterp spec fn file_path_index(sections: DebugSectionsView, unit: usize, index: u64) -> Option<u64>;

/// Calls `gimli::Dwarf::unit`, runs the unit's line-number program with
/// `LineRows::next_row`, then calls `LineProgramHeader::file` with `index` and
/// `FileEntry::path_name`; the index is not looked up.
/// The `requires` leaves out the units and programs on which `Dwarf::unit` and
/// `LineRows::next_row` can panic.
/// The contract only names the result and is not proved.
#[verifier::external_body]
pub(crate) fn read_file_path_index(sections: &DebugSections<'_>, unit: usize, index: u64) -> (r: Option<u64>)
    requires
        program_readable(sections@, unit),
    ensures
        r == file_path_index(sections@, unit, index),
{
    let endian = if sections.little_endian { Little } else { Big };
    let dwarf = Dwarf::load(|id| Ok::<_, gimli::Error>(EndianSlice::new(sections.section(id.name()), endian)));
    let parsed = dwarf.and_then(|d| d.unit(d.debug_info.header_from_offset(DebugInfoOffset(unit))?));
    let mut rows = parsed.ok()?.line_program?.rows();
    while let Ok(Some(_)) = rows.next_row() {}
    match rows.header().file(index)?.path_name() {
        DebugStrOffsetsIndex(found) => Some(found.0 as u64),
        _ => None,
    }
}

/// What gimli gives for the file at `index` of that table: `None` where there
/// is no such file, no program or no unit; `Some(None)` where there is a file
/// whose path name cannot be read; else the path name.
pub uninterp spec fn file_path(sections: DebugSectionsView, unit: usize, index: u64) -> Option<
    Option<Seq<char>>,
>;

/// Calls `gimli::Dwarf::unit`, runs the unit's line-number program with
/// `LineRows::next_row`, then calls `LineProgramHeader::file` with `index`,
/// `FileEntry::path_name` and `Dwarf::attr_string`; the bytes of the name are
/// turned into text with `to_string_lossy`.
/// The `requires` leaves out the units and programs on which `Dwarf::unit` and
/// `LineRows::next_row` can panic, and the path names given as an index on
/// which `Dwarf::attr_string` can.
/// The contract is taken from the source of gimli and is not proved.
#[verifier::external_body]
pub(crate) fn read_file_path(sections: &DebugSections<'_>, unit: usize, index: u64) -> (r: Option<
    Option<String>,
>)
    requires
        program_readable(sections@, unit),
        index_fits(file_path_index(sections@, unit, index)),
    ensures
        match r {
            None => file_path(sections@, unit, index) is None,
            Some(None) => file_path(sections@, unit, index) == Some(None::<Seq<char>>),
            Some(Some(name)) => file_path(sections@, unit, index) == Some(Some(name@)),
        },
{
    let endian = if sections.little_endian { Little } else { Big };
    let dwarf = Dwarf::load(|id| Ok::<_, gimli::Error>(EndianSlice::new(sections.section(id.name()), endian))).ok()?;
    let parsed = dwarf.unit(dwarf.debug_info.header_from_offset(DebugInfoOffset(unit)).ok()?).ok()?;
    let mut rows = parsed.line_program.clone()?.rows();
    while let Ok(Some(_)) = rows.next_row() {}
    let path = rows.header().file(index)?.path_name();
    Some(dwarf.attr_string(&parsed, path).ok().map(|name| name.to_string_lossy().into_owned()))
}

} // verus!
