//! Lookup of addresses in a session: by the symbol table, by the debug data
//! with the symbol table to fall back on, and for a whole batch.

use vstd::prelude::*;
use crate::address::{search_address, to_search_address, AddressMode};
use crate::debug_data::{
    advances_are_readable, aranges_of, entry_name, entry_name_index, entry_pc, file_count, file_path,
    file_path_index, index_fits, line_rows, program_is_readable, program_readable, read_entry_name,
    read_entry_name_index, read_entry_pc, read_file_count, read_file_path, read_file_path_index,
    read_line_rows, read_unit_entries, unit_entries, unit_is_readable, unit_readable, DebugEntry,
    DebugSections, DebugSectionsView, MAX_TABLE_INDEX,
};
use crate::demangle::{demangle_symbol, display_name};
use crate::dwarf::{
    covering_unit, enclosing_subprogram, file_views, find_line, find_subprogram, find_unit,
    source_position, FileName, FileNameView, PcValue, Subprogram,
};
use crate::error::{message_text, Error, ErrorView};
use crate::image::{is_object_dwarf, ImageView, MappedObjectFile};
use crate::object_data::{Segment, SegmentName};
use crate::symbols::{all_above, is_nearest, map_entries, map_position, SymbolTable};
use crate::text::{decimal_digits, push_decimal, same_text};

verus! {

/// An address resolved by the symbol table: the symbol nearest at or below it.
#[derive(Debug, PartialEq, Eq)]
pub struct ResolvedSymbol {
    pub display_name: String,
    pub defining_image_name: String,
    pub byte_offset: u64,
}

/// A resolved symbol with its texts as plain values.
pub struct ResolvedSymbolView {
    pub display_name: Seq<char>,
    pub defining_image_name: Seq<char>,
    pub byte_offset: u64,
}

impl View for ResolvedSymbol {
    type V = ResolvedSymbolView;

    open spec fn view(&self) -> ResolvedSymbolView {
        ResolvedSymbolView {
            display_name: self.display_name@,
            defining_image_name: self.defining_image_name@,
            byte_offset: self.byte_offset,
        }
    }
}

/// An address resolved by the debug data: the subprogram that encloses it and
/// the source line it was compiled from.
#[derive(Debug, PartialEq, Eq)]
pub struct ResolvedLine {
    pub display_name: String,
    pub defining_image_name: String,
    pub source_file: String,
    pub line_number: u64,
}

/// A resolved line with its texts as plain values.
pub struct ResolvedLineView {
    pub display_name: Seq<char>,
    pub defining_image_name: Seq<char>,
    pub source_file: Seq<char>,
    pub line_number: u64,
}

impl View for ResolvedLine {
    type V = ResolvedLineView;

    open spec fn view(&self) -> ResolvedLineView {
        ResolvedLineView {
            display_name: self.display_name@,
            defining_image_name: self.defining_image_name@,
            source_file: self.source_file@,
            line_number: self.line_number,
        }
    }
}

/// What the lookup of one address gives.
#[derive(Debug)]
pub enum ResolutionOutcome {
    Line(ResolvedLine),
    Symbol(ResolvedSymbol),
    Unresolved(Error),
}

/// An outcome with its texts as plain values.
pub enum OutcomeView {
    Line(ResolvedLineView),
    Symbol(ResolvedSymbolView),
    Unresolved(ErrorView),
}

impl View for ResolutionOutcome {
    type V = OutcomeView;

    open spec fn view(&self) -> OutcomeView {
        match self {
            ResolutionOutcome::Line(line) => OutcomeView::Line(line@),
            ResolutionOutcome::Symbol(symbol) => OutcomeView::Symbol(symbol@),
            ResolutionOutcome::Unresolved(e) => OutcomeView::Unresolved(e@),
        }
    }
}

/// `<name> (in <image>) + <offset>`, the offset in decimal.
pub open spec fn symbol_text(symbol: ResolvedSymbolView) -> Seq<char> {
    symbol.display_name + " (in "@ + symbol.defining_image_name + ") + "@ + decimal_digits(
        symbol.byte_offset as nat,
    )
}

/// `<name> (in <image>) (<file>:<line>)`, the line in decimal.
pub open spec fn line_text(line: ResolvedLineView) -> Seq<char> {
    line.display_name + " (in "@ + line.defining_image_name + ") ("@ + line.source_file + ":"@
        + decimal_digits(line.line_number as nat) + ")"@
}

/// The line of output for one address; `N/A - <reason>` for an address that
/// is not resolved.
pub open spec fn outcome_text(outcome: OutcomeView) -> Seq<char> {
    match outcome {
        OutcomeView::Line(line) => line_text(line),
        OutcomeView::Symbol(symbol) => symbol_text(symbol),
        OutcomeView::Unresolved(e) => "N/A - "@ + message_text(e),
    }
}

impl ResolvedSymbol {
    /// The line of output for an address resolved by the symbol table.
    pub fn render(&self) -> (r: String)
        ensures
            r@ == symbol_text(self@),
    {
        let mut out = String::new();
        out.append(self.display_name.as_str());
        out.append(" (in ");
        out.append(self.defining_image_name.as_str());
        out.append(") + ");
        push_decimal(&mut out, self.byte_offset);
        assert(out@ =~= symbol_text(self@));
        out
    }
}

impl ResolvedLine {
    /// The line of output for an address resolved by the debug data.
    pub fn render(&self) -> (r: String)
        ensures
            r@ == line_text(self@),
    {
        let mut out = String::new();
        out.append(self.display_name.as_str());
        out.append(" (in ");
        out.append(self.defining_image_name.as_str());
        out.append(") (");
        out.append(self.source_file.as_str());
        out.append(":");
        push_decimal(&mut out, self.line_number);
        out.append(")");
        assert(out@ =~= line_text(self@));
        out
    }
}

impl ResolutionOutcome {
    /// The line of output for the address.
    pub fn render(&self) -> (r: String)
        ensures
            r@ == outcome_text(self@),
    {
        match self {
            ResolutionOutcome::Line(line) => line.render(),
            ResolutionOutcome::Symbol(symbol) => symbol.render(),
            ResolutionOutcome::Unresolved(e) => {
                let mut out = String::new();
                out.append("N/A - ");
                let reason = e.message();
                out.append(reason.as_str());
                assert(out@ =~= outcome_text(self@));
                out
            },
        }
    }
}

/// The name of the segment that holds the code of a Mach-O image.
pub open spec fn code_segment_name() -> Seq<char> {
    "__TEXT"@
}

/// The address at which the code segment was linked, looking at the segments
/// from `from` on: that of the first segment called `__TEXT`, 0 where there is
/// none. A segment name that cannot be read before that one is found is a
/// parse error with the message of the object crate.
pub open spec fn code_base_from(segments: Seq<Segment>, from: int) -> Result<u64, ErrorView>
    decreases segments.len() - from,
{
    if from < 0 || from >= segments.len() {
        Ok(0)
    } else {
        match segments[from].name {
            SegmentName::Unreadable(message) => Err(ErrorView::Parse(message@)),
            SegmentName::Unnamed => code_base_from(segments, from + 1),
            SegmentName::Named(name) => if name@ == code_segment_name() {
                Ok(segments[from].address)
            } else {
                code_base_from(segments, from + 1)
            },
        }
    }
}

/// The address at which the code segment of the image was linked.
pub open spec fn code_base(segments: Seq<Segment>) -> Result<u64, ErrorView> {
    code_base_from(segments, 0)
}

/// The view of a number or the error in its place.
pub open spec fn number_result_view(r: Result<u64, Error>) -> Result<u64, ErrorView> {
    match r {
        Ok(n) => Ok(n),
        Err(e) => Err(e@),
    }
}

/// Finds the address at which the code segment was linked.
pub fn text_vmaddr(segments: &Vec<Segment>) -> (r: Result<u64, Error>)
    ensures
        number_result_view(r) == code_base(segments@),
{
    let mut i: usize = 0;
    while i < segments.len()
        invariant
            i <= segments.len(),
            code_base_from(segments@, i as int) == code_base(segments@),
        decreases segments.len() - i,
    {
        match &segments[i].name {
            SegmentName::Unreadable(message) => {
                return Err(Error::Parse(message.clone()));
            },
            SegmentName::Unnamed => {},
            SegmentName::Named(name) => {
                if same_text(name.as_str(), "__TEXT") {
                    return Ok(segments[i].address);
                }
            },
        }
        i += 1;
    }
    Ok(0)
}

/// The symbol that the map gives for `search`, under its display name, with
/// the distance of `search` from it; not found where the map gives none.
pub open spec fn symbol_at(symbols: Seq<(u64, Seq<char>)>, image_name: Seq<char>, search: u64) -> Result<
    ResolvedSymbolView,
    ErrorView,
> {
    match map_position(symbols, search) {
        None => Err(ErrorView::NotFound),
        Some(i) => Ok(
            ResolvedSymbolView {
                display_name: display_name(symbols[i].1),
                defining_image_name: image_name,
                byte_offset: (search - symbols[i].0) as u64,
            },
        ),
    }
}

/// The view of a resolved symbol or the error in its place.
pub open spec fn symbol_result_view(r: Result<ResolvedSymbol, Error>) -> Result<
    ResolvedSymbolView,
    ErrorView,
> {
    match r {
        Ok(symbol) => Ok(symbol@),
        Err(e) => Err(e@),
    }
}

/// `symbol` is a symbol of `symbols` nearest at or below `search`: none at or
/// below `search` has a greater address; its name is shown demangled, and the
/// offset is the distance of `search` from it.
pub open spec fn resolves_to(
    symbols: Seq<(u64, Seq<char>)>,
    image_name: Seq<char>,
    search: u64,
    symbol: ResolvedSymbolView,
) -> bool {
    exists|i: int|
        is_nearest(symbols, search, i) && symbol.display_name == display_name((#[trigger] symbols[i]).1)
            && symbol.byte_offset == search - symbols[i].0 && symbol.defining_image_name
            == image_name
}

/// Looks `search` up in the symbol map: finds the symbol nearest at or below
/// it. There is one unless every symbol lies above `search`.
pub fn resolve_symbol(symbols: &SymbolTable<'_>, image_name: &str, search: u64) -> (r: Result<
    ResolvedSymbol,
    Error,
>)
    ensures
        symbol_result_view(r) == symbol_at(map_entries(*symbols), image_name@, search),
        r matches Ok(symbol) ==> resolves_to(map_entries(*symbols), image_name@, search, symbol@),
        r matches Err(e) ==> e@ == ErrorView::NotFound,
        r is Err <==> all_above(map_entries(*symbols), search),
{
    let ghost entries = map_entries(*symbols);
    match symbols.lookup(search) {
        None => Err(Error::NotFound),
        Some(found) => {
            let ghost i = map_position(entries, search).unwrap();
            assert(entries[i].0 <= search);
            let symbol = ResolvedSymbol {
                display_name: demangle_symbol(found.name.as_str()),
                defining_image_name: image_name.to_owned(),
                byte_offset: search - found.address,
            };
            assert(is_nearest(entries, search, i) && symbol@.display_name == display_name(entries[i].1)
                && symbol@.byte_offset == search - entries[i].0);
            Ok(symbol)
        },
    }
}

/// The lookup of the runtime address `address` by the symbol table: the
/// address is first taken into the address space of the image.
pub open spec fn symbol_for(
    image: ImageView,
    load_address: u64,
    address: u64,
    base: u64,
    mode: AddressMode,
) -> Result<ResolvedSymbolView, ErrorView> {
    match search_address(address, load_address, base, mode) {
        Err(e) => Err(e@),
        Ok(search) => symbol_at(image.symbols, image.file_name, search),
    }
}

/// Resolves one runtime address by the symbol table of the image.
pub fn symbol_symbolize_address(
    object: &MappedObjectFile<'_>,
    load_address: u64,
    address: u64,
    text_vmaddr: u64,
    mode: AddressMode,
) -> (r: Result<ResolvedSymbol, Error>)
    ensures
        symbol_result_view(r) == symbol_for(object@, load_address, address, text_vmaddr, mode),
        r matches Ok(symbol) ==> search_address(address, load_address, text_vmaddr, mode) matches Ok(
            search,
        ) && resolves_to(object@.symbols, object@.file_name, search, symbol@),
        r is Err <==> match search_address(address, load_address, text_vmaddr, mode) {
            Err(_) => true,
            Ok(search) => all_above(object@.symbols, search),
        },
{
    match to_search_address(address, load_address, text_vmaddr, mode) {
        Err(e) => Err(e),
        Ok(search) => resolve_symbol(object.symbols(), object.file_name(), search),
    }
}

/// The tag of a subprogram entry.
pub const DW_TAG_SUBPROGRAM: u16 = 0x2e;

/// The attribute that holds the low address of an entry.
pub const DW_AT_LOW_PC: u16 = 0x11;

/// The attribute that holds the high address of an entry.
pub const DW_AT_HIGH_PC: u16 = 0x12;

/// The address attributes of the entry at `entry`. The high address is read
/// only of an entry whose low address is an absolute address.
pub open spec fn subprogram_of(sections: DebugSectionsView, unit: usize, entry: usize) -> Subprogram {
    let low = entry_pc(sections, unit, entry, DW_AT_LOW_PC);
    Subprogram {
        entry,
        low,
        high: if low is Address {
            entry_pc(sections, unit, entry, DW_AT_HIGH_PC)
        } else {
            PcValue::Absent
        },
    }
}

/// The subprograms among `entries`, in order.
pub open spec fn subprograms_among(sections: DebugSectionsView, unit: usize, entries: Seq<DebugEntry>) -> Seq<
    Subprogram,
>
    decreases entries.len(),
{
    if entries.len() == 0 {
        Seq::empty()
    } else if entries.last().tag == DW_TAG_SUBPROGRAM {
        subprograms_among(sections, unit, entries.drop_last()).push(
            subprogram_of(sections, unit, entries.last().offset),
        )
    } else {
        subprograms_among(sections, unit, entries.drop_last())
    }
}

/// The subprograms of the unit at `unit`, in the order of its entries; none
/// of a unit that cannot be set up.
pub open spec fn unit_subprograms(sections: DebugSectionsView, unit: usize) -> Seq<Subprogram> {
    if unit_readable(sections, unit) {
        subprograms_among(sections, unit, unit_entries(sections, unit))
    } else {
        Seq::empty()
    }
}

fn subprograms_of(sections: &DebugSections<'_>, unit: usize) -> (r: Vec<Subprogram>)
    requires
        unit_readable(sections@, unit),
    ensures
        r@ == unit_subprograms(sections@, unit),
{
    let entries = read_unit_entries(sections, unit);
    let mut out: Vec<Subprogram> = Vec::new();
    let mut i: usize = 0;
    while i < entries.len()
        invariant
            i <= entries.len(),
            unit_readable(sections@, unit),
            out@ == subprograms_among(sections@, unit, entries@.take(i as int)),
        decreases entries.len() - i,
    {
        proof {
            assert(entries@.take(i + 1).drop_last() =~= entries@.take(i as int));
            assert(entries@.take(i + 1).last() == entries@[i as int]);
        }
        let entry = entries[i];
        if entry.tag == DW_TAG_SUBPROGRAM {
            let low = read_entry_pc(sections, unit, entry.offset, DW_AT_LOW_PC);
            let high = match low {
                PcValue::Address(_) => read_entry_pc(sections, unit, entry.offset, DW_AT_HIGH_PC),
                _ => PcValue::Absent,
            };
            out.push(Subprogram { entry: entry.offset, low, high });
        }
        i += 1;
    }
    assert(entries@.take(entries@.len() as int) =~= entries@);
    out
}

/// Reads the subprograms of the unit at `unit`.
pub fn load_subprograms(sections: &DebugSections<'_>, unit: usize) -> (r: Vec<Subprogram>)
    ensures
        r@ == unit_subprograms(sections@, unit),
{
    if unit_is_readable(sections, unit) {
        subprograms_of(sections, unit)
    } else {
        Vec::new()
    }
}

/// The name of the entry at `entry`; none where it is given as an index that
/// is not looked up.
pub open spec fn subprogram_name(sections: DebugSectionsView, unit: usize, entry: usize) -> Option<
    Seq<char>,
> {
    if index_fits(entry_name_index(sections, unit, entry)) {
        entry_name(sections, unit, entry)
    } else {
        None
    }
}

fn name_of(sections: &DebugSections<'_>, unit: usize, entry: usize) -> (r: Option<String>)
    requires
        unit_readable(sections@, unit),
    ensures
        r is Some <==> subprogram_name(sections@, unit, entry) is Some,
        r matches Some(name) ==> subprogram_name(sections@, unit, entry) == Some(name@),
{
    let fits = match read_entry_name_index(sections, unit, entry) {
        Some(n) => n <= MAX_TABLE_INDEX,
        None => true,
    };
    if fits {
        read_entry_name(sections, unit, entry)
    } else {
        None
    }
}

/// The rows of the line-number program of the unit at `unit`; none of a
/// program that cannot be run.
pub open spec fn unit_rows(sections: DebugSectionsView, unit: usize) -> Seq<crate::dwarf::LineRow> {
    if program_readable(sections, unit) {
        line_rows(sections, unit)
    } else {
        Seq::empty()
    }
}

/// What the file table of the unit holds at `index`. A path name that is given
/// as an index that is not looked up cannot be read.
pub open spec fn file_entry(sections: DebugSectionsView, unit: usize, index: u64) -> FileNameView {
    if !index_fits(file_path_index(sections, unit, index)) {
        FileNameView::Unreadable
    } else {
        match file_path(sections, unit, index) {
            None => FileNameView::Absent,
            Some(None) => FileNameView::Unreadable,
            Some(Some(name)) => FileNameView::Name(name),
        }
    }
}

/// The file table of the unit at `unit`, from position 0 to the number of its
/// file names: past that position no unit has a file. A unit without a
/// line-number program, or with one that cannot be run, has an empty table.
pub open spec fn file_table(sections: DebugSectionsView, unit: usize) -> Seq<FileNameView> {
    if !program_readable(sections, unit) {
        Seq::empty()
    } else {
        match file_count(sections, unit) {
            None => Seq::empty(),
            Some(count) => Seq::new((count + 1) as nat, |i: int| file_entry(sections, unit, i as u64)),
        }
    }
}

fn load_file(sections: &DebugSections<'_>, unit: usize, index: u64) -> (r: FileName)
    requires
        program_readable(sections@, unit),
    ensures
        r@ == file_entry(sections@, unit, index),
{
    let fits = match read_file_path_index(sections, unit, index) {
        Some(n) => n <= MAX_TABLE_INDEX,
        None => true,
    };
    if !fits {
        return FileName::Unreadable;
    }
    match read_file_path(sections, unit, index) {
        None => FileName::Absent,
        Some(None) => FileName::Unreadable,
        Some(Some(name)) => FileName::Name(name),
    }
}

fn files_of(sections: &DebugSections<'_>, unit: usize) -> (r: Vec<FileName>)
    requires
        program_readable(sections@, unit),
    ensures
        file_views(r@) == file_table(sections@, unit),
{
    let mut files: Vec<FileName> = Vec::new();
    let count = match read_file_count(sections, unit) {
        Some(count) => count,
        None => {
            assert(file_views(files@) =~= file_table(sections@, unit));
            return files;
        },
    };
    let mut i: usize = 0;
    while i < count
        invariant
            i <= count,
            program_readable(sections@, unit),
            files@.len() == i,
            forall|k: int| 0 <= k < i ==> files@[k]@ == file_entry(sections@, unit, k as u64),
        decreases count - i,
    {
        files.push(load_file(sections, unit, i as u64));
        i += 1;
    }
    files.push(load_file(sections, unit, count as u64));
    assert(file_views(files@) =~= file_table(sections@, unit));
    files
}

/// Reads the file table of the unit at `unit`.
pub fn load_files(sections: &DebugSections<'_>, unit: usize) -> (r: Vec<FileName>)
    ensures
        file_views(r@) == file_table(sections@, unit),
{
    if program_is_readable(sections, unit) {
        files_of(sections, unit)
    } else {
        let files: Vec<FileName> = Vec::new();
        assert(file_views(files@) =~= file_table(sections@, unit));
        files
    }
}

/// The lookup of `search` in the debug data: the unit whose address range
/// covers it; in that unit the first subprogram that encloses it, and its
/// name; and the source line of the unit's line-number program. There is a
/// result only where all of them are found.
pub open spec fn line_at(sections: DebugSectionsView, image_name: Seq<char>, search: u64) -> Option<
    ResolvedLineView,
> {
    match covering_unit(aranges_of(sections), search) {
        None => None,
        Some(unit) => {
            let subprograms = unit_subprograms(sections, unit);
            match enclosing_subprogram(subprograms, search) {
                None => None,
                Some(i) => match subprogram_name(sections, unit, subprograms[i].entry) {
                    None => None,
                    Some(name) => match source_position(
                        unit_rows(sections, unit),
                        file_table(sections, unit),
                        search,
                    ) {
                        None => None,
                        Some((file, line)) => Some(
                            ResolvedLineView {
                                display_name: display_name(name),
                                defining_image_name: image_name,
                                source_file: file,
                                line_number: line,
                            },
                        ),
                    },
                },
            }
        },
    }
}

/// The view of a resolved line, if there is one.
pub open spec fn line_option_view(r: Option<ResolvedLine>) -> Option<ResolvedLineView> {
    match r {
        Some(line) => Some(line@),
        None => None,
    }
}

/// Looks `search` up in the debug data of the image.
pub fn resolve_line(object: &MappedObjectFile<'_>, search: u64) -> (r: Option<ResolvedLine>)
    ensures
        line_option_view(r) == line_at(object@.sections, object@.file_name, search),
{
    let sections = object.sections();
    let unit = match find_unit(object.aranges(), search) {
        Some(unit) => unit,
        None => {
            return None;
        },
    };
    if !unit_is_readable(sections, unit) {
        return None;
    }
    let subprograms = subprograms_of(sections, unit);
    let name = match find_subprogram(&subprograms, search) {
        Some(i) => match name_of(sections, unit, subprograms[i].entry) {
            Some(name) => name,
            None => {
                return None;
            },
        },
        None => {
            return None;
        },
    };
    if !advances_are_readable(sections, unit) {
        assert(file_table(sections@, unit).len() == 0);
        assert(source_position(unit_rows(sections@, unit), file_table(sections@, unit), search) is None);
        return None;
    }
    let rows = read_line_rows(sections, unit);
    let files = files_of(sections, unit);
    match find_line(&rows, &files, search) {
        None => None,
        Some((file, line)) => Some(
            ResolvedLine {
                display_name: demangle_symbol(name.as_str()),
                defining_image_name: object.file_name().to_owned(),
                source_file: file,
                line_number: line,
            },
        ),
    }
}

/// The lookup of the runtime address `address` by the debug data: the address
/// is first taken into the address space of the image. An address that the
/// debug data does not resolve is not found.
pub open spec fn line_for(
    image: ImageView,
    load_address: u64,
    address: u64,
    base: u64,
    mode: AddressMode,
) -> Result<ResolvedLineView, ErrorView> {
    match search_address(address, load_address, base, mode) {
        Err(e) => Err(e@),
        Ok(search) => match line_at(image.sections, image.file_name, search) {
            Some(line) => Ok(line),
            None => Err(ErrorView::NotFound),
        },
    }
}

/// The view of a resolved line or the error in its place.
pub open spec fn line_result_view(r: Result<ResolvedLine, Error>) -> Result<ResolvedLineView, ErrorView> {
    match r {
        Ok(line) => Ok(line@),
        Err(e) => Err(e@),
    }
}

/// Resolves one runtime address by the debug data of the image.
pub fn dwarf_symbolize_address(
    object: &MappedObjectFile<'_>,
    load_address: u64,
    address: u64,
    text_vmaddr: u64,
    mode: AddressMode,
) -> (r: Result<ResolvedLine, Error>)
    ensures
        line_result_view(r) == line_for(object@, load_address, address, text_vmaddr, mode),
{
    match to_search_address(address, load_address, text_vmaddr, mode) {
        Err(e) => Err(e),
        Ok(search) => match resolve_line(object, search) {
            Some(line) => Ok(line),
            None => Err(Error::NotFound),
        },
    }
}

/// What the symbol table alone gives for an address.
pub open spec fn symbol_outcome(
    image: ImageView,
    load_address: u64,
    address: u64,
    base: u64,
    mode: AddressMode,
) -> OutcomeView {
    match symbol_for(image, load_address, address, base, mode) {
        Ok(symbol) => OutcomeView::Symbol(symbol),
        Err(e) => OutcomeView::Unresolved(e),
    }
}

/// What the debug data gives for an address, with the symbol table to fall
/// back on: whenever the debug data gives nothing, for whatever reason, the
/// outcome is that of the symbol table.
pub open spec fn dwarf_outcome(
    image: ImageView,
    load_address: u64,
    address: u64,
    base: u64,
    mode: AddressMode,
) -> OutcomeView {
    match line_for(image, load_address, address, base, mode) {
        Ok(line) => OutcomeView::Line(line),
        Err(_) => symbol_outcome(image, load_address, address, base, mode),
    }
}

/// The outcome for one address: an image with line-number data is looked up
/// by its debug data first, any other by its symbol table alone.
pub open spec fn outcome_for(
    image: ImageView,
    load_address: u64,
    address: u64,
    base: u64,
    mode: AddressMode,
) -> OutcomeView {
    if image.rich {
        dwarf_outcome(image, load_address, address, base, mode)
    } else {
        symbol_outcome(image, load_address, address, base, mode)
    }
}

/// An address has one outcome. It is a line only where the image holds
/// line-number data and the debug data resolves the address; in every other
/// case it is what the symbol table gives, a symbol or the reason why there is
/// none. The reason is that the address cannot be normalised, or that nothing
/// was found.
pub proof fn lemma_outcome(image: ImageView, load_address: u64, address: u64, base: u64, mode: AddressMode)
    ensures
        match outcome_for(image, load_address, address, base, mode) {
            OutcomeView::Line(line) => image.rich && line_for(image, load_address, address, base, mode)
                == Ok::<ResolvedLineView, ErrorView>(line),
            OutcomeView::Symbol(symbol) => (!image.rich || line_for(
                image,
                load_address,
                address,
                base,
                mode,
            ) is Err) && symbol_for(image, load_address, address, base, mode) == Ok::<
                ResolvedSymbolView,
                ErrorView,
            >(symbol),
            OutcomeView::Unresolved(e) => (!image.rich || line_for(
                image,
                load_address,
                address,
                base,
                mode,
            ) is Err) && symbol_for(image, load_address, address, base, mode) == Err::<
                ResolvedSymbolView,
                ErrorView,
            >(e) && (e is NotFound || e is InvalidAddress),
        },
        outcome_for(image, load_address, address, base, mode) matches OutcomeView::Unresolved(
            ErrorView::InvalidAddress(_),
        ) <==> search_address(address, load_address, base, mode) is Err,
        address < load_address ==> outcome_for(image, load_address, address, base, mode)
            == OutcomeView::Unresolved(
            ErrorView::InvalidAddress(crate::error::AddressFault::BelowLoadAddress),
        ),
{
}

/// Resolves one address by the symbol table alone.
pub fn symbol_resolve_address(
    object: &MappedObjectFile<'_>,
    load_address: u64,
    address: u64,
    text_vmaddr: u64,
    mode: AddressMode,
) -> (r: ResolutionOutcome)
    ensures
        r@ == symbol_outcome(object@, load_address, address, text_vmaddr, mode),
        r is Symbol || r is Unresolved,
        r matches ResolutionOutcome::Symbol(symbol) ==> search_address(
            address,
            load_address,
            text_vmaddr,
            mode,
        ) matches Ok(search) && resolves_to(object@.symbols, object@.file_name, search, symbol@),
        r is Unresolved <==> match search_address(address, load_address, text_vmaddr, mode) {
            Err(_) => true,
            Ok(search) => all_above(object@.symbols, search),
        },
{
    match symbol_symbolize_address(object, load_address, address, text_vmaddr, mode) {
        Ok(symbol) => ResolutionOutcome::Symbol(symbol),
        Err(e) => ResolutionOutcome::Unresolved(e),
    }
}

/// Resolves one address by the debug data, and by the symbol table where the
/// debug data gives nothing.
pub fn dwarf_resolve_address(
    object: &MappedObjectFile<'_>,
    load_address: u64,
    address: u64,
    text_vmaddr: u64,
    mode: AddressMode,
) -> (r: ResolutionOutcome)
    ensures
        r@ == dwarf_outcome(object@, load_address, address, text_vmaddr, mode),
{
    match dwarf_symbolize_address(object, load_address, address, text_vmaddr, mode) {
        Ok(line) => ResolutionOutcome::Line(line),
        Err(_) => symbol_resolve_address(object, load_address, address, text_vmaddr, mode),
    }
}

/// Resolves one address of a session.
pub fn resolve_address(
    object: &MappedObjectFile<'_>,
    load_address: u64,
    address: u64,
    text_vmaddr: u64,
    mode: AddressMode,
) -> (r: ResolutionOutcome)
    ensures
        r@ == outcome_for(object@, load_address, address, text_vmaddr, mode),
        r is Line ==> object@.rich,
{
    if is_object_dwarf(object) {
        dwarf_resolve_address(object, load_address, address, text_vmaddr, mode)
    } else {
        symbol_resolve_address(object, load_address, address, text_vmaddr, mode)
    }
}

/// The lines of output for a batch: one for each address, in the order of the
/// addresses. The whole batch fails where the code segment cannot be found
/// out; no single address makes it fail.
pub open spec fn is_batch(
    r: Result<Vec<String>, Error>,
    image: ImageView,
    load_address: u64,
    addresses: Seq<u64>,
    mode: AddressMode,
    rich: bool,
) -> bool {
    match code_base(image.segments) {
        Err(e) => r matches Err(found) && found@ == e,
        Ok(base) => r matches Ok(lines) && lines@.len() == addresses.len() && forall|i: int|
            0 <= i < addresses.len() ==> (#[trigger] lines@[i])@ == outcome_text(
                if rich {
                    dwarf_outcome(image, load_address, addresses[i], base, mode)
                } else {
                    symbol_outcome(image, load_address, addresses[i], base, mode)
                },
            ),
    }
}

/// Resolves a batch of addresses by the symbol table.
pub fn symbol_symbolize_addresses(
    object: &MappedObjectFile<'_>,
    load_address: u64,
    addresses: &Vec<u64>,
    mode: AddressMode,
) -> (r: Result<Vec<String>, Error>)
    ensures
        is_batch(r, object@, load_address, addresses@, mode, false),
{
    let base = match text_vmaddr(object.segments()) {
        Ok(base) => base,
        Err(e) => {
            return Err(e);
        },
    };
    let mut lines: Vec<String> = Vec::new();
    let mut i: usize = 0;
    while i < addresses.len()
        invariant
            i <= addresses.len(),
            lines@.len() == i,
            forall|k: int|
                0 <= k < i ==> (#[trigger] lines@[k])@ == outcome_text(
                    symbol_outcome(object@, load_address, addresses@[k], base, mode),
                ),
        decreases addresses.len() - i,
    {
        let outcome = symbol_resolve_address(object, load_address, addresses[i], base, mode);
        lines.push(outcome.render());
        i += 1;
    }
    Ok(lines)
}

/// Resolves a batch of addresses by the debug data, each with the symbol
/// table to fall back on.
pub fn dwarf_symbolize_addresses(
    object: &MappedObjectFile<'_>,
    load_address: u64,
    addresses: &Vec<u64>,
    mode: AddressMode,
) -> (r: Result<Vec<String>, Error>)
    ensures
        is_batch(r, object@, load_address, addresses@, mode, true),
{
    let base = match text_vmaddr(object.segments()) {
        Ok(base) => base,
        Err(e) => {
            return Err(e);
        },
    };
    let mut lines: Vec<String> = Vec::new();
    let mut i: usize = 0;
    while i < addresses.len()
        invariant
            i <= addresses.len(),
            lines@.len() == i,
            forall|k: int|
                0 <= k < i ==> (#[trigger] lines@[k])@ == outcome_text(
                    dwarf_outcome(object@, load_address, addresses@[k], base, mode),
                ),
        decreases addresses.len() - i,
    {
        let outcome = dwarf_resolve_address(object, load_address, addresses[i], base, mode);
        lines.push(outcome.render());
        i += 1;
    }
    Ok(lines)
}

/// The lines of output for a batch of addresses in a session: whether the
/// image holds line-number data decides for the whole batch how its addresses
/// are looked up.
pub fn print_addresses(
    object: &MappedObjectFile<'_>,
    load_address: u64,
    addresses: &Vec<u64>,
    mode: AddressMode,
) -> (r: Result<Vec<String>, Error>)
    ensures
        is_batch(r, object@, load_address, addresses@, mode, object@.rich),
{
    if is_object_dwarf(object) {
        dwarf_symbolize_addresses(object, load_address, addresses, mode)
    } else {
        symbol_symbolize_addresses(object, load_address, addresses, mode)
    }
}

} // verus!
