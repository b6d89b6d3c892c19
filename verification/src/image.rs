//! One image, read once from the bytes of a file and then only looked up in:
//! the container it comes from, its description, and the session that holds
//! its symbol table and debug sections.

use vstd::prelude::*;
use vstd::slice::slice_subrange;
use crate::debug_data::{
    aranges_of, load_aranges, DebugSections, DebugSectionsView, Section, SectionData,
};
use crate::dwarf::ArangeEntry;
use crate::error::{Error, ErrorView};
use crate::object_data::{
    address_base, read_address_base, read_section_sizes, section_sizes, sizes_fit, MAX_EXPANSION,
    architecture_name, cpu_subtype, fat_table32, fat_table64, has_section, image_identifier,
    little_endian, read_architecture, read_cpu_subtype, read_fat_table32, read_fat_table64,
    read_has_section, read_identifier, read_little_endian, read_section, read_segments,
    section_contents, segment_table, Segment, SliceRange,
};
use crate::select::{choice, select, slice_views, Container, ContainerView, FilterView, SelectionFilter, Slice, SliceView};
use crate::symbols::{
    base_fits, map_entries, read_symbol_map, symbol_entries, SymbolTable, MAX_IMAGE_BASE,
};
use crate::text::{chars_of, lower_char, same_text, string_of, to_lower};
use crate::uuid::Uuid;

verus! {

/// The name with its ASCII letters in lower case.
pub open spec fn lowered(name: Seq<char>) -> Seq<char> {
    name.map_values(|c: char| lower_char(c))
}

/// The CPU subtype, without its capability bits, is that of arm64e.
pub open spec fn is_arm64e(subtype: Option<u32>) -> bool {
    subtype matches Some(s) && s & 0x00ff_ffff == 2
}

/// The architecture name under which an image is listed and compared: the
/// name that the image's architecture has in the object crate, in lower case;
/// `arm64` in place of `aarch64`, and `arm64e` where the CPU subtype says so.
pub open spec fn architecture_token(name: Seq<char>, subtype: Option<u32>) -> Seq<char> {
    if lowered(name) == "aarch64"@ {
        if is_arm64e(subtype) {
            "arm64e"@
        } else {
            "arm64"@
        }
    } else {
        lowered(name)
    }
}

/// Makes the architecture name of an image from what the object crate gives.
pub fn make_architecture_token(name: &str, subtype: Option<u32>) -> (r: String)
    ensures
        r@ == architecture_token(name@, subtype),
{
    let chars = chars_of(name);
    let mut lower: Vec<char> = Vec::new();
    let mut i: usize = 0;
    while i < chars.len()
        invariant
            i <= chars.len(),
            lower@.len() == i,
            forall|j: int| 0 <= j < i ==> lower@[j] == lower_char(chars@[j]),
        decreases chars.len() - i,
    {
        lower.push(to_lower(chars[i]));
        i += 1;
    }
    assert(lower@ =~= lowered(name@));
    let text = string_of(&lower);
    if same_text(text.as_str(), "aarch64") {
        let arm64e = match subtype {
            Some(s) => s & 0x00ff_ffff == 2,
            None => false,
        };
        if arm64e {
            "arm64e".to_owned()
        } else {
            "arm64".to_owned()
        }
    } else {
        text
    }
}

/// The description of the image in `image`, which stands at `range` in its file.
pub open spec fn slice_view_of(image: Seq<u8>, range: SliceRange) -> SliceView {
    SliceView {
        architecture: architecture_token(
            match architecture_name(image) {
                Ok(name) => name,
                Err(_) => Seq::empty(),
            },
            cpu_subtype(image),
        ),
        identifier: image_identifier(image),
        offset: range.offset,
        size: range.size,
    }
}

/// The view of a slice or the error in its place.
pub open spec fn slice_result_view(r: Result<Slice, Error>) -> Result<SliceView, ErrorView> {
    match r {
        Ok(slice) => Ok(slice@),
        Err(e) => Err(e@),
    }
}

/// The description of `image` where the object crate can read it, else its
/// error as a parse error.
pub open spec fn described(image: Seq<u8>, range: SliceRange) -> Result<SliceView, ErrorView> {
    match architecture_name(image) {
        Ok(_) => Ok(slice_view_of(image, range)),
        Err(message) => Err(ErrorView::Parse(message)),
    }
}

/// Reads the architecture and identifier of one image.
pub fn describe(image: &[u8], range: SliceRange) -> (r: Result<Slice, Error>)
    ensures
        slice_result_view(r) == described(image@, range),
{
    match read_architecture(image) {
        Err(message) => Err(Error::Parse(message)),
        Ok(name) => {
            let subtype = read_cpu_subtype(image);
            let identifier = match read_identifier(image) {
                Some(bytes) => Some(Uuid { bytes }),
                None => None,
            };
            Ok(
                Slice {
                    architecture: make_architecture_token(name.as_str(), subtype),
                    identifier,
                    offset: range.offset,
                    size: range.size,
                },
            )
        },
    }
}

/// The slice table of a fat container of either width; `None` for any other file.
pub open spec fn slice_table(bytes: Seq<u8>) -> Option<Seq<SliceRange>> {
    match fat_table32(bytes) {
        Some(table) => Some(table),
        None => fat_table64(bytes),
    }
}

/// The range lies within the file.
pub open spec fn in_bounds(bytes: Seq<u8>, range: SliceRange) -> bool {
    range.offset + range.size <= bytes.len()
}

/// The bytes of the file at `range`.
pub open spec fn slice_bytes(bytes: Seq<u8>, range: SliceRange) -> Seq<u8> {
    bytes.subrange(range.offset as int, range.offset + range.size)
}

/// The description of the slice at `range` of a fat container, or why it has none.
pub open spec fn slice_described(bytes: Seq<u8>, range: SliceRange) -> Result<SliceView, ErrorView> {
    if in_bounds(bytes, range) {
        described(slice_bytes(bytes, range), range)
    } else {
        Err(ErrorView::Parse("Invalid fat arch offset or size"@))
    }
}

/// The descriptions of the slices of `table`, or the error of the first among
/// them that has none.
pub open spec fn slices_described(bytes: Seq<u8>, table: Seq<SliceRange>) -> Result<
    Seq<SliceView>,
    ErrorView,
>
    decreases table.len(),
{
    if table.len() == 0 {
        Ok(Seq::empty())
    } else {
        match slices_described(bytes, table.drop_last()) {
            Err(e) => Err(e),
            Ok(front) => match slice_described(bytes, table.last()) {
                Err(e) => Err(e),
                Ok(last) => Ok(front.push(last)),
            },
        }
    }
}

/// An error among the first `n` slices is the error of the whole table.
proof fn lemma_fault_stays(bytes: Seq<u8>, table: Seq<SliceRange>, n: int)
    requires
        0 <= n <= table.len(),
        slices_described(bytes, table.take(n)) is Err,
    ensures
        slices_described(bytes, table) == slices_described(bytes, table.take(n)),
    decreases table.len() - n,
{
    if n == table.len() {
        assert(table.take(n) =~= table);
    } else {
        assert(table.take(n + 1).drop_last() =~= table.take(n));
        lemma_fault_stays(bytes, table, n + 1);
    }
}

/// The range of the whole file.
pub open spec fn whole(bytes: Seq<u8>) -> SliceRange {
    SliceRange { offset: 0, size: bytes.len() as u64 }
}

/// What a file holds: the slices of a fat container, each read as an image of
/// its own, or one single image. A slice that reaches past the end of the
/// file, or that the object crate cannot read, is a parse error, and so is a
/// file that is neither a fat container nor an image.
pub open spec fn container_of(bytes: Seq<u8>) -> Result<ContainerView, ErrorView> {
    match slice_table(bytes) {
        Some(table) => match slices_described(bytes, table) {
            Ok(slices) => Ok(ContainerView::Fat(slices)),
            Err(e) => Err(e),
        },
        None => match described(bytes, whole(bytes)) {
            Ok(image) => Ok(ContainerView::Single(image)),
            Err(e) => Err(e),
        },
    }
}

/// The view of a container or the error in its place.
pub open spec fn container_result_view(r: Result<Container, Error>) -> Result<ContainerView, ErrorView> {
    match r {
        Ok(container) => Ok(container@),
        Err(e) => Err(e@),
    }
}

/// Every slice of a container that has been read lies within the file, and a
/// single image is the whole file.
pub open spec fn ranges_in_bounds(bytes: Seq<u8>, container: ContainerView) -> bool {
    match container {
        ContainerView::Single(image) => image.offset == 0 && image.size == bytes.len(),
        ContainerView::Fat(slices) => forall|i: int|
            0 <= i < slices.len() ==> (#[trigger] slices[i]).offset + slices[i].size <= bytes.len(),
    }
}

/// Reads what a file holds.
pub fn read_container(bytes: &[u8]) -> (r: Result<Container, Error>)
    ensures
        container_result_view(r) == container_of(bytes@),
        r matches Ok(container) ==> ranges_in_bounds(bytes@, container@),
{
    let table = match read_fat_table32(bytes) {
        Some(table) => Some(table),
        None => read_fat_table64(bytes),
    };
    match table {
        None => {
            let range = SliceRange { offset: 0, size: bytes.len() as u64 };
            match describe(bytes, range) {
                Ok(image) => Ok(Container::Single(image)),
                Err(e) => Err(e),
            }
        },
        Some(table) => {
            let mut slices: Vec<Slice> = Vec::new();
            let mut i: usize = 0;
            proof {
                assert(slice_table(bytes@) == Some(table@));
                assert(table@.take(0).len() == 0);
                assert(slice_views(slices@) =~= Seq::<SliceView>::empty());
            }
            while i < table.len()
                invariant
                    i <= table.len(),
                    slice_table(bytes@) == Some(table@),
                    slices_described(bytes@, table@.take(i as int)) == Ok::<Seq<SliceView>, ErrorView>(
                        slice_views(slices@),
                    ),
                    forall|k: int|
                        0 <= k < slices@.len() ==> (#[trigger] slices@[k]).offset + slices@[k].size
                            <= bytes@.len(),
                decreases table.len() - i,
            {
                let range = table[i];
                proof {
                    assert(table@.take(i + 1).drop_last() =~= table@.take(i as int));
                    assert(table@.take(i + 1).last() == range);
                }
                let one = if range.offset <= bytes.len() as u64 && range.size <= bytes.len() as u64
                    - range.offset {
                    let from = range.offset as usize;
                    let to = (range.offset + range.size) as usize;
                    describe(slice_subrange(bytes, from, to), range)
                } else {
                    Err(Error::Parse("Invalid fat arch offset or size".to_owned()))
                };
                assert(slice_result_view(one) == slice_described(bytes@, range));
                match one {
                    Err(e) => {
                        proof {
                            assert(slices_described(bytes@, table@.take(i + 1)) == Err::<
                                Seq<SliceView>,
                                ErrorView,
                            >(e@));
                            lemma_fault_stays(bytes@, table@, i + 1);
                        }
                        return Err(e);
                    },
                    Ok(slice) => {
                        let ghost before = slices@;
                        slices.push(slice);
                        assert(slice_views(slices@) =~= slice_views(before).push(slice@));
                    },
                }
                i += 1;
            }
            proof {
                assert(table@.take(table@.len() as int) =~= table@);
                assert forall|k: int| 0 <= k < slice_views(slices@).len() implies (
                #[trigger] slice_views(slices@)[k]).offset + slice_views(slices@)[k].size
                    <= bytes@.len() by {
                    assert(slices@[k].offset + slices@[k].size <= bytes@.len());
                }
            }
            Ok(Container::Fat(slices))
        },
    }
}

/// The number of debug sections that a session holds.
pub const DEBUG_SECTION_COUNT: usize = 13;

/// The names of the debug sections, as the DWARF standard gives them.
pub open spec fn debug_section_name(i: int) -> Seq<char> {
    if i == 0 {
        ".debug_abbrev"@
    } else if i == 1 {
        ".debug_addr"@
    } else if i == 2 {
        ".debug_aranges"@
    } else if i == 3 {
        ".debug_info"@
    } else if i == 4 {
        ".debug_line"@
    } else if i == 5 {
        ".debug_line_str"@
    } else if i == 6 {
        ".debug_str"@
    } else if i == 7 {
        ".debug_str_offsets"@
    } else if i == 8 {
        ".debug_types"@
    } else if i == 9 {
        ".debug_loc"@
    } else if i == 10 {
        ".debug_loclists"@
    } else if i == 11 {
        ".debug_ranges"@
    } else {
        ".debug_rnglists"@
    }
}

fn section_name(i: usize) -> (r: &'static str)
    ensures
        r@ == debug_section_name(i as int),
{
    if i == 0 {
        ".debug_abbrev"
    } else if i == 1 {
        ".debug_addr"
    } else if i == 2 {
        ".debug_aranges"
    } else if i == 3 {
        ".debug_info"
    } else if i == 4 {
        ".debug_line"
    } else if i == 5 {
        ".debug_line_str"
    } else if i == 6 {
        ".debug_str"
    } else if i == 7 {
        ".debug_str_offsets"
    } else if i == 8 {
        ".debug_types"
    } else if i == 9 {
        ".debug_loc"
    } else if i == 10 {
        ".debug_loclists"
    } else if i == 11 {
        ".debug_ranges"
    } else {
        ".debug_rnglists"
    }
}

/// The contents of the section under `name`; empty for a section that the
/// image lacks, that cannot be read, or that declares a size to which it
/// cannot be uncompressed.
pub open spec fn loaded_section(image: Seq<u8>, name: Seq<char>) -> Seq<u8> {
    if !sizes_fit(section_sizes(image, name)) {
        Seq::empty()
    } else {
        match section_contents(image, name) {
            Some(data) => data,
            None => Seq::empty(),
        }
    }
}

/// The debug sections of an image, each under its name.
pub open spec fn loaded_sections(image: Seq<u8>) -> Seq<(Seq<char>, Seq<u8>)> {
    Seq::new(
        DEBUG_SECTION_COUNT as nat,
        |i: int| (debug_section_name(i), loaded_section(image, debug_section_name(i))),
    )
}

fn load_section<'a>(image: &'a [u8], name: &str) -> (r: SectionData<'a>)
    ensures
        r@ == loaded_section(image@, name@),
{
    let fits = match read_section_sizes(image, name) {
        Some((stored, uncompressed)) => uncompressed <= (usize::MAX / 2) as u64 && uncompressed
            / MAX_EXPANSION <= stored,
        None => true,
    };
    if !fits {
        return SectionData::Owned(Vec::new());
    }
    match read_section(image, name) {
        Some(data) => data,
        None => SectionData::Owned(Vec::new()),
    }
}

fn load_sections<'a>(image: &'a [u8], little: bool) -> (r: DebugSections<'a>)
    ensures
        r@ == (DebugSectionsView { little_endian: little, sections: loaded_sections(image@) }),
{
    let mut sections: Vec<Section<'a>> = Vec::new();
    let mut i: usize = 0;
    while i < DEBUG_SECTION_COUNT
        invariant
            i <= DEBUG_SECTION_COUNT,
            sections@.len() == i,
            forall|k: int|
                0 <= k < i ==> (sections@[k].name@, sections@[k].data@) == loaded_sections(image@)[k],
        decreases DEBUG_SECTION_COUNT - i,
    {
        let name = section_name(i);
        let data = load_section(image, name);
        sections.push(Section { name: name.to_owned(), data });
        i += 1;
    }
    let r = DebugSections { little_endian: little, sections };
    assert(r@.sections =~= loaded_sections(image@));
    r
}

/// A session on one image: what has been read of it, kept for every lookup.
pub struct MappedObjectFile<'a> {
    pub(crate) file_name: String,
    pub(crate) slice: Slice,
    pub(crate) rich: bool,
    pub(crate) segments: Vec<Segment>,
    pub(crate) symbols: SymbolTable<'a>,
    pub(crate) sections: DebugSections<'a>,
    pub(crate) aranges: Vec<ArangeEntry>,
}

/// What a session holds, as plain values.
pub struct ImageView {
    /// The name under which the image is reported.
    pub file_name: Seq<char>,
    /// The architecture and identifier of the image and its place in the file.
    pub slice: SliceView,
    /// The image holds a line-number section.
    pub rich: bool,
    pub segments: Seq<Segment>,
    /// The entries of the symbol map, each an address and a name.
    pub symbols: Seq<(u64, Seq<char>)>,
    pub sections: DebugSectionsView,
}

impl<'a> View for MappedObjectFile<'a> {
    type V = ImageView;

    closed spec fn view(&self) -> ImageView {
        ImageView {
            file_name: self.file_name@,
            slice: self.slice@,
            rich: self.rich,
            segments: self.segments@,
            symbols: map_entries(self.symbols),
            sections: self.sections@,
        }
    }
}

/// The name of the line-number section by which an image with debug data is told.
pub open spec fn line_section_name() -> Seq<char> {
    "__debug_line"@
}

/// The session on the image in `image`: `rich` says whether the image has a
/// line-number section. Bytes that the object crate cannot read as an image
/// are a parse error with the message of that crate, and so are an image
/// whose base is so great that the addresses of its symbols leave 64 bits, and
/// an image of which the object crate gives no segments, symbols or byte
/// order.
pub open spec fn image_of(file_name: Seq<char>, slice: SliceView, image: Seq<u8>) -> Result<
    ImageView,
    ErrorView,
> {
    if architecture_name(image) is Err {
        Err(ErrorView::Parse(architecture_name(image)->Err_0))
    } else if !base_fits(address_base(image)) {
        Err(ErrorView::Parse("image base out of range"@))
    } else if has_section(image, line_section_name()) is None || little_endian(image) is None
        || segment_table(image) is None || symbol_entries(image) is None {
        Err(ErrorView::Parse("unreadable image"@))
    } else {
        Ok(
            ImageView {
                file_name,
                slice,
                rich: has_section(image, line_section_name()).unwrap(),
                segments: segment_table(image).unwrap(),
                symbols: symbol_entries(image).unwrap(),
                sections: DebugSectionsView {
                    little_endian: little_endian(image).unwrap(),
                    sections: loaded_sections(image),
                },
            },
        )
    }
}

/// The view of a session or the error in its place.
pub open spec fn image_result_view(r: Result<MappedObjectFile<'_>, Error>) -> Result<ImageView, ErrorView> {
    match r {
        Ok(image) => Ok(image@),
        Err(e) => Err(e@),
    }
}

/// The range that a slice occupies.
pub open spec fn range_of(slice: SliceView) -> SliceRange {
    SliceRange { offset: slice.offset, size: slice.size }
}

/// The session on the image that `filter` chooses in the file `bytes`: the
/// container is read, one image of it is chosen, and that image is read. Each
/// step may fail with its own error.
pub open spec fn session_of(file_name: Seq<char>, bytes: Seq<u8>, filter: FilterView) -> Result<
    ImageView,
    ErrorView,
> {
    match container_of(bytes) {
        Err(e) => Err(e),
        Ok(container) => match choice(container, filter) {
            Err(e) => Err(e),
            Ok(i) => image_of(
                file_name,
                container.slices()[i],
                slice_bytes(bytes, range_of(container.slices()[i])),
            ),
        },
    }
}

/// A file that is a single image is opened whenever the filter asks nothing:
/// the choice never fails, and the session is that of the whole file.
pub proof fn lemma_single_image_session(
    file_name: Seq<char>,
    bytes: Seq<u8>,
    filter: FilterView,
    image: SliceView,
)
    requires
        filter.is_empty(),
        bytes.len() <= u64::MAX,
        container_of(bytes) == Ok::<ContainerView, ErrorView>(ContainerView::Single(image)),
    ensures
        choice(ContainerView::Single(image), filter) == Ok::<int, ErrorView>(0),
        session_of(file_name, bytes, filter) == image_of(file_name, image, bytes),
{
    assert(image == slice_view_of(bytes, whole(bytes)));
    assert(slice_bytes(bytes, range_of(image)) =~= bytes);
}

/// A fat container of one slice is opened as a single image is, where the
/// filter asks nothing: its one slice is chosen and read.
pub proof fn lemma_one_slice_session(
    file_name: Seq<char>,
    bytes: Seq<u8>,
    filter: FilterView,
    slices: Seq<SliceView>,
)
    requires
        filter.is_empty(),
        container_of(bytes) == Ok::<ContainerView, ErrorView>(ContainerView::Fat(slices)),
        slices.len() == 1,
    ensures
        choice(ContainerView::Fat(slices), filter) == Ok::<int, ErrorView>(0),
        session_of(file_name, bytes, filter) == image_of(
            file_name,
            slices[0],
            slice_bytes(bytes, range_of(slices[0])),
        ),
{
    crate::select::lemma_one_slice_chosen(slices, filter);
}

/// A fat container of several slices is not opened where the filter asks
/// nothing: the selection is ambiguous, and the error lists every slice of the
/// container, as many candidates as there are slices.
pub proof fn lemma_many_slices_session(
    file_name: Seq<char>,
    bytes: Seq<u8>,
    filter: FilterView,
    slices: Seq<SliceView>,
)
    requires
        filter.is_empty(),
        container_of(bytes) == Ok::<ContainerView, ErrorView>(ContainerView::Fat(slices)),
        slices.len() > 1,
    ensures
        session_of(file_name, bytes, filter) == Err::<ImageView, ErrorView>(
            ErrorView::SelectionAmbiguous(slices),
        ),
{
    crate::select::lemma_many_slices_ambiguous(slices, filter);
}

impl<'a> MappedObjectFile<'a> {
    #[verifier::type_invariant]
    spec fn well_formed(self) -> bool {
        self.aranges@ == aranges_of(self.sections@)
    }

    /// Reads the image `image`, which is described by `slice`.
    pub fn open(file_name: &str, slice: Slice, image: &'a [u8]) -> (r: Result<MappedObjectFile<'a>, Error>)
        ensures
            image_result_view(r) == image_of(file_name@, slice@, image@),
    {
        if let Err(message) = read_architecture(image) {
            return Err(Error::Parse(message));
        }
        let fits = match read_address_base(image) {
            Some(base) => base <= MAX_IMAGE_BASE,
            None => true,
        };
        if !fits {
            return Err(Error::Parse("image base out of range".to_owned()));
        }
        let rich = read_has_section(image, "__debug_line");
        let little = read_little_endian(image);
        let segments = read_segments(image);
        let symbols = read_symbol_map(image);
        match (rich, little, segments, symbols) {
            (Some(rich), Some(little), Some(segments), Some(symbols)) => {
                let sections = load_sections(image, little);
                let aranges = load_aranges(&sections);
                Ok(
                    MappedObjectFile {
                        file_name: file_name.to_owned(),
                        slice,
                        rich,
                        segments,
                        symbols,
                        sections,
                        aranges,
                    },
                )
            },
            _ => Err(Error::Parse("unreadable image".to_owned())),
        }
    }

    /// The name under which the image is reported.
    pub fn file_name(&self) -> (r: &str)
        ensures
            r@ == self@.file_name,
    {
        self.file_name.as_str()
    }

    /// The architecture and identifier of the image.
    pub fn slice(&self) -> (r: &Slice)
        ensures
            r@ == self@.slice,
    {
        &self.slice
    }

    /// The segments of the image, in the order of the image.
    pub fn segments(&self) -> (r: &Vec<Segment>)
        ensures
            r@ == self@.segments,
    {
        &self.segments
    }

    /// The symbol map of the image.
    pub fn symbols(&self) -> (r: &SymbolTable<'a>)
        ensures
            map_entries(*r) == self@.symbols,
    {
        &self.symbols
    }

    /// The debug sections of the image.
    pub fn sections(&self) -> (r: &DebugSections<'a>)
        ensures
            r@ == self@.sections,
    {
        &self.sections
    }

    /// The address-range table of the image's debug data.
    pub fn aranges(&self) -> (r: &Vec<ArangeEntry>)
        ensures
            r@ == aranges_of(self@.sections),
    {
        proof {
            use_type_invariant(self);
        }
        &self.aranges
    }
}

/// Whether the image holds line-number data, which decides for a whole batch
/// between the two ways of lookup.
pub fn is_object_dwarf(object: &MappedObjectFile<'_>) -> (r: bool)
    ensures
        r == object@.rich,
{
    object.rich
}

/// Opens a session on the file `bytes`, which is reported under the name
/// `object_filename`: reads what the file holds, chooses the image that
/// `filter` asks for and reads it.
pub fn init_file_obj<'a>(object_filename: &str, bytes: &'a [u8], filter: &SelectionFilter) -> (r: Result<
    MappedObjectFile<'a>,
    Error,
>)
    ensures
        image_result_view(r) == session_of(object_filename@, bytes@, filter@),
{
    let container = match read_container(bytes) {
        Ok(container) => container,
        Err(e) => {
            return Err(e);
        },
    };
    let position = match select(&container, filter) {
        Ok(position) => position,
        Err(e) => {
            return Err(e);
        },
    };
    match container {
        Container::Single(image) => {
            proof {
                assert(container@.slices()[0] == image@);
                assert(slice_bytes(bytes@, range_of(image@)) =~= bytes@);
            }
            MappedObjectFile::open(object_filename, image, bytes)
        },
        Container::Fat(slices) => {
            let slice = slices[position].copy();
            let total = bytes.len();
            assert(slice_views(slices@)[position as int] == slice@);
            assert(slice.offset + slice.size <= total);
            let from = slice.offset as usize;
            let to = (slice.offset + slice.size) as usize;
            MappedObjectFile::open(object_filename, slice, slice_subrange(bytes, from, to))
        },
    }
}

} // verus!
