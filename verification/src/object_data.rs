//! What is read from the bytes of a file with the object crate: the slices of
//! a fat container, and of one image its architecture, identifier, segments,
//! sections and symbols.

use object::read::macho::{FatArch, MachHeader};
use object::{Object, ObjectSection, ObjectSegment};
use std::borrow::Cow;
use vstd::prelude::*;
use crate::debug_data::SectionData;

verus! {

/// The bytes of a container that one slice occupies.
#[derive(Clone, Copy, Debug, PartialEq, Eq, Structural)]
pub struct SliceRange {
    pub offset: u64,
    pub size: u64,
}

/// The slice table that object reads from a 32-bit fat container: `None` where
/// the bytes do not begin with the header of one or the table cannot be read.
pub uninterp spec fn fat_table32(bytes: Seq<u8>) -> Option<Seq<SliceRange>>;

/// Calls `object::macho::FatHeader::parse_arch32` and hands out the offset and
/// size of each entry, in the order of the table.
/// The contract is taken from the source of the object crate and is not proved.
#[verifier::external_body]
pub(crate) fn read_fat_table32(bytes: &[u8]) -> (r: Option<Vec<SliceRange>>)
    ensures
        r is Some <==> fat_table32(bytes@) is Some,
        r matches Some(table) ==> fat_table32(bytes@) == Some(table@),
{
    let arches = object::macho::FatHeader::parse_arch32(bytes).ok()?;
    Some(arches.iter().map(|a| SliceRange { offset: a.offset().into(), size: a.size().into() }).collect())
}

/// The slice table that object reads from a 64-bit fat container: `None` where
/// the bytes do not begin with the header of one or the table cannot be read.
pub uninterp spec fn fat_table64(bytes: Seq<u8>) -> Option<Seq<SliceRange>>;

/// Calls `object::macho::FatHeader::parse_arch64` and hands out the offset and
/// size of each entry, in the order of the table.
/// The contract is taken from the source of the object crate and is not proved.
#[verifier::external_body]
pub(crate) fn read_fat_table64(bytes: &[u8]) -> (r: Option<Vec<SliceRange>>)
    ensures
        r is Some <==> fat_table64(bytes@) is Some,
        r matches Some(table) ==> fat_table64(bytes@) == Some(table@),
{
    let arches = object::macho::FatHeader::parse_arch64(bytes).ok()?;
    Some(arches.iter().map(|a| SliceRange { offset: a.offset().into(), size: a.size().into() }).collect())
}

/// The name of the architecture of the image in `image`, as object's
/// `Architecture` is written by `Debug`; the message of object's error where
/// the bytes are no image that object can read.
pub uninterp spec fn architecture_name(image: Seq<u8>) -> Result<Seq<char>, Seq<char>>;

/// Calls `object::File::parse` and `Object::architecture`.
/// The contract is taken from the source of the object crate and is not proved.
#[verifier::external_body]
pub(crate) fn read_architecture(image: &[u8]) -> (r: Result<String, String>)
    ensures
        match r {
            Ok(name) => architecture_name(image@) == Ok::<Seq<char>, Seq<char>>(name@),
            Err(message) => architecture_name(image@) == Err::<Seq<char>, Seq<char>>(message@),
        },
{
    match object::File::parse(image) {
        Ok(file) => Ok(format!("{:?}", file.architecture())),
        Err(e) => Err(e.to_string()),
    }
}

/// The CPU subtype in the header of a 64-bit Mach-O image; `None` where the
/// bytes do not begin with such a header.
pub uninterp spec fn cpu_subtype(image: Seq<u8>) -> Option<u32>;

/// Calls `MachHeader::parse` for `object::macho::MachHeader64` at offset 0, then
/// `MachHeader::endian` and `MachHeader::cpusubtype`.
/// The contract is taken from the source of the object crate and is not proved.
#[verifier::external_body]
pub(crate) fn read_cpu_subtype(image: &[u8]) -> (r: Option<u32>)
    ensures
        r == cpu_subtype(image@),
{
    let header = object::macho::MachHeader64::<object::Endianness>::parse(image, 0).ok()?;
    Some(header.cpusubtype(header.endian().ok()?))
}

/// The identifier that the image carries; `None` where it carries none or
/// cannot be read.
pub uninterp spec fn image_identifier(image: Seq<u8>) -> Option<Seq<u8>>;

/// Calls `object::File::parse` and `Object::mach_uuid`.
/// The contract is taken from the source of the object crate and is not proved.
#[verifier::external_body]
pub(crate) fn read_identifier(image: &[u8]) -> (r: Option<[u8; 16]>)
    ensures
        r is Some <==> image_identifier(image@) is Some,
        r matches Some(bytes) ==> image_identifier(image@) == Some(bytes@),
{
    object::File::parse(image).ok()?.mach_uuid().ok()?
}

/// Whether the image is little-endian; `None` where it cannot be read.
pub uninterp spec fn little_endian(image: Seq<u8>) -> Option<bool>;

/// Calls `object::File::parse` and `Object::is_little_endian`.
/// The contract is taken from the source of the object crate and is not proved.
#[verifier::external_body]
pub(crate) fn read_little_endian(image: &[u8]) -> (r: Option<bool>)
    ensures
        r == little_endian(image@),
{
    Some(object::File::parse(image).ok()?.is_little_endian())
}

/// Whether object finds a section called `name` in the image; `None` where the
/// image cannot be read.
pub uninterp spec fn has_section(image: Seq<u8>, name: Seq<char>) -> Option<bool>;

/// Calls `object::File::parse` and `Object::section_by_name`.
/// The contract is taken from the source of the object crate and is not proved.
#[verifier::external_body]
pub(crate) fn read_has_section(image: &[u8], name: &str) -> (r: Option<bool>)
    ensures
        r == has_section(image@, name@),
{
    Some(object::File::parse(image).ok()?.section_by_name(name).is_some())
}

/// The contents of the section that object finds under `name`, uncompressed;
/// `None` where there is no such section or it cannot be read.
pub uninterp spec fn section_contents(image: Seq<u8>, name: Seq<char>) -> Option<Seq<u8>>;

/// The sizes that object gives for the section under `name`: the size of its
/// contents as the image stores them, and their size uncompressed; `None`
/// where there is no such section or the sizes cannot be read.
pub uninterp spec fn section_sizes(image: Seq<u8>, name: Seq<char>) -> Option<(u64, u64)>;

/// Calls `object::File::parse`, `Object::section_by_name` and
/// `ObjectSection::compressed_file_range`, and hands out the two sizes of the
/// range. Nothing is uncompressed.
/// The contract only names the result and is not proved.
#[verifier::external_body]
pub(crate) fn read_section_sizes(image: &[u8], name: &str) -> (r: Option<(u64, u64)>)
    ensures
        r == section_sizes(image@, name@),
{
    let file = object::File::parse(image).ok()?;
    let range = file.section_by_name(name)?.compressed_file_range().ok()?;
    Some((range.compressed_size, range.uncompressed_size))
}

/// The greatest number of bytes that one stored byte can be uncompressed to.
pub const MAX_EXPANSION: u64 = 1032;

/// The section can be uncompressed: its size uncompressed is one that a buffer
/// can have, and not more than `MAX_EXPANSION` times its stored size.
pub open spec fn sizes_fit(sizes: Option<(u64, u64)>) -> bool {
    sizes matches Some((stored, uncompressed)) ==> uncompressed <= usize::MAX / 2 && uncompressed
        / MAX_EXPANSION <= stored
}

/// Calls `object::File::parse`, `Object::section_by_name` and
/// `ObjectSection::uncompressed_data`, and hands the contents out as they
/// come: borrowed from the image, or owned.
/// For a compressed section `uncompressed_data` makes a buffer of the size
/// that the section declares, and panics or does not return where no buffer
/// can have that size: the `requires` leaves out the sections that declare
/// more than half the address space or more than `MAX_EXPANSION` times their
/// stored size.
/// The contract is taken from the source of the object crate and is not proved.
#[verifier::external_body]
pub(crate) fn read_section<'a>(image: &'a [u8], name: &str) -> (r: Option<SectionData<'a>>)
    requires
        sizes_fit(section_sizes(image@, name@)),
    ensures
        r is Some <==> section_contents(image@, name@) is Some,
        r matches Some(data) ==> section_contents(image@, name@) == Some(data@),
{
    let file = object::File::parse(image).ok()?;
    match file.section_by_name(name)?.uncompressed_data().ok()? {
        Cow::Borrowed(bytes) => Some(SectionData::Borrowed(bytes)),
        Cow::Owned(bytes) => Some(SectionData::Owned(bytes)),
    }
}

/// The base to which the addresses of the image are relative, as object gives
/// it: the image base of a PE image, 0 for the other formats; `None` where
/// the image cannot be read.
pub uninterp spec fn address_base(image: Seq<u8>) -> Option<u64>;

/// Calls `object::File::parse` and `Object::relative_address_base`.
/// The contract only names the result and is not proved.
#[verifier::external_body]
pub(crate) fn read_address_base(image: &[u8]) -> (r: Option<u64>)
    ensures
        r == address_base(image@),
{
    Some(object::File::parse(image).ok()?.relative_address_base())
}

/// The name of a segment.
#[derive(Debug, PartialEq, Eq)]
pub enum SegmentName {
    /// The name cannot be read; the message of the object crate's error.
    Unreadable(String),
    /// The segment has no name.
    Unnamed,
    Named(String),
}

/// One segment of an image: its name and the address it was linked at.
#[derive(Debug, PartialEq, Eq)]
pub struct Segment {
    pub name: SegmentName,
    pub address: u64,
}

/// The segments of the image, in the order in which object gives them; `None`
/// where the image cannot be read.
pub uninterp spec fn segment_table(image: Seq<u8>) -> Option<Seq<Segment>>;

/// Calls `object::File::parse` and `Object::segments`, and for each segment
/// `ObjectSegment::name` and `ObjectSegment::address`.
/// The contract is taken from the source of the object crate and is not proved.
#[verifier::external_body]
pub(crate) fn read_segments(image: &[u8]) -> (r: Option<Vec<Segment>>)
    ensures
        r is Some <==> segment_table(image@) is Some,
        r matches Some(table) ==> segment_table(image@) == Some(table@),
{
    let file = object::File::parse(image).ok()?;
    let name_of = |s: &object::Segment| match s.name() {
        Ok(Some(name)) => SegmentName::Named(name.to_string()),
        Ok(None) => SegmentName::Unnamed,
        Err(e) => SegmentName::Unreadable(e.to_string()),
    };
    Some(file.segments().map(|s| Segment { name: name_of(&s), address: s.address() }).collect())
}

} // verus!
