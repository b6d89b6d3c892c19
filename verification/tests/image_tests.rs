use atosl::address::AddressMode;
use atosl::batch::{resolve_batch, Options};
use atosl::error::Error;
use atosl::image::{describe, init_file_obj, is_object_dwarf, read_container};
use atosl::object_data::SliceRange;
use atosl::select::{Container, SelectionFilter};
use atosl::symbolize::{
    dwarf_symbolize_address, load_files, load_subprograms, print_addresses, resolve_address, resolve_line,
    resolve_symbol, symbol_symbolize_address, ResolutionOutcome, ResolvedSymbol,
};
use atosl::debug_data::{program_is_readable, unit_is_readable};
use atosl::dwarf::{FileName, PcValue};
use atosl::uuid::Uuid;

const CPU_X86_64: u32 = 0x0100_0007;
const CPU_ARM64: u32 = 0x0100_000c;
const LOAD: u64 = 0x1_0000_0000;

fn name16(name: &str) -> [u8; 16] {
    let mut out = [0u8; 16];
    out[..name.len()].copy_from_slice(name.as_bytes());
    out
}

struct Image {
    cputype: u32,
    cpusubtype: u32,
    text_base: u64,
    symbols: Vec<(&'static str, u64)>,
    uuid: Option<[u8; 16]>,
    debug: Vec<(&'static str, Vec<u8>)>,
}

impl Image {
    fn new(cputype: u32) -> Image {
        Image { cputype, cpusubtype: 0, text_base: 0, symbols: Vec::new(), uuid: None, debug: Vec::new() }
    }

    fn build(&self) -> Vec<u8> {
        let text_size = 16u64;
        let has_debug = !self.debug.is_empty();
        let mut ncmds = 2u32;
        let mut sizeofcmds = (72 + 80) + 24;
        if has_debug {
            ncmds += 1;
            sizeofcmds += 72 + 80 * self.debug.len();
        }
        if self.uuid.is_some() {
            ncmds += 1;
            sizeofcmds += 24;
        }
        let text_offset = 32 + sizeofcmds as u64;
        let mut debug_offset = text_offset + text_size;
        let debug_total: u64 = self.debug.iter().map(|(_, d)| d.len() as u64).sum();
        let symoff = debug_offset + debug_total;
        let mut strings: Vec<u8> = vec![0];
        let mut nlist: Vec<u8> = Vec::new();
        for (name, address) in &self.symbols {
            nlist.extend((strings.len() as u32).to_le_bytes());
            nlist.extend([0x0f, 1]);
            nlist.extend(0u16.to_le_bytes());
            nlist.extend(address.to_le_bytes());
            strings.extend(name.as_bytes());
            strings.push(0);
        }
        let stroff = symoff + nlist.len() as u64;

        let mut out: Vec<u8> = Vec::new();
        out.extend(0xfeed_facfu32.to_le_bytes());
        out.extend(self.cputype.to_le_bytes());
        out.extend(self.cpusubtype.to_le_bytes());
        out.extend(2u32.to_le_bytes());
        out.extend(ncmds.to_le_bytes());
        out.extend((sizeofcmds as u32).to_le_bytes());
        out.extend(0u32.to_le_bytes());
        out.extend(0u32.to_le_bytes());

        out.extend(0x19u32.to_le_bytes());
        out.extend((72u32 + 80).to_le_bytes());
        out.extend(name16("__TEXT"));
        out.extend(self.text_base.to_le_bytes());
        out.extend(0x10_0000u64.to_le_bytes());
        out.extend(0u64.to_le_bytes());
        out.extend((text_offset + text_size).to_le_bytes());
        out.extend(5u32.to_le_bytes());
        out.extend(5u32.to_le_bytes());
        out.extend(1u32.to_le_bytes());
        out.extend(0u32.to_le_bytes());
        out.extend(name16("__text"));
        out.extend(name16("__TEXT"));
        out.extend((self.text_base + 0x1000).to_le_bytes());
        out.extend(text_size.to_le_bytes());
        out.extend((text_offset as u32).to_le_bytes());
        out.extend([0u8; 28]);

        if has_debug {
            out.extend(0x19u32.to_le_bytes());
            out.extend((72u32 + 80 * self.debug.len() as u32).to_le_bytes());
            out.extend(name16("__DWARF"));
            out.extend((self.text_base + 0x20_0000).to_le_bytes());
            out.extend(debug_total.to_le_bytes());
            out.extend(debug_offset.to_le_bytes());
            out.extend(debug_total.to_le_bytes());
            out.extend(3u32.to_le_bytes());
            out.extend(3u32.to_le_bytes());
            out.extend((self.debug.len() as u32).to_le_bytes());
            out.extend(0u32.to_le_bytes());
            for (name, data) in &self.debug {
                out.extend(name16(name));
                out.extend(name16("__DWARF"));
                out.extend((self.text_base + 0x20_0000 + debug_offset).to_le_bytes());
                out.extend((data.len() as u64).to_le_bytes());
                out.extend((debug_offset as u32).to_le_bytes());
                out.extend([0u8; 28]);
                debug_offset += data.len() as u64;
            }
        }

        out.extend(2u32.to_le_bytes());
        out.extend(24u32.to_le_bytes());
        out.extend((symoff as u32).to_le_bytes());
        out.extend((self.symbols.len() as u32).to_le_bytes());
        out.extend((stroff as u32).to_le_bytes());
        out.extend((strings.len() as u32).to_le_bytes());

        if let Some(uuid) = self.uuid {
            out.extend(0x1bu32.to_le_bytes());
            out.extend(24u32.to_le_bytes());
            out.extend(uuid);
        }

        assert_eq!(out.len() as u64, text_offset);
        out.extend([0x90u8; 16]);
        for (_, data) in &self.debug {
            out.extend(data);
        }
        out.extend(nlist);
        out.extend(strings);
        out
    }
}

fn fat(slices: &[(u32, u32, Vec<u8>)]) -> Vec<u8> {
    let mut out: Vec<u8> = Vec::new();
    out.extend(0xcafe_babeu32.to_be_bytes());
    out.extend((slices.len() as u32).to_be_bytes());
    let mut offset = 0x100u32;
    for (cputype, cpusubtype, data) in slices {
        out.extend(cputype.to_be_bytes());
        out.extend(cpusubtype.to_be_bytes());
        out.extend(offset.to_be_bytes());
        out.extend((data.len() as u32).to_be_bytes());
        out.extend(4u32.to_be_bytes());
        offset += (data.len() as u32 + 15) / 16 * 16;
    }
    let mut offset = 0x100usize;
    for (_, _, data) in slices {
        out.resize(offset, 0);
        out.extend(data);
        offset += (data.len() + 15) / 16 * 16;
    }
    out
}

fn fat64(slices: &[(u32, u32, Vec<u8>)]) -> Vec<u8> {
    let mut out: Vec<u8> = Vec::new();
    out.extend(0xcafe_babfu32.to_be_bytes());
    out.extend((slices.len() as u32).to_be_bytes());
    let mut offset = 0x100u64;
    for (cputype, cpusubtype, data) in slices {
        out.extend(cputype.to_be_bytes());
        out.extend(cpusubtype.to_be_bytes());
        out.extend(offset.to_be_bytes());
        out.extend((data.len() as u64).to_be_bytes());
        out.extend(4u32.to_be_bytes());
        out.extend(0u32.to_be_bytes());
        offset += (data.len() as u64 + 15) / 16 * 16;
    }
    let mut offset = 0x100usize;
    for (_, _, data) in slices {
        out.resize(offset, 0);
        out.extend(data);
        offset += (data.len() + 15) / 16 * 16;
    }
    out
}

fn uleb(mut value: u64) -> Vec<u8> {
    let mut out = Vec::new();
    loop {
        let byte = (value & 0x7f) as u8;
        value >>= 7;
        if value == 0 {
            out.push(byte);
            return out;
        }
        out.push(byte | 0x80);
    }
}

fn debug_abbrev() -> Vec<u8> {
    vec![
        1, 0x11, 1, 0x03, 0x08, 0x10, 0x17, 0x11, 0x01, 0, 0, // compile unit: name, stmt_list, low_pc
        2, 0x2e, 0, 0x03, 0x08, 0x11, 0x01, 0x12, 0x06, 0, 0, // subprogram: name, low_pc, high_pc as size
        3, 0x2e, 0, 0x03, 0x08, 0x11, 0x01, 0x12, 0x01, 0, 0, // subprogram: name, low_pc, high_pc as address
        4, 0x2e, 0, 0x11, 0x01, 0x12, 0x06, 0, 0, // subprogram without a name
        5, 0x34, 0, 0x03, 0x08, 0, 0, // variable: name
        6, 0x2e, 0, 0x03, 0x1a, 0x11, 0x01, 0x12, 0x06, 0, 0, // subprogram: name as an index, low_pc, high_pc as size
        0,
    ]
}

enum Die {
    Sized(&'static str, u64, u32),
    Bounded(&'static str, u64, u64),
    Nameless(u64, u32),
    Variable(&'static str),
    Indexed(u64, u64, u32),
}

fn debug_info(unit_name: &str, dies: &[Die]) -> Vec<u8> {
    let mut body: Vec<u8> = Vec::new();
    body.extend(4u16.to_le_bytes());
    body.extend(0u32.to_le_bytes());
    body.push(8);
    body.push(1);
    body.extend(unit_name.as_bytes());
    body.push(0);
    body.extend(0u32.to_le_bytes());
    body.extend(0x1000u64.to_le_bytes());
    for die in dies {
        match die {
            Die::Sized(name, low, size) => {
                body.push(2);
                body.extend(name.as_bytes());
                body.push(0);
                body.extend(low.to_le_bytes());
                body.extend(size.to_le_bytes());
            }
            Die::Bounded(name, low, high) => {
                body.push(3);
                body.extend(name.as_bytes());
                body.push(0);
                body.extend(low.to_le_bytes());
                body.extend(high.to_le_bytes());
            }
            Die::Nameless(low, size) => {
                body.push(4);
                body.extend(low.to_le_bytes());
                body.extend(size.to_le_bytes());
            }
            Die::Variable(name) => {
                body.push(5);
                body.extend(name.as_bytes());
                body.push(0);
            }
            Die::Indexed(index, low, size) => {
                body.push(6);
                body.extend(uleb(*index));
                body.extend(low.to_le_bytes());
                body.extend(size.to_le_bytes());
            }
        }
    }
    body.push(0);
    let mut out: Vec<u8> = Vec::new();
    out.extend((body.len() as u32).to_le_bytes());
    out.extend(body);
    out
}

enum Op {
    SetAddress(u64),
    SetFile(u64),
    AdvanceLine(i8),
    Copy,
    EndSequence,
    Raw(Vec<u8>),
}

fn debug_line(file_names: &[&str], program: &[Op]) -> Vec<u8> {
    let mut header: Vec<u8> = vec![1, 1, 1, 0xfb, 14, 13];
    header.extend([0, 1, 1, 1, 1, 0, 0, 0, 1, 0, 0, 1]);
    header.push(0);
    for name in file_names {
        header.extend(name.as_bytes());
        header.extend([0, 0, 0, 0]);
    }
    header.push(0);
    let mut ops: Vec<u8> = Vec::new();
    for op in program {
        match op {
            Op::SetAddress(address) => {
                ops.extend([0, 9, 2]);
                ops.extend(address.to_le_bytes());
            }
            Op::SetFile(index) => {
                ops.push(4);
                ops.extend(uleb(*index));
            }
            Op::AdvanceLine(delta) => {
                ops.push(3);
                ops.push((*delta as u8) & 0x7f);
            }
            Op::Copy => ops.push(1),
            Op::EndSequence => ops.extend([0, 1, 1]),
            Op::Raw(bytes) => ops.extend(bytes),
        }
    }
    let mut body: Vec<u8> = Vec::new();
    body.extend(4u16.to_le_bytes());
    body.extend((header.len() as u32).to_le_bytes());
    body.extend(header);
    body.extend(ops);
    let mut out: Vec<u8> = Vec::new();
    out.extend((body.len() as u32).to_le_bytes());
    out.extend(body);
    out
}

fn debug_aranges(ranges: &[(u64, u64)]) -> Vec<u8> {
    debug_aranges_behind(0, ranges)
}

fn debug_aranges_behind(zero_entries: usize, ranges: &[(u64, u64)]) -> Vec<u8> {
    let mut body: Vec<u8> = Vec::new();
    body.extend(2u16.to_le_bytes());
    body.extend(0u32.to_le_bytes());
    body.extend([8, 0]);
    body.extend([0u8; 4]);
    body.resize(body.len() + 16 * zero_entries, 0);
    for (begin, length) in ranges {
        body.extend(begin.to_le_bytes());
        body.extend(length.to_le_bytes());
    }
    body.extend([0u8; 16]);
    let mut out: Vec<u8> = Vec::new();
    out.extend((body.len() as u32).to_le_bytes());
    out.extend(body);
    out
}

fn symbols_only() -> Vec<u8> {
    let mut image = Image::new(CPU_X86_64);
    image.symbols = vec![("_main", 0x1000), ("_helper", 0x1800)];
    image.build()
}

fn with_debug_data() -> Vec<u8> {
    let mut image = Image::new(CPU_ARM64);
    image.symbols = vec![("_main", 0x1000), ("_other", 0x2000)];
    image.debug = vec![
        ("__debug_abbrev", debug_abbrev()),
        ("__debug_info", debug_info(
            "main.c",
            &[Die::Variable("counter"), Die::Sized("main", 0x1000, 0x40), Die::Bounded("_ZN3foo3barEv", 0x1040, 0x1080)],
        )),
        ("__debug_line", debug_line(
            &["main.c", "foo.cc"],
            &[
                Op::SetAddress(0x1000),
                Op::AdvanceLine(9),
                Op::Copy,
                Op::SetAddress(0x1010),
                Op::AdvanceLine(1),
                Op::Copy,
                Op::SetAddress(0x1040),
                Op::SetFile(2),
                Op::AdvanceLine(20),
                Op::Copy,
                Op::SetAddress(0x1080),
                Op::EndSequence,
            ],
        )),
        ("__debug_aranges", debug_aranges(&[(0x1000, 0x80)])),
    ];
    image.build()
}

fn no_filter() -> SelectionFilter {
    SelectionFilter::none()
}

fn options(architecture: Option<&str>, identifier: Option<&str>) -> Options {
    Options {
        address_mode: AddressMode::Virtual,
        architecture_filter: architecture.map(|s| s.to_string()),
        identifier_filter: identifier.map(|s| s.to_string()),
        verbose: false,
    }
}

#[test]
fn symbol_table_only_image_resolves_main_plus_16() {
    let bytes = symbols_only();
    let object = init_file_obj("RxDemo", &bytes, &no_filter()).unwrap();
    assert!(!is_object_dwarf(&object));
    let lines = print_addresses(&object, LOAD, &vec![0x1_0000_1010], AddressMode::Virtual).unwrap();
    assert_eq!(lines, vec!["_main (in RxDemo) + 16".to_string()]);
}

#[test]
fn image_linked_at_its_load_address_resolves_main_plus_16() {
    let mut image = Image::new(CPU_X86_64);
    image.text_base = LOAD;
    image.symbols = vec![("_main", 0x1_0000_1000)];
    let bytes = image.build();
    let lines = resolve_batch("app", &bytes, LOAD, &vec![0x1_0000_1010], &options(None, None)).unwrap();
    assert_eq!(lines, vec!["_main (in app) + 16".to_string()]);
}

#[test]
fn address_below_the_load_address_is_not_available() {
    let bytes = symbols_only();
    let lines = resolve_batch("RxDemo", &bytes, LOAD, &vec![0xffff_ffff, 0x1_0000_1010, 0], &options(None, None)).unwrap();
    assert_eq!(
        lines,
        vec![
            "N/A - address is smaller than load address".to_string(),
            "_main (in RxDemo) + 16".to_string(),
            "N/A - address is smaller than load address".to_string(),
        ]
    );
}

#[test]
fn address_below_every_symbol_is_not_found() {
    let bytes = symbols_only();
    let lines = resolve_batch("RxDemo", &bytes, LOAD, &vec![LOAD + 0xfff], &options(None, None)).unwrap();
    assert_eq!(lines, vec!["N/A - failed search symbol".to_string()]);
}

#[test]
fn lines_come_in_the_order_of_the_addresses() {
    let bytes = symbols_only();
    let addresses = vec![LOAD + 0x1900, LOAD + 0x1000, LOAD + 0x17ff];
    let lines = resolve_batch("a.out", &bytes, LOAD, &addresses, &options(None, None)).unwrap();
    assert_eq!(
        lines,
        vec![
            "_helper (in a.out) + 256".to_string(),
            "_main (in a.out) + 0".to_string(),
            "_main (in a.out) + 2047".to_string(),
        ]
    );
    assert!(resolve_batch("a.out", &bytes, LOAD, &Vec::new(), &options(None, None)).unwrap().is_empty());
}

#[test]
fn resolve_symbol_gives_name_image_and_offset() {
    let mut image = Image::new(CPU_X86_64);
    image.symbols = vec![("_main", 0x1000), ("__ZN3std2io4Read11read_to_end17hb85a0f6802e14499E", 0x2000)];
    let bytes = image.build();
    let object = init_file_obj("app", &bytes, &no_filter()).unwrap();
    assert_eq!(resolve_symbol(object.symbols(), "app", 0x1010).unwrap(), ResolvedSymbol {
        display_name: "_main".to_string(),
        defining_image_name: "app".to_string(),
        byte_offset: 16,
    });
    assert_eq!(
        resolve_symbol(object.symbols(), "other", 0x2000).unwrap().render(),
        "std::io::Read::read_to_end (in other) + 0"
    );
    assert!(matches!(resolve_symbol(object.symbols(), "app", 0xfff), Err(Error::NotFound)));
    assert!(matches!(resolve_symbol(object.symbols(), "app", 0), Err(Error::NotFound)));
}

#[test]
fn nearest_symbol_at_or_below_whatever_the_order_in_the_image() {
    let mut image = Image::new(CPU_X86_64);
    image.symbols = vec![("_d", 0x5000), ("_a", 0x1000), ("_c", 0x3000), ("_b", 0x2000)];
    let bytes = image.build();
    let object = init_file_obj("app", &bytes, &no_filter()).unwrap();
    let symbols = [(0x1000u64, "_a"), (0x2000, "_b"), (0x3000, "_c"), (0x5000, "_d")];
    for query in (0x0f00..0x5200u64).step_by(0x80) {
        let expected = symbols.iter().rev().find(|(address, _)| *address <= query);
        match (resolve_symbol(object.symbols(), "app", query), expected) {
            (Ok(found), Some((address, name))) => {
                assert_eq!(found.display_name, *name);
                assert_eq!(found.byte_offset, query - address);
            }
            (Err(Error::NotFound), None) => {}
            other => panic!("{:#x}: {:?}", query, other),
        }
    }
    assert_eq!(resolve_symbol(object.symbols(), "app", u64::MAX).unwrap().display_name, "_d");
}

#[test]
fn of_symbols_with_one_address_one_is_found() {
    let mut image = Image::new(CPU_X86_64);
    image.symbols = vec![("_first", 0x1000), ("_alias", 0x2000), ("_twin", 0x2000), ("_last", 0x3000)];
    let bytes = image.build();
    let object = init_file_obj("app", &bytes, &no_filter()).unwrap();
    for query in [0x2000u64, 0x2004, 0x2fff] {
        let found = resolve_symbol(object.symbols(), "app", query).unwrap();
        assert!(found.display_name == "_alias" || found.display_name == "_twin");
        assert_eq!(found.byte_offset, query - 0x2000);
    }
}

#[test]
fn image_without_symbols_finds_nothing() {
    let bytes = Image::new(CPU_X86_64).build();
    let object = init_file_obj("app", &bytes, &no_filter()).unwrap();
    assert!(matches!(resolve_symbol(object.symbols(), "app", 0x1000), Err(Error::NotFound)));
    let lines = print_addresses(&object, 0, &vec![0x1000], AddressMode::Virtual).unwrap();
    assert_eq!(lines, vec!["N/A - failed search symbol".to_string()]);
}

#[test]
fn file_offset_mode_leaves_the_code_base_out() {
    let mut image = Image::new(CPU_X86_64);
    image.text_base = 0x4000;
    image.symbols = vec![("_low", 0x100), ("_main", 0x4100)];
    let bytes = image.build();
    let object = init_file_obj("app", &bytes, &no_filter()).unwrap();
    let lines = print_addresses(&object, LOAD, &vec![LOAD + 0x110], AddressMode::Virtual).unwrap();
    assert_eq!(lines, vec!["_main (in app) + 16".to_string()]);
    let lines = print_addresses(&object, LOAD, &vec![LOAD + 0x110], AddressMode::FileOffset).unwrap();
    assert_eq!(lines, vec!["_low (in app) + 16".to_string()]);
}

#[test]
fn overflow_of_the_sum_is_not_available() {
    let mut image = Image::new(CPU_X86_64);
    image.text_base = 0x4000;
    image.symbols = vec![("_main", 0x4100)];
    let bytes = image.build();
    let lines = resolve_batch("app", &bytes, 0, &vec![u64::MAX], &options(None, None)).unwrap();
    assert_eq!(lines, vec!["N/A - address does not fit with the base of the code segment".to_string()]);
}

#[test]
fn debug_data_then_symbol_table_in_one_batch() {
    let bytes = with_debug_data();
    let object = init_file_obj("app", &bytes, &no_filter()).unwrap();
    assert!(is_object_dwarf(&object));
    let addresses = vec![LOAD + 0x1008, LOAD + 0x2010];
    let lines = print_addresses(&object, LOAD, &addresses, AddressMode::Virtual).unwrap();
    assert_eq!(lines, vec!["main (in app) (main.c:10)".to_string(), "_other (in app) + 16".to_string()]);
}

#[test]
fn debug_data_gives_subprogram_file_and_line() {
    let bytes = with_debug_data();
    let object = init_file_obj("app", &bytes, &no_filter()).unwrap();
    let line = resolve_line(&object, 0x1010).unwrap();
    assert_eq!(line.display_name, "main");
    assert_eq!(line.defining_image_name, "app");
    assert_eq!(line.source_file, "main.c");
    assert_eq!(line.line_number, 11);
    let line = dwarf_symbolize_address(&object, LOAD, LOAD + 0x1050, 0, AddressMode::Virtual).unwrap();
    assert_eq!(line.render(), "foo::bar() (in app) (foo.cc:31)");
    assert!(resolve_line(&object, 0x1080).is_none());
    assert!(resolve_line(&object, 0x2010).is_none());
    assert!(resolve_line(&object, 0).is_none());
}

#[test]
fn outcome_is_a_line_or_a_symbol_never_both() {
    let bytes = with_debug_data();
    let object = init_file_obj("app", &bytes, &no_filter()).unwrap();
    assert!(matches!(resolve_address(&object, LOAD, LOAD + 0x1008, 0, AddressMode::Virtual), ResolutionOutcome::Line(_)));
    assert!(matches!(resolve_address(&object, LOAD, LOAD + 0x2010, 0, AddressMode::Virtual), ResolutionOutcome::Symbol(_)));
    assert!(matches!(resolve_address(&object, LOAD, LOAD + 0x10, 0, AddressMode::Virtual), ResolutionOutcome::Unresolved(Error::NotFound)));
    assert!(matches!(resolve_address(&object, LOAD, 5, 0, AddressMode::Virtual), ResolutionOutcome::Unresolved(Error::InvalidAddress(_))));
    let symbol = symbol_symbolize_address(&object, LOAD, LOAD + 0x1008, 0, AddressMode::Virtual).unwrap();
    assert_eq!(symbol.render(), "_main (in app) + 8");
}

#[test]
fn subprograms_and_files_of_the_unit() {
    let bytes = with_debug_data();
    let object = init_file_obj("app", &bytes, &no_filter()).unwrap();
    let subprograms = load_subprograms(object.sections(), 0);
    assert_eq!(subprograms.len(), 2);
    assert_eq!(subprograms[0].low, PcValue::Address(0x1000));
    assert_eq!(subprograms[0].high, PcValue::Size(0x40));
    assert_eq!(subprograms[1].low, PcValue::Address(0x1040));
    assert_eq!(subprograms[1].high, PcValue::Address(0x1080));
    let files = load_files(object.sections(), 0);
    assert_eq!(
        files,
        vec![FileName::Name("main.c".to_string()), FileName::Name("main.c".to_string()), FileName::Name("foo.cc".to_string())]
    );
    assert!(load_subprograms(object.sections(), 7).is_empty());
    assert!(load_files(object.sections(), 7).is_empty());
}

#[test]
fn subprogram_without_a_name_falls_back_to_the_symbol_table() {
    let mut image = Image::new(CPU_ARM64);
    image.symbols = vec![("_main", 0x1000)];
    image.debug = vec![
        ("__debug_abbrev", debug_abbrev()),
        ("__debug_info", debug_info("main.c", &[Die::Nameless(0x1000, 0x40), Die::Sized("late", 0x1000, 0x40)])),
        ("__debug_line", debug_line(
            &["main.c"],
            &[Op::SetAddress(0x1000), Op::AdvanceLine(4), Op::Copy, Op::SetAddress(0x1040), Op::EndSequence],
        )),
        ("__debug_aranges", debug_aranges(&[(0x1000, 0x40)])),
    ];
    let bytes = image.build();
    let lines = resolve_batch("app", &bytes, LOAD, &vec![LOAD + 0x1004], &options(None, None)).unwrap();
    assert_eq!(lines, vec!["_main (in app) + 4".to_string()]);
}

#[test]
fn address_outside_the_address_ranges_falls_back() {
    let mut image = Image::new(CPU_ARM64);
    image.symbols = vec![("_main", 0x1000)];
    image.debug = vec![
        ("__debug_abbrev", debug_abbrev()),
        ("__debug_info", debug_info("main.c", &[Die::Sized("main", 0x1000, 0x40)])),
        ("__debug_line", debug_line(
            &["main.c"],
            &[Op::SetAddress(0x1000), Op::AdvanceLine(4), Op::Copy, Op::SetAddress(0x1040), Op::EndSequence],
        )),
        ("__debug_aranges", debug_aranges(&[(0x1000, 0x20)])),
    ];
    let bytes = image.build();
    let addresses = vec![LOAD + 0x1004, LOAD + 0x1024];
    let lines = resolve_batch("app", &bytes, LOAD, &addresses, &options(None, None)).unwrap();
    assert_eq!(lines, vec!["main (in app) (main.c:5)".to_string(), "_main (in app) + 36".to_string()]);
}

fn plain_program() -> Vec<Op> {
    vec![Op::SetAddress(0x1000), Op::AdvanceLine(4), Op::Copy, Op::SetAddress(0x1040), Op::EndSequence]
}

fn image_with(info: Vec<u8>, abbrev: Vec<u8>, program: &[Op]) -> Vec<u8> {
    let mut image = Image::new(CPU_ARM64);
    image.symbols = vec![("_main", 0x1000)];
    image.debug = vec![
        ("__debug_abbrev", abbrev),
        ("__debug_info", info),
        ("__debug_line", debug_line(&["main.c"], program)),
        ("__debug_aranges", debug_aranges(&[(0x1000, 0x40)])),
    ];
    image.build()
}

fn image_behind_zero_entries(zero_entries: usize) -> Vec<u8> {
    let mut image = Image::new(CPU_ARM64);
    image.symbols = vec![("_main", 0x1000)];
    image.debug = vec![
        ("__debug_abbrev", debug_abbrev()),
        ("__debug_info", debug_info("main.c", &[Die::Sized("main", 0x1000, 0x40)])),
        ("__debug_line", debug_line(&["main.c"], &plain_program())),
        ("__debug_aranges", debug_aranges_behind(zero_entries, &[(0x1000, 0x40)])),
    ];
    image.build()
}

#[test]
fn address_ranges_behind_a_few_entries_of_zeros_are_read() {
    for zero_entries in [0, 1, 200, 255] {
        let bytes = image_behind_zero_entries(zero_entries);
        let object = init_file_obj("app", &bytes, &no_filter()).unwrap();
        assert_eq!(object.aranges().len(), 1);
        let lines = print_addresses(&object, LOAD, &vec![LOAD + 0x1004], AddressMode::Virtual).unwrap();
        assert_eq!(lines, vec!["main (in app) (main.c:5)".to_string()]);
    }
}

#[test]
fn address_ranges_with_a_long_run_of_zeros_are_not_read() {
    for zero_entries in [256, 300, 100_000] {
        let bytes = image_behind_zero_entries(zero_entries);
        let object = init_file_obj("app", &bytes, &no_filter()).unwrap();
        assert!(object.aranges().is_empty());
        let lines = print_addresses(&object, LOAD, &vec![LOAD + 0x1004], AddressMode::Virtual).unwrap();
        assert_eq!(lines, vec!["_main (in app) + 4".to_string()]);
    }
}

#[test]
fn program_that_advances_the_line_by_the_least_number_is_not_run() {
    let mut least = vec![3u8];
    least.extend([0x80u8; 9]);
    least.push(0x7f);
    let program = vec![
        Op::SetAddress(0x1000),
        Op::AdvanceLine(4),
        Op::Copy,
        Op::Raw(least),
        Op::SetAddress(0x1040),
        Op::EndSequence,
    ];
    let bytes = image_with(debug_info("main.c", &[Die::Sized("main", 0x1000, 0x40)]), debug_abbrev(), &program);
    let object = init_file_obj("app", &bytes, &no_filter()).unwrap();
    assert!(unit_is_readable(object.sections(), 0));
    assert!(!program_is_readable(object.sections(), 0));
    assert!(load_files(object.sections(), 0).is_empty());
    assert_eq!(load_subprograms(object.sections(), 0).len(), 1);
    assert!(resolve_line(&object, 0x1004).is_none());
    let lines = print_addresses(&object, LOAD, &vec![LOAD + 0x1004], AddressMode::Virtual).unwrap();
    assert_eq!(lines, vec!["_main (in app) + 4".to_string()]);
}

#[test]
fn program_that_advances_the_line_backwards_is_run() {
    let program = vec![
        Op::SetAddress(0x1000),
        Op::AdvanceLine(9),
        Op::Copy,
        Op::SetAddress(0x1010),
        Op::AdvanceLine(-3),
        Op::Copy,
        Op::SetAddress(0x1040),
        Op::EndSequence,
    ];
    let bytes = image_with(debug_info("main.c", &[Die::Sized("main", 0x1000, 0x40)]), debug_abbrev(), &program);
    let object = init_file_obj("app", &bytes, &no_filter()).unwrap();
    assert!(program_is_readable(object.sections(), 0));
    let lines = print_addresses(&object, LOAD, &vec![LOAD + 0x1004, LOAD + 0x1014], AddressMode::Virtual).unwrap();
    assert_eq!(lines, vec!["main (in app) (main.c:10)".to_string(), "main (in app) (main.c:7)".to_string()]);
}

#[test]
fn unit_whose_name_is_an_index_out_of_range_is_not_set_up() {
    let abbrev = vec![1, 0x11, 0, 0x03, 0x1a, 0, 0, 0];
    let mut body: Vec<u8> = Vec::new();
    body.extend(4u16.to_le_bytes());
    body.extend(0u32.to_le_bytes());
    body.push(8);
    body.push(1);
    body.extend(uleb(u64::MAX));
    let mut info: Vec<u8> = Vec::new();
    info.extend((body.len() as u32).to_le_bytes());
    info.extend(body);
    let bytes = image_with(info, abbrev, &plain_program());
    let object = init_file_obj("app", &bytes, &no_filter()).unwrap();
    assert!(!unit_is_readable(object.sections(), 0));
    assert!(!program_is_readable(object.sections(), 0));
    assert!(load_subprograms(object.sections(), 0).is_empty());
    assert!(load_files(object.sections(), 0).is_empty());
    let lines = print_addresses(&object, LOAD, &vec![LOAD + 0x1004], AddressMode::Virtual).unwrap();
    assert_eq!(lines, vec!["_main (in app) + 4".to_string()]);
}

#[test]
fn unit_that_is_not_there_is_readable_and_empty() {
    let bytes = with_debug_data();
    let object = init_file_obj("app", &bytes, &no_filter()).unwrap();
    assert!(unit_is_readable(object.sections(), 7));
    assert!(program_is_readable(object.sections(), 7));
    assert!(unit_is_readable(object.sections(), 0));
    assert!(program_is_readable(object.sections(), 0));
}

#[test]
fn subprogram_whose_name_is_an_index_out_of_range_has_no_name() {
    for index in [u64::MAX, 1 << 56, 0] {
        let info = debug_info("main.c", &[Die::Indexed(index, 0x1000, 0x40)]);
        let bytes = image_with(info, debug_abbrev(), &plain_program());
        let object = init_file_obj("app", &bytes, &no_filter()).unwrap();
        assert!(unit_is_readable(object.sections(), 0));
        assert_eq!(load_subprograms(object.sections(), 0).len(), 1);
        assert!(resolve_line(&object, 0x1004).is_none());
        let lines = print_addresses(&object, LOAD, &vec![LOAD + 0x1004], AddressMode::Virtual).unwrap();
        assert_eq!(lines, vec!["_main (in app) + 4".to_string()]);
    }
}

fn pe_image(image_base: u64, symbols: &[(&str, u32)]) -> Vec<u8> {
    let section_table = 0x40 + 4 + 20 + 240;
    let text_offset = section_table + 40;
    let symbol_offset = text_offset + 16;
    let mut out: Vec<u8> = vec![0; 0x40];
    out[0] = b'M';
    out[1] = b'Z';
    out[0x3c] = 0x40;
    out.extend(b"PE\0\0");
    out.extend(0x8664u16.to_le_bytes());
    out.extend(1u16.to_le_bytes());
    out.extend(0u32.to_le_bytes());
    out.extend((symbol_offset as u32).to_le_bytes());
    out.extend((symbols.len() as u32).to_le_bytes());
    out.extend(240u16.to_le_bytes());
    out.extend(0x22u16.to_le_bytes());
    let mut optional: Vec<u8> = Vec::new();
    optional.extend(0x20bu16.to_le_bytes());
    optional.extend([0u8; 22]);
    optional.extend(image_base.to_le_bytes());
    optional.extend(0x1000u32.to_le_bytes());
    optional.extend(0x200u32.to_le_bytes());
    optional.extend([0u8; 16]);
    optional.extend(0x2000u32.to_le_bytes());
    optional.extend((text_offset as u32).to_le_bytes());
    optional.extend([0u8; 4]);
    optional.extend(3u16.to_le_bytes());
    optional.extend([0u8; 2 + 32 + 4]);
    optional.extend(16u32.to_le_bytes());
    optional.extend([0u8; 128]);
    assert_eq!(optional.len(), 240);
    out.extend(optional);
    out.extend(b".text\0\0\0");
    out.extend(16u32.to_le_bytes());
    out.extend(0x1000u32.to_le_bytes());
    out.extend(16u32.to_le_bytes());
    out.extend((text_offset as u32).to_le_bytes());
    out.extend([0u8; 12]);
    out.extend(0x6000_0020u32.to_le_bytes());
    assert_eq!(out.len(), text_offset);
    out.extend([0x90u8; 16]);
    for (name, value) in symbols {
        let mut short = [0u8; 8];
        short[..name.len()].copy_from_slice(name.as_bytes());
        out.extend(short);
        out.extend(value.to_le_bytes());
        out.extend(1u16.to_le_bytes());
        out.extend(0x20u16.to_le_bytes());
        out.extend([2, 0]);
    }
    out.extend(4u32.to_le_bytes());
    out
}

#[test]
fn image_with_a_base_has_its_symbols_above_the_base() {
    let bytes = pe_image(0x1_4000_0000, &[("main", 0x10), ("helper", 0x80)]);
    let object = init_file_obj("app.exe", &bytes, &no_filter()).unwrap();
    assert_eq!(object.slice().architecture, "x86_64");
    let addresses = vec![0x1_4000_1018, 0x1_4000_1080, 0x1_4000_100f];
    let lines = print_addresses(&object, 0, &addresses, AddressMode::Virtual).unwrap();
    assert_eq!(
        lines,
        vec![
            "main (in app.exe) + 8".to_string(),
            "helper (in app.exe) + 0".to_string(),
            "N/A - failed search symbol".to_string(),
        ]
    );
}

#[test]
fn image_whose_base_leaves_no_room_for_its_symbols_is_a_parse_error() {
    for base in [u64::MAX, 0xffff_fffe_0000_0002] {
        let bytes = pe_image(base, &[("main", 0x10)]);
        match init_file_obj("app.exe", &bytes, &no_filter()) {
            Err(e) => assert_eq!(e.message(), "cannot read the object file: image base out of range"),
            Ok(_) => panic!("{:#x}", base),
        }
    }
    let bytes = pe_image(0xffff_fffe_0000_0001, &[("main", 0x10)]);
    assert!(init_file_obj("app.exe", &bytes, &no_filter()).is_ok());
}

#[test]
fn line_section_alone_makes_the_image_rich() {
    let mut image = Image::new(CPU_ARM64);
    image.symbols = vec![("_main", 0x1000)];
    image.debug = vec![("__debug_line", Vec::new())];
    let bytes = image.build();
    let object = init_file_obj("app", &bytes, &no_filter()).unwrap();
    assert!(is_object_dwarf(&object));
    let lines = print_addresses(&object, LOAD, &vec![LOAD + 0x1001], AddressMode::Virtual).unwrap();
    assert_eq!(lines, vec!["_main (in app) + 1".to_string()]);
}

#[test]
fn bytes_that_are_no_image_are_a_parse_error() {
    for bytes in [Vec::new(), vec![0u8; 64], b"not an object file at all".to_vec()] {
        assert!(matches!(init_file_obj("x", &bytes, &no_filter()), Err(Error::Parse(_))));
        assert!(matches!(resolve_batch("x", &bytes, 0, &vec![1], &options(None, None)), Err(Error::Parse(_))));
    }
}

#[test]
fn parse_error_carries_the_message_of_the_object_crate() {
    match init_file_obj("x", &[0u8; 64], &no_filter()) {
        Err(e) => assert_eq!(e.message(), "cannot read the object file: Unknown file magic"),
        Ok(_) => panic!("an image of zeros"),
    }
}

fn elf_image(symbols: &[(&str, u64)]) -> Vec<u8> {
    elf_image_with(symbols, None)
}

fn elf_image_with(symbols: &[(&str, u64)], declared: Option<u64>) -> Vec<u8> {
    let text = [0x90u8; 32];
    let mut strtab: Vec<u8> = vec![0];
    let mut symtab: Vec<u8> = vec![0; 24];
    for (name, address) in symbols {
        symtab.extend((strtab.len() as u32).to_le_bytes());
        symtab.extend([0x12, 0]);
        symtab.extend(1u16.to_le_bytes());
        symtab.extend(address.to_le_bytes());
        symtab.extend(8u64.to_le_bytes());
        strtab.extend(name.as_bytes());
        strtab.push(0);
    }
    let mut packed: Vec<u8> = Vec::new();
    if let Some(size) = declared {
        packed.extend(1u32.to_le_bytes());
        packed.extend(0u32.to_le_bytes());
        packed.extend(size.to_le_bytes());
        packed.extend(1u64.to_le_bytes());
        packed.extend([0x78, 0x9c, 0x63, 0x00, 0x00, 0x00, 0x01, 0x00, 0x01]);
    }
    let shstrtab = b"\0.text\0.symtab\0.strtab\0.shstrtab\0.debug_info\0".to_vec();
    let text_offset = 64u64;
    let symtab_offset = text_offset + text.len() as u64;
    let strtab_offset = symtab_offset + symtab.len() as u64;
    let shstrtab_offset = strtab_offset + strtab.len() as u64;
    let packed_offset = shstrtab_offset + shstrtab.len() as u64;
    let shoff = packed_offset + packed.len() as u64;
    let count: u16 = if declared.is_some() { 6 } else { 5 };

    let mut out: Vec<u8> = vec![0x7f, b'E', b'L', b'F', 2, 1, 1, 0, 0, 0, 0, 0, 0, 0, 0, 0];
    out.extend(2u16.to_le_bytes());
    out.extend(62u16.to_le_bytes());
    out.extend(1u32.to_le_bytes());
    out.extend(0x40_1000u64.to_le_bytes());
    out.extend(0u64.to_le_bytes());
    out.extend(shoff.to_le_bytes());
    out.extend(0u32.to_le_bytes());
    out.extend(64u16.to_le_bytes());
    out.extend(56u16.to_le_bytes());
    out.extend(0u16.to_le_bytes());
    out.extend(64u16.to_le_bytes());
    out.extend(count.to_le_bytes());
    out.extend(4u16.to_le_bytes());
    out.extend(text);
    out.extend(&symtab);
    out.extend(&strtab);
    out.extend(&shstrtab);
    out.extend(&packed);

    let header = |name: u32, kind: u32, flags: u64, addr: u64, offset: u64, size: u64, link: u32, info: u32, entsize: u64| {
        let mut h: Vec<u8> = Vec::new();
        h.extend(name.to_le_bytes());
        h.extend(kind.to_le_bytes());
        h.extend(flags.to_le_bytes());
        h.extend(addr.to_le_bytes());
        h.extend(offset.to_le_bytes());
        h.extend(size.to_le_bytes());
        h.extend(link.to_le_bytes());
        h.extend(info.to_le_bytes());
        h.extend(1u64.to_le_bytes());
        h.extend(entsize.to_le_bytes());
        h
    };
    out.extend(header(0, 0, 0, 0, 0, 0, 0, 0, 0));
    out.extend(header(1, 1, 6, 0x40_1000, text_offset, text.len() as u64, 0, 0, 0));
    out.extend(header(7, 2, 0, 0, symtab_offset, symtab.len() as u64, 3, 1, 24));
    out.extend(header(15, 3, 0, 0, strtab_offset, strtab.len() as u64, 0, 0, 0));
    out.extend(header(23, 3, 0, 0, shstrtab_offset, shstrtab.len() as u64, 0, 0, 0));
    if declared.is_some() {
        out.extend(header(33, 1, 0x800, 0, packed_offset, packed.len() as u64, 0, 0, 0));
    }
    out
}

#[test]
fn compressed_section_is_uncompressed_to_the_size_it_declares() {
    let bytes = elf_image_with(&[("main", 0x40_1000)], Some(1));
    let object = init_file_obj("a.out", &bytes, &no_filter()).unwrap();
    assert_eq!(object.sections().section(".debug_info"), &[0u8][..]);
    assert!(object.sections().section(".debug_line").is_empty());
}

#[test]
fn compressed_section_that_declares_too_much_is_left_empty() {
    for declared in [u64::MAX, 1 << 63, 1 << 40, 1032 * 34] {
        let bytes = elf_image_with(&[("main", 0x40_1000)], Some(declared));
        let object = init_file_obj("a.out", &bytes, &no_filter()).unwrap();
        assert!(object.sections().section(".debug_info").is_empty(), "{:#x}", declared);
        let lines = print_addresses(&object, 0, &vec![0x40_1008], AddressMode::Virtual).unwrap();
        assert_eq!(lines, vec!["main (in a.out) + 8".to_string()]);
    }
}

#[test]
fn image_of_another_format_is_looked_up_by_its_symbols() {
    let bytes = elf_image(&[("main", 0x40_1000), ("_ZN3foo3barEv", 0x40_1010)]);
    match read_container(&bytes).unwrap() {
        Container::Single(image) => {
            assert_eq!(image.architecture, "x86_64");
            assert_eq!(image.identifier, None);
        }
        other => panic!("{:?}", other),
    }
    let object = init_file_obj("a.out", &bytes, &SelectionFilter { architecture: Some("amd64".to_string()), identifier: None }).unwrap();
    assert!(!is_object_dwarf(&object));
    assert!(object.segments().is_empty());
    let addresses = vec![0x40_1008, 0x40_1011, 0x40_0fff];
    let lines = print_addresses(&object, 0, &addresses, AddressMode::Virtual).unwrap();
    assert_eq!(
        lines,
        vec![
            "main (in a.out) + 8".to_string(),
            "foo::bar() (in a.out) + 1".to_string(),
            "N/A - failed search symbol".to_string(),
        ]
    );
}

fn uuid(last: u8) -> [u8; 16] {
    let mut bytes = [0xabu8; 16];
    bytes[15] = last;
    bytes
}

fn slice_image(cputype: u32, cpusubtype: u32, symbol: &'static str, id: Option<[u8; 16]>) -> Vec<u8> {
    let mut image = Image::new(cputype);
    image.cpusubtype = cpusubtype;
    image.symbols = vec![(symbol, 0x1000)];
    image.uuid = id;
    image.build()
}

fn two_slice_container() -> Vec<u8> {
    fat(&[
        (CPU_ARM64, 0, slice_image(CPU_ARM64, 0, "_on_arm", Some(uuid(1)))),
        (CPU_X86_64, 3, slice_image(CPU_X86_64, 3, "_on_intel", Some(uuid(2)))),
    ])
}

#[test]
fn container_lists_its_slices() {
    let bytes = two_slice_container();
    match read_container(&bytes).unwrap() {
        Container::Fat(slices) => {
            assert_eq!(slices.len(), 2);
            assert_eq!(slices[0].architecture, "arm64");
            assert_eq!(slices[0].identifier, Some(Uuid { bytes: uuid(1) }));
            assert_eq!(slices[0].offset, 0x100);
            assert_eq!(slices[1].architecture, "x86_64");
            assert_eq!(slices[1].identifier, Some(Uuid { bytes: uuid(2) }));
            assert_eq!(bytes.len() as u64, slices[1].offset + slices[1].size);
        }
        other => panic!("{:?}", other),
    }
}

#[test]
fn single_image_is_a_container_of_its_own() {
    let bytes = symbols_only();
    match read_container(&bytes).unwrap() {
        Container::Single(image) => {
            assert_eq!(image.architecture, "x86_64");
            assert_eq!(image.identifier, None);
            assert_eq!(image.offset, 0);
            assert_eq!(image.size, bytes.len() as u64);
        }
        other => panic!("{:?}", other),
    }
}

#[test]
fn wide_container_lists_its_slices() {
    let bytes = fat64(&[
        (CPU_X86_64, 3, slice_image(CPU_X86_64, 3, "_on_intel", Some(uuid(2)))),
        (CPU_ARM64, 0, slice_image(CPU_ARM64, 0, "_on_arm", None)),
    ]);
    match read_container(&bytes).unwrap() {
        Container::Fat(slices) => {
            assert_eq!(slices.len(), 2);
            assert_eq!(slices[0].architecture, "x86_64");
            assert_eq!(slices[0].offset, 0x100);
            assert_eq!(slices[1].architecture, "arm64");
            assert_eq!(slices[1].identifier, None);
        }
        other => panic!("{:?}", other),
    }
    let lines = resolve_batch("wide", &bytes, LOAD, &vec![LOAD + 0x1003], &options(Some("arm64"), None)).unwrap();
    assert_eq!(lines, vec!["_on_arm (in wide) + 3".to_string()]);
}

#[test]
fn empty_container_has_no_slice_to_choose() {
    let bytes = fat(&[]);
    match read_container(&bytes).unwrap() {
        Container::Fat(slices) => assert!(slices.is_empty()),
        other => panic!("{:?}", other),
    }
    let r = resolve_batch("none", &bytes, LOAD, &vec![LOAD], &options(None, None));
    match r {
        Err(Error::SelectionNoMatch(listed)) => assert!(listed.is_empty()),
        other => panic!("{:?}", other),
    }
}

#[test]
fn alias_filter_selects_the_arm64_slice() {
    let bytes = two_slice_container();
    let lines = resolve_batch("fat", &bytes, LOAD, &vec![LOAD + 0x1010], &options(Some("aarch64"), None)).unwrap();
    assert_eq!(lines, vec!["_on_arm (in fat) + 16".to_string()]);
    let lines = resolve_batch("fat", &bytes, LOAD, &vec![LOAD + 0x1010], &options(Some("amd64"), None)).unwrap();
    assert_eq!(lines, vec!["_on_intel (in fat) + 16".to_string()]);
    let object = init_file_obj("fat", &bytes, &SelectionFilter { architecture: Some("aarch64".to_string()), identifier: None }).unwrap();
    assert_eq!(object.slice().architecture, "arm64");
    assert_eq!(object.slice().offset, 0x100);
    assert_eq!(object.file_name(), "fat");
}

#[test]
fn identifier_filter_selects_its_slice() {
    let bytes = two_slice_container();
    let id = "abababab-abab-abab-abab-ababababab02";
    let lines = resolve_batch("fat", &bytes, LOAD, &vec![LOAD + 0x1010], &options(None, Some(id))).unwrap();
    assert_eq!(lines, vec!["_on_intel (in fat) + 16".to_string()]);
    let crossed = resolve_batch("fat", &bytes, LOAD, &vec![LOAD + 0x1010], &options(Some("arm64"), Some(id)));
    assert!(matches!(crossed, Err(Error::SelectionNoMatch(_))));
}

#[test]
fn container_without_filter_fails_and_lists_both_slices() {
    let bytes = two_slice_container();
    let error = resolve_batch("fat", &bytes, LOAD, &vec![LOAD + 0x1010], &options(None, None)).unwrap_err();
    match &error {
        Error::SelectionAmbiguous(listed) => assert_eq!(listed.len(), 2),
        other => panic!("{:?}", other),
    }
    assert_eq!(
        error.message(),
        "more than one slice matches; choose one by architecture or identifier:\n  arm64 ABABABAB-ABAB-ABAB-ABAB-ABABABABAB01\n  x86_64 ABABABAB-ABAB-ABAB-ABAB-ABABABABAB02"
    );
}

#[test]
fn container_of_one_slice_needs_no_filter() {
    let bytes = fat(&[(CPU_ARM64, 0, slice_image(CPU_ARM64, 0, "_only", None))]);
    let lines = resolve_batch("one", &bytes, LOAD, &vec![LOAD + 0x1002], &options(None, None)).unwrap();
    assert_eq!(lines, vec!["_only (in one) + 2".to_string()]);
}

#[test]
fn filter_that_excludes_every_slice_lists_them() {
    let bytes = two_slice_container();
    match resolve_batch("fat", &bytes, LOAD, &vec![LOAD], &options(Some("i386"), None)) {
        Err(Error::SelectionNoMatch(listed)) => {
            assert_eq!(listed.len(), 2);
            assert_eq!(listed[0].architecture, "arm64");
            assert_eq!(listed[1].architecture, "x86_64");
        }
        other => panic!("{:?}", other),
    }
}

#[test]
fn single_image_is_checked_against_the_filter() {
    let bytes = slice_image(CPU_ARM64, 0, "_main", Some(uuid(7)));
    assert!(resolve_batch("app", &bytes, LOAD, &vec![LOAD], &options(Some("arm64"), None)).is_ok());
    assert!(resolve_batch("app", &bytes, LOAD, &vec![LOAD], &options(None, Some("ABABABABABABABABABABABABABABAB07"))).is_ok());
    let wrong = resolve_batch("app", &bytes, LOAD, &vec![LOAD], &options(Some("x86_64"), None)).unwrap_err();
    assert_eq!(wrong.message(), "the image does not match; the file holds:\n  arm64 ABABABAB-ABAB-ABAB-ABAB-ABABABABAB07");
    let wrong = resolve_batch("app", &bytes, LOAD, &vec![LOAD], &options(None, Some("ABABABABABABABABABABABABABABAB08")));
    assert!(matches!(wrong, Err(Error::FilterMismatch(_))));
}

#[test]
fn malformed_identifier_fails_before_the_file_is_read() {
    let garbage = vec![0u8; 8];
    let r = resolve_batch("x", &garbage, 0, &vec![1], &options(None, Some("not-an-identifier")));
    assert!(matches!(r, Err(Error::InvalidIdentifier)));
    let r = resolve_batch("fat", &two_slice_container(), 0, &vec![1], &options(Some("arm64"), Some("abab")));
    assert!(matches!(r, Err(Error::InvalidIdentifier)));
}

#[test]
fn arm64e_slice_is_told_from_arm64() {
    let bytes = fat(&[
        (CPU_ARM64, 0, slice_image(CPU_ARM64, 0, "_plain", None)),
        (CPU_ARM64, 0x8000_0002, slice_image(CPU_ARM64, 0x8000_0002, "_signed", None)),
    ]);
    let lines = resolve_batch("fat", &bytes, LOAD, &vec![LOAD + 0x1000], &options(Some("arm64"), None)).unwrap();
    assert_eq!(lines, vec!["_plain (in fat) + 0".to_string()]);
    let lines = resolve_batch("fat", &bytes, LOAD, &vec![LOAD + 0x1000], &options(Some("arm64e"), None)).unwrap();
    assert_eq!(lines, vec!["_signed (in fat) + 0".to_string()]);
    let error = resolve_batch("fat", &bytes, LOAD, &vec![LOAD], &options(None, None)).unwrap_err();
    assert_eq!(
        error.message(),
        "more than one slice matches; choose one by architecture or identifier:\n  arm64 -\n  arm64e -"
    );
}

#[test]
fn slice_past_the_end_of_the_file_is_a_parse_error() {
    let mut bytes = two_slice_container();
    bytes.truncate(bytes.len() - 1);
    match read_container(&bytes) {
        Err(Error::Parse(message)) => assert_eq!(message, "Invalid fat arch offset or size"),
        other => panic!("{:?}", other),
    }
}

#[test]
fn slice_that_is_no_image_is_a_parse_error() {
    let bytes = fat(&[(CPU_ARM64, 0, slice_image(CPU_ARM64, 0, "_ok", None)), (CPU_X86_64, 3, vec![0u8; 64])]);
    match read_container(&bytes) {
        Err(Error::Parse(message)) => assert_eq!(message, "Unknown file magic"),
        other => panic!("{:?}", other),
    }
}

#[test]
fn describe_reads_architecture_and_identifier() {
    let bytes = slice_image(CPU_X86_64, 3, "_main", Some(uuid(5)));
    let slice = describe(&bytes, SliceRange { offset: 64, size: 128 }).unwrap();
    assert_eq!(slice.architecture, "x86_64");
    assert_eq!(slice.identifier.unwrap().render(), "ABABABAB-ABAB-ABAB-ABAB-ABABABABAB05");
    assert_eq!((slice.offset, slice.size), (64, 128));
}
