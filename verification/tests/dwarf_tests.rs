use atosl::dwarf::{find_line, find_subprogram, find_unit, ArangeEntry, FileName, LineRow, PcValue, Subprogram};

fn range(begin: u64, length: u64, unit: usize) -> ArangeEntry {
    ArangeEntry { begin, length, unit }
}

#[test]
fn range_contains_begin_and_not_end() {
    let r = range(0x1000, 0x10, 0);
    assert!(r.contains(0x1000));
    assert!(r.contains(0x100f));
    assert!(!r.contains(0x1010));
    assert!(!r.contains(0xfff));
    assert!(!range(0x1000, 0, 0).contains(0x1000));
}

#[test]
fn range_at_the_top_of_the_address_space_does_not_wrap() {
    let r = range(u64::MAX - 1, 10, 0);
    assert!(r.contains(u64::MAX));
    assert!(r.contains(u64::MAX - 1));
    assert!(!r.contains(0));
    assert!(!r.contains(5));
}

#[test]
fn find_unit_scans_unsorted_entries() {
    let table = vec![range(0x3000, 0x100, 30), range(0x1000, 0x100, 10), range(0x2000, 0x100, 20)];
    assert_eq!(find_unit(&table, 0x1000), Some(10));
    assert_eq!(find_unit(&table, 0x20ff), Some(20));
    assert_eq!(find_unit(&table, 0x3001), Some(30));
    assert_eq!(find_unit(&table, 0x2100), None);
    assert_eq!(find_unit(&table, 0), None);
    assert_eq!(find_unit(&Vec::new(), 0x1000), None);
}

#[test]
fn find_unit_takes_the_first_of_overlapping_entries() {
    let table = vec![range(0x1000, 0x1000, 1), range(0x1000, 0x10, 2)];
    assert_eq!(find_unit(&table, 0x1008), Some(1));
}

fn sub(entry: usize, low: PcValue, high: PcValue) -> Subprogram {
    Subprogram { entry, low, high }
}

#[test]
fn high_address_as_address_and_as_size() {
    let absolute = sub(1, PcValue::Address(0x1000), PcValue::Address(0x1040));
    let relative = sub(2, PcValue::Address(0x1000), PcValue::Size(0x40));
    for s in [absolute, relative] {
        assert!(s.contains(0x1000));
        assert!(s.contains(0x103f));
        assert!(!s.contains(0x1040));
        assert!(!s.contains(0xfff));
    }
}

#[test]
fn subprogram_without_both_addresses_contains_nothing() {
    assert!(!sub(1, PcValue::Absent, PcValue::Address(0x2000)).contains(0x1000));
    assert!(!sub(1, PcValue::Address(0x1000), PcValue::Absent).contains(0x1000));
    assert!(!sub(1, PcValue::Size(0x1000), PcValue::Size(0x10)).contains(0x1000));
    assert!(!sub(1, PcValue::Size(0x1000), PcValue::Address(0x2000)).contains(0x1000));
}

#[test]
fn size_that_reaches_past_64_bits_does_not_wrap() {
    let s = sub(1, PcValue::Address(u64::MAX - 4), PcValue::Size(100));
    assert!(s.contains(u64::MAX));
    assert!(!s.contains(3));
}

#[test]
fn first_enclosing_subprogram_wins() {
    let subs = vec![
        sub(10, PcValue::Address(0x3000), PcValue::Size(0x10)),
        sub(20, PcValue::Address(0x1000), PcValue::Address(0x2000)),
        sub(30, PcValue::Address(0x1000), PcValue::Size(0x10)),
    ];
    assert_eq!(find_subprogram(&subs, 0x1004), Some(1));
    assert_eq!(find_subprogram(&subs, 0x3004), Some(0));
    assert_eq!(find_subprogram(&subs, 0x2000), None);
    assert_eq!(find_subprogram(&Vec::new(), 0x1000), None);
}

fn row(address: u64, file_index: u64, line: u64) -> LineRow {
    LineRow { address, end_sequence: false, file_index, line: if line == 0 { None } else { Some(line) } }
}

fn end(address: u64) -> LineRow {
    LineRow { address, end_sequence: true, file_index: 1, line: None }
}

fn files() -> Vec<FileName> {
    vec![FileName::Absent, FileName::Name("main.c".to_string()), FileName::Name("util.c".to_string()), FileName::Unreadable]
}

fn found(file: &str, line: u64) -> Option<(String, u64)> {
    Some((file.to_string(), line))
}

#[test]
fn line_of_the_row_before_the_crossing() {
    let rows = vec![row(0x1000, 1, 10), row(0x1010, 1, 11), row(0x1020, 2, 12), end(0x1040)];
    assert_eq!(find_line(&rows, &files(), 0x1000), found("main.c", 10));
    assert_eq!(find_line(&rows, &files(), 0x100f), found("main.c", 10));
    assert_eq!(find_line(&rows, &files(), 0x1010), found("main.c", 11));
    assert_eq!(find_line(&rows, &files(), 0x1020), found("util.c", 12));
    assert_eq!(find_line(&rows, &files(), 0x103f), found("util.c", 12));
}

#[test]
fn file_is_that_of_the_row_before_the_crossing() {
    let rows = vec![row(0x1000, 1, 10), row(0x1010, 2, 11), end(0x1040)];
    assert_eq!(find_line(&rows, &files(), 0x1008), found("main.c", 10));
}

#[test]
fn no_row_above_the_address_gives_nothing() {
    let rows = vec![row(0x1000, 1, 10), row(0x1010, 1, 11), end(0x1040)];
    assert_eq!(find_line(&rows, &files(), 0x1040), None);
    assert_eq!(find_line(&rows, &files(), u64::MAX), None);
    assert_eq!(find_line(&Vec::new(), &files(), 0x1000), None);
}

#[test]
fn address_below_the_first_row_takes_its_line_at_the_next_crossing() {
    let rows = vec![row(0x1000, 1, 10), end(0x1040)];
    assert_eq!(find_line(&rows, &files(), 0xfff), found("main.c", 10));
}

#[test]
fn crossing_with_line_zero_keeps_scanning() {
    let rows = vec![row(0x1000, 1, 0), row(0x2000, 1, 7), row(0x3000, 1, 8), end(0x4000)];
    assert_eq!(find_line(&rows, &files(), 0x1800), found("main.c", 7));
}

#[test]
fn only_line_zero_gives_nothing() {
    let rows = vec![row(0x1000, 1, 0), row(0x2000, 1, 0), end(0x3000)];
    assert_eq!(find_line(&rows, &files(), 0x1800), None);
}

#[test]
fn end_of_sequence_keeps_what_was_accumulated() {
    let rows = vec![row(0x1000, 1, 10), end(0x1040), row(0x5000, 2, 50), end(0x5040)];
    assert_eq!(find_line(&rows, &files(), 0x1020), found("main.c", 10));
    assert_eq!(find_line(&rows, &files(), 0x2000), found("main.c", 10));
    assert_eq!(find_line(&rows, &files(), 0x5010), found("util.c", 50));
}

#[test]
fn later_sequence_at_lower_addresses() {
    let rows = vec![row(0x5000, 2, 50), end(0x5040), row(0x1000, 1, 10), end(0x1040)];
    assert_eq!(find_line(&rows, &files(), 0x1020), found("util.c", 50));
}

#[test]
fn unreadable_file_name_ends_the_walk() {
    let rows = vec![row(0x1000, 3, 10), row(0x1010, 1, 11), end(0x1040)];
    assert_eq!(find_line(&rows, &files(), 0x1008), None);
    assert_eq!(find_line(&rows, &files(), 0x1018), None);
}

#[test]
fn row_without_file_keeps_the_last_file() {
    let rows = vec![row(0x1000, 1, 10), row(0x1010, 0, 11), row(0x1020, 99, 12), end(0x1040)];
    assert_eq!(find_line(&rows, &files(), 0x1018), found("main.c", 11));
    assert_eq!(find_line(&rows, &files(), 0x1028), found("main.c", 12));
}

#[test]
fn line_without_any_file_gives_nothing() {
    let rows = vec![row(0x1000, 0, 10), row(0x1010, 1, 11), end(0x1040)];
    assert_eq!(find_line(&rows, &files(), 0x1008), None);
}
