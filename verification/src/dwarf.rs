//! Lookup in debug data that has been read into plain tables: the address-range
//! table, the subprogram entries of a compilation unit and the rows of its
//! line-number program.

use vstd::prelude::*;

verus! {

/// One entry of the address-range table: the addresses `begin .. begin + length`
/// belong to the compilation unit whose header stands at `unit` in the unit data.
#[derive(Clone, Copy, Debug, PartialEq, Eq, Structural)]
pub struct ArangeEntry {
    pub begin: u64,
    pub length: u64,
    pub unit: usize,
}

impl ArangeEntry {
    /// `address` lies in `begin .. begin + length`, the sum taken without wrapping.
    pub open spec fn covers(&self, address: u64) -> bool {
        self.begin <= address && address - self.begin < self.length
    }

    /// Whether the entry covers `address`.
    pub fn contains(&self, address: u64) -> (r: bool)
        ensures
            r == self.covers(address),
    {
        self.begin <= address && address - self.begin < self.length
    }
}

/// `i` is the position of the first entry of `table` that covers `address`.
pub open spec fn is_first_range(table: Seq<ArangeEntry>, address: u64, i: int) -> bool {
    &&& 0 <= i < table.len()
    &&& table[i].covers(address)
    &&& forall|j: int| 0 <= j < i ==> !(#[trigger] table[j]).covers(address)
}

/// The unit of the first entry of `table` that covers `address`, if any entry does.
pub open spec fn covering_unit(table: Seq<ArangeEntry>, address: u64) -> Option<usize> {
    if exists|i: int| is_first_range(table, address, i) {
        Some(table[choose|i: int| is_first_range(table, address, i)].unit)
    } else {
        None
    }
}

/// Scans the whole table in order; the entries need not be sorted.
pub fn find_unit(table: &Vec<ArangeEntry>, address: u64) -> (r: Option<usize>)
    ensures
        r == covering_unit(table@, address),
        r is Some <==> exists|i: int| 0 <= i < table@.len() && (#[trigger] table@[i]).covers(address),
{
    let mut i: usize = 0;
    while i < table.len()
        invariant
            i <= table.len(),
            forall|j: int| 0 <= j < i ==> !(#[trigger] table@[j]).covers(address),
        decreases table.len() - i,
    {
        if table[i].contains(address) {
            proof {
                assert(is_first_range(table@, address, i as int));
                let k = choose|k: int| is_first_range(table@, address, k);
                assert(is_first_range(table@, address, k));
                assert(k == i) by {
                    if k < i {
                        assert(!table@[k].covers(address));
                    }
                    if i < k {
                        assert(!table@[i as int].covers(address));
                    }
                }
            }
            return Some(table[i].unit);
        }
        i += 1;
    }
    proof {
        assert forall|k: int| !is_first_range(table@, address, k) by {
            if 0 <= k < table@.len() {
                assert(!table@[k].covers(address));
            }
        }
    }
    None
}

/// What a unit entry gives for one of its two address attributes.
#[derive(Clone, Copy, Debug, PartialEq, Eq, Structural)]
pub enum PcValue {
    /// The attribute is missing, unreadable, or of another form.
    Absent,
    /// An absolute address.
    Address(u64),
    /// An unsigned constant: for the high address, a size counted from the low address.
    Size(u64),
}

/// The address attributes of one subprogram entry; `entry` is its offset in the unit.
#[derive(Clone, Copy, Debug, PartialEq, Eq, Structural)]
pub struct Subprogram {
    pub entry: usize,
    pub low: PcValue,
    pub high: PcValue,
}

impl Subprogram {
    /// The absolute high address, whichever way it is encoded. An entry without an
    /// absolute low address has none.
    pub open spec fn high_address(&self) -> Option<int> {
        match (self.low, self.high) {
            (PcValue::Address(_), PcValue::Address(high)) => Some(high as int),
            (PcValue::Address(low), PcValue::Size(size)) => Some(low + size),
            _ => None,
        }
    }

    /// The entry carries both addresses and `low <= address < high`.
    pub open spec fn covers(&self, address: u64) -> bool {
        match self.low {
            PcValue::Address(low) => self.high_address() is Some && low <= address
                && address < self.high_address().unwrap(),
            _ => false,
        }
    }

    /// Whether the subprogram encloses `address`.
    pub fn contains(&self, address: u64) -> (r: bool)
        ensures
            r == self.covers(address),
    {
        match self.low {
            PcValue::Address(low) => match self.high {
                PcValue::Address(high) => low <= address && address < high,
                PcValue::Size(size) => low <= address && address - low < size,
                PcValue::Absent => false,
            },
            _ => false,
        }
    }
}

/// `i` is the position of the first entry of `subprograms` that covers `address`.
pub open spec fn is_first_subprogram(subprograms: Seq<Subprogram>, address: u64, i: int) -> bool {
    &&& 0 <= i < subprograms.len()
    &&& subprograms[i].covers(address)
    &&& forall|j: int| 0 <= j < i ==> !(#[trigger] subprograms[j]).covers(address)
}

/// The position of the first subprogram that covers `address`: the first match
/// wins, not the narrowest.
pub open spec fn enclosing_subprogram(subprograms: Seq<Subprogram>, address: u64) -> Option<int> {
    if exists|i: int| is_first_subprogram(subprograms, address, i) {
        Some(choose|i: int| is_first_subprogram(subprograms, address, i))
    } else {
        None
    }
}

/// Finds the first subprogram that encloses `address`, scanning in order.
pub fn find_subprogram(subprograms: &Vec<Subprogram>, address: u64) -> (r: Option<usize>)
    ensures
        r is Some <==> enclosing_subprogram(subprograms@, address) is Some,
        r matches Some(i) ==> enclosing_subprogram(subprograms@, address) == Some(i as int)
            && is_first_subprogram(subprograms@, address, i as int),
        r is None ==> forall|j: int| 0 <= j < subprograms@.len() ==> !(#[trigger] subprograms@[j]).covers(address),
{
    let mut i: usize = 0;
    while i < subprograms.len()
        invariant
            i <= subprograms.len(),
            forall|j: int| 0 <= j < i ==> !(#[trigger] subprograms@[j]).covers(address),
        decreases subprograms.len() - i,
    {
        if subprograms[i].contains(address) {
            proof {
                assert(is_first_subprogram(subprograms@, address, i as int));
                let k = choose|k: int| is_first_subprogram(subprograms@, address, k);
                assert(k == i) by {
                    if k < i {
                        assert(!subprograms@[k].covers(address));
                    }
                    if i < k {
                        assert(!subprograms@[i as int].covers(address));
                    }
                }
            }
            return Some(i);
        }
        i += 1;
    }
    proof {
        assert forall|k: int| !is_first_subprogram(subprograms@, address, k) by {
            if 0 <= k < subprograms@.len() {
                assert(!subprograms@[k].covers(address));
            }
        }
    }
    None
}

/// One row of a line-number program.
#[derive(Clone, Copy, Debug, PartialEq, Eq)]
pub struct LineRow {
    pub address: u64,
    /// The row ends a sequence of addresses and names no source line of its own.
    pub end_sequence: bool,
    /// The position of the row's file in the unit's file table.
    pub file_index: u64,
    /// The source line; `None` where the row is attributed to no line.
    pub line: Option<u64>,
}

impl LineRow {
    /// The row with these fields.
    pub fn new(address: u64, end_sequence: bool, file_index: u64, line: Option<u64>) -> (r: LineRow)
        ensures
            r == (LineRow { address, end_sequence, file_index, line }),
    {
        LineRow { address, end_sequence, file_index, line }
    }

    /// The line number that the row contributes, 0 for a row without a line.
    pub open spec fn line_number(&self) -> u64 {
        match self.line {
            Some(n) => n,
            None => 0,
        }
    }
}

/// What the unit's file table holds at one position.
#[derive(Debug, PartialEq, Eq)]
pub enum FileName {
    /// The table has no file at this position.
    Absent,
    /// There is a file, but its name cannot be read.
    Unreadable,
    Name(String),
}

/// An entry of the file table with its name as a sequence of characters.
pub enum FileNameView {
    Absent,
    Unreadable,
    Name(Seq<char>),
}

impl View for FileName {
    type V = FileNameView;

    open spec fn view(&self) -> FileNameView {
        match self {
            FileName::Absent => FileNameView::Absent,
            FileName::Unreadable => FileNameView::Unreadable,
            FileName::Name(name) => FileNameView::Name(name@),
        }
    }
}

/// The views of the entries of a file table.
pub open spec fn file_views(files: Seq<FileName>) -> Seq<FileNameView> {
    Seq::new(files.len(), |i: int| files[i]@)
}

/// The entry of the file table at `index`; past the end there is no file.
pub open spec fn file_at(files: Seq<FileNameView>, index: u64) -> FileNameView {
    if index < files.len() {
        files[index as int]
    } else {
        FileNameView::Absent
    }
}

/// The walk over `rows` from position `at` on, where `file` and `line` are what
/// the rows before `at` have accumulated.
///
/// A row whose address lies above `address` ends the walk with the accumulated
/// file and line when that line is not zero; such a match without a file name
/// gives no result. Any other row is passed: an end-of-sequence row changes
/// nothing, a normal row replaces the line (0 where it has none) and, where the
/// table names its file, the file. A normal row whose file name cannot be read
/// ends the walk without a result.
pub open spec fn walk_from(
    rows: Seq<LineRow>,
    files: Seq<FileNameView>,
    address: u64,
    at: int,
    file: Option<Seq<char>>,
    line: Option<u64>,
) -> Option<(Seq<char>, u64)>
    decreases rows.len() - at,
{
    if at < 0 || at >= rows.len() {
        None
    } else if address < rows[at].address && line is Some && line.unwrap() > 0 {
        match file {
            Some(name) => Some((name, line.unwrap())),
            None => None,
        }
    } else if rows[at].end_sequence {
        walk_from(rows, files, address, at + 1, file, line)
    } else {
        match file_at(files, rows[at].file_index) {
            FileNameView::Unreadable => None,
            FileNameView::Absent => walk_from(
                rows,
                files,
                address,
                at + 1,
                file,
                Some(rows[at].line_number()),
            ),
            FileNameView::Name(name) => walk_from(
                rows,
                files,
                address,
                at + 1,
                Some(name),
                Some(rows[at].line_number()),
            ),
        }
    }
}

/// The source file and line for `address`: the walk from the first row with
/// nothing accumulated.
pub open spec fn source_position(
    rows: Seq<LineRow>,
    files: Seq<FileNameView>,
    address: u64,
) -> Option<(Seq<char>, u64)> {
    walk_from(rows, files, address, 0, None, None)
}

/// The line that the rows before `at` have accumulated: that of the nearest
/// normal row before `at`.
pub open spec fn line_before(rows: Seq<LineRow>, at: int) -> Option<u64>
    decreases at,
{
    if at <= 0 || at > rows.len() {
        None
    } else if !rows[at - 1].end_sequence {
        Some(rows[at - 1].line_number())
    } else {
        line_before(rows, at - 1)
    }
}

/// The file that the rows before `at` have accumulated: that of the nearest
/// normal row before `at` whose file the table names.
pub open spec fn file_before(rows: Seq<LineRow>, files: Seq<FileNameView>, at: int) -> Option<Seq<char>>
    decreases at,
{
    if at <= 0 || at > rows.len() {
        None
    } else if !rows[at - 1].end_sequence && file_at(files, rows[at - 1].file_index) is Name {
        Some(file_at(files, rows[at - 1].file_index)->Name_0)
    } else {
        file_before(rows, files, at - 1)
    }
}

/// A normal row before `at` has a file whose name cannot be read.
pub open spec fn unreadable_before(rows: Seq<LineRow>, files: Seq<FileNameView>, at: int) -> bool {
    exists|j: int|
        0 <= j < at && j < rows.len() && !(#[trigger] rows[j]).end_sequence && file_at(
            files,
            rows[j].file_index,
        ) is Unreadable
}

/// The row at `i` lies above `address`, and the line accumulated before it is
/// not zero: the walk ends at such a row.
pub open spec fn stops_at(rows: Seq<LineRow>, address: u64, i: int) -> bool {
    &&& 0 <= i < rows.len()
    &&& address < rows[i].address
    &&& line_before(rows, i) matches Some(line) && line > 0
}

/// `i` is the first row at which the walk ends.
pub open spec fn is_first_stop(rows: Seq<LineRow>, address: u64, i: int) -> bool {
    &&& stops_at(rows, address, i)
    &&& forall|k: int| 0 <= k < i ==> !stops_at(rows, address, k)
}

/// The source position as the rows give it, without a walk: at the first row
/// above `address` before which a line other than zero has been accumulated,
/// the accumulated file and line. There is none where no such row exists,
/// where a file name before that row cannot be read, or where no file has
/// been accumulated.
pub open spec fn position_by_rows(rows: Seq<LineRow>, files: Seq<FileNameView>, address: u64) -> Option<
    (Seq<char>, u64),
> {
    if exists|i: int| is_first_stop(rows, address, i) {
        let i = choose|i: int| is_first_stop(rows, address, i);
        if unreadable_before(rows, files, i) {
            None
        } else {
            match file_before(rows, files, i) {
                Some(file) => Some((file, line_before(rows, i).unwrap())),
                None => None,
            }
        }
    } else {
        None
    }
}

/// Where every file name before `at` can be read and the row at `at` is no
/// normal row with an unreadable file name, every file name before `at + 1`
/// can be read.
proof fn lemma_readable_step(rows: Seq<LineRow>, files: Seq<FileNameView>, at: int)
    requires
        0 <= at < rows.len(),
        !unreadable_before(rows, files, at),
        rows[at].end_sequence || !(file_at(files, rows[at].file_index) is Unreadable),
    ensures
        !unreadable_before(rows, files, at + 1),
{
    if unreadable_before(rows, files, at + 1) {
        let j = choose|j: int|
            0 <= j < at + 1 && j < rows.len() && !(#[trigger] rows[j]).end_sequence && file_at(
                files,
                rows[j].file_index,
            ) is Unreadable;
        assert(j < at);
        assert(unreadable_before(rows, files, at));
    }
}

proof fn lemma_walk_from(
    rows: Seq<LineRow>,
    files: Seq<FileNameView>,
    address: u64,
    at: int,
    file: Option<Seq<char>>,
    line: Option<u64>,
)
    requires
        0 <= at <= rows.len(),
        file == file_before(rows, files, at),
        line == line_before(rows, at),
        !unreadable_before(rows, files, at),
        forall|k: int| 0 <= k < at ==> !stops_at(rows, address, k),
    ensures
        walk_from(rows, files, address, at, file, line) == position_by_rows(rows, files, address),
    decreases rows.len() - at,
{
    if at >= rows.len() {
        assert forall|i: int| !is_first_stop(rows, address, i) by {
            if stops_at(rows, address, i) {
                assert(0 <= i < at);
            }
        }
    } else if address < rows[at].address && line is Some && line.unwrap() > 0 {
        assert(is_first_stop(rows, address, at));
        let i = choose|i: int| is_first_stop(rows, address, i);
        assert(i == at) by {
            if i < at {
                assert(!stops_at(rows, address, i));
            }
            if at < i {
                assert(!stops_at(rows, address, at));
            }
        }
    } else if rows[at].end_sequence {
        assert(!stops_at(rows, address, at));
        lemma_readable_step(rows, files, at);
        lemma_walk_from(rows, files, address, at + 1, file, line);
    } else {
        assert(!stops_at(rows, address, at));
        match file_at(files, rows[at].file_index) {
            FileNameView::Unreadable => {
                if exists|i: int| is_first_stop(rows, address, i) {
                    let i = choose|i: int| is_first_stop(rows, address, i);
                    assert(i > at) by {
                        if i < at {
                            assert(!stops_at(rows, address, i));
                        }
                    }
                    assert(!rows[at].end_sequence && file_at(files, rows[at].file_index) is Unreadable);
                    assert(unreadable_before(rows, files, i));
                }
            },
            FileNameView::Absent => {
                lemma_readable_step(rows, files, at);
                lemma_walk_from(rows, files, address, at + 1, file, Some(rows[at].line_number()));
            },
            FileNameView::Name(name) => {
                lemma_readable_step(rows, files, at);
                lemma_walk_from(
                    rows,
                    files,
                    address,
                    at + 1,
                    Some(name),
                    Some(rows[at].line_number()),
                );
            },
        }
    }
}

/// The walk gives the position that the rows give without a walk. So a line
/// that is found is never zero, and it is the line of the nearest normal row
/// before the first row above the address at which a line was known.
pub proof fn lemma_source_position(rows: Seq<LineRow>, files: Seq<FileNameView>, address: u64)
    ensures
        source_position(rows, files, address) == position_by_rows(rows, files, address),
        source_position(rows, files, address) matches Some((_, line)) ==> line > 0,
{
    lemma_walk_from(rows, files, address, 0, None, None);
}

/// The view of a position that `find_line` returns.
pub open spec fn position_view(position: Option<(String, u64)>) -> Option<(Seq<char>, u64)> {
    match position {
        Some((file, line)) => Some((file@, line)),
        None => None,
    }
}

/// Walks the rows in program order and returns the file and line for `address`.
pub fn find_line(rows: &Vec<LineRow>, files: &Vec<FileName>, address: u64) -> (r: Option<(String, u64)>)
    ensures
        position_view(r) == source_position(rows@, file_views(files@), address),
        position_view(r) == position_by_rows(rows@, file_views(files@), address),
{
    proof {
        lemma_source_position(rows@, file_views(files@), address);
    }
    let ghost fv = file_views(files@);
    let mut last_file: Option<usize> = None;
    let mut last_line: Option<u64> = None;
    let ghost mut file: Option<Seq<char>> = None;
    let mut i: usize = 0;
    while i < rows.len()
        invariant
            i <= rows.len(),
            fv == file_views(files@),
            source_position(rows@, fv, address) == position_by_rows(rows@, fv, address),
            walk_from(rows@, fv, address, i as int, file, last_line) == source_position(rows@, fv, address),
            match last_file {
                Some(k) => k < files@.len() && file == Some(files@[k as int]@->Name_0)
                    && files@[k as int] is Name,
                None => file is None,
            },
        decreases rows.len() - i,
    {
        let row = rows[i];
        let crossing = address < row.address;
        let usable = match last_line {
            Some(n) => n > 0,
            None => false,
        };
        if crossing && usable {
            let line = last_line.unwrap();
            match last_file {
                Some(k) => {
                    match &files[k] {
                        FileName::Name(name) => {
                            return Some((name.clone(), line));
                        },
                        _ => {
                            return None;
                        },
                    }
                },
                None => {
                    return None;
                },
            }
        }
        if !row.end_sequence {
            let line: u64 = match row.line {
                Some(n) => n,
                None => 0,
            };
            if row.file_index < files.len() as u64 {
                let k = row.file_index as usize;
                match &files[k] {
                    FileName::Unreadable => {
                        return None;
                    },
                    FileName::Absent => {},
                    FileName::Name(_) => {
                        last_file = Some(k);
                        proof {
                            file = Some(files@[k as int]@->Name_0);
                        }
                    },
                }
            }
            last_line = Some(line);
        }
        i += 1;
    }
    None
}

} // verus!
