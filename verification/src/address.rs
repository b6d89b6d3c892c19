//! Address arithmetic: from a runtime address to the address that is looked up
//! in an image, and addresses written as text.

use vstd::prelude::*;
use crate::error::{AddressFault, Error};
use crate::text::{chars_of, decimal_digits, digit_char};

verus! {

/// How a runtime address is taken into the address space of the image.
#[derive(Clone, Copy, Debug, PartialEq, Eq, Structural)]
pub enum AddressMode {
    /// The image's link-time virtual addresses: the code segment's base is added.
    Virtual,
    /// Plain offsets from the load address.
    FileOffset,
}

/// The address to look up for `address` in an image loaded at `load_address`
/// whose code segment was linked at `base`. There is none where `address` lies
/// below `load_address` or the sum does not fit in 64 bits.
pub open spec fn search_address(address: u64, load_address: u64, base: u64, mode: AddressMode) -> Result<
    u64,
    Error,
> {
    if address < load_address {
        Err(Error::InvalidAddress(AddressFault::BelowLoadAddress))
    } else if mode == AddressMode::FileOffset {
        Ok((address - load_address) as u64)
    } else if address - load_address + base > u64::MAX {
        Err(Error::InvalidAddress(AddressFault::Overflow))
    } else {
        Ok((address - load_address + base) as u64)
    }
}

/// Takes a runtime address into the address space of the image. The
/// subtraction and the addition never wrap: an address below the load address
/// and a sum past 64 bits are errors.
pub fn to_search_address(address: u64, load_address: u64, base: u64, mode: AddressMode) -> (r: Result<
    u64,
    Error,
>)
    ensures
        r == search_address(address, load_address, base, mode),
        r is Ok <==> address >= load_address && (mode == AddressMode::Virtual ==> address
            - load_address + base <= u64::MAX),
        mode == AddressMode::Virtual ==> (r matches Ok(found) ==> found == address - load_address + base),
        mode == AddressMode::FileOffset ==> (r matches Ok(found) ==> found == address - load_address),
{
    if address < load_address {
        return Err(Error::InvalidAddress(AddressFault::BelowLoadAddress));
    }
    let offset: u64 = address - load_address;
    match mode {
        AddressMode::FileOffset => Ok(offset),
        AddressMode::Virtual => {
            if offset > u64::MAX - base {
                Err(Error::InvalidAddress(AddressFault::Overflow))
            } else {
                Ok(offset + base)
            }
        },
    }
}

/// The mode that the flag of the command line stands for.
pub fn mode_of(file_offset_type: bool) -> (r: AddressMode)
    ensures
        r == if file_offset_type {
            AddressMode::FileOffset
        } else {
            AddressMode::Virtual
        },
{
    if file_offset_type {
        AddressMode::FileOffset
    } else {
        AddressMode::Virtual
    }
}

/// Why a text is not an address.
#[derive(Clone, Copy, Debug, PartialEq, Eq, Structural)]
pub enum AddressParseError {
    /// There is no digit at all.
    Empty,
    /// A character is not a digit of the radix.
    InvalidDigit,
    /// The number does not fit in 64 bits.
    Overflow,
}

/// The value of `c` as a digit of `radix` (10 or 16); letters count in either case.
pub open spec fn digit_value(c: char, radix: nat) -> Option<nat> {
    if '0' <= c && c <= '9' {
        Some((c as nat - 48) as nat)
    } else if radix == 16 && 'a' <= c && c <= 'f' {
        Some((c as nat - 87) as nat)
    } else if radix == 16 && 'A' <= c && c <= 'F' {
        Some((c as nat - 55) as nat)
    } else {
        None
    }
}

/// Reads the digits of `text` from `at` on, most significant first, onto `value`.
/// The first character that is no digit, or the first digit with which the
/// number leaves 64 bits, ends the reading with that error.
pub open spec fn read_digits(text: Seq<char>, radix: nat, at: int, value: nat) -> Result<u64, AddressParseError>
    decreases text.len() - at,
{
    if at < 0 || at >= text.len() {
        Ok(value as u64)
    } else {
        match digit_value(text[at], radix) {
            None => Err(AddressParseError::InvalidDigit),
            Some(d) => if value * radix + d > u64::MAX {
                Err(AddressParseError::Overflow)
            } else {
                read_digits(text, radix, at + 1, value * radix + d)
            },
        }
    }
}

/// The number written in `text` from `from` on: an optional `+`, then at least
/// one digit and nothing but digits.
pub open spec fn read_number(text: Seq<char>, radix: nat, from: int) -> Result<u64, AddressParseError> {
    if from >= text.len() {
        Err(AddressParseError::Empty)
    } else if text[from] == '+' {
        if from + 1 >= text.len() {
            Err(AddressParseError::InvalidDigit)
        } else {
            read_digits(text, radix, from + 1, 0)
        }
    } else {
        read_digits(text, radix, from, 0)
    }
}

/// `text` holds `0x` at `at`.
pub open spec fn hex_prefix_at(text: Seq<char>, at: int) -> bool {
    0 <= at && at + 1 < text.len() && text[at] == '0' && text[at + 1] == 'x'
}

/// The position behind every `0x` that stands in a row from `at` on.
pub open spec fn after_hex_prefixes(text: Seq<char>, at: int) -> int
    decreases text.len() - at,
{
    if hex_prefix_at(text, at) {
        after_hex_prefixes(text, at + 2)
    } else {
        at
    }
}

/// The address written in `text`: hexadecimal behind `0x` (every leading `0x`
/// is skipped), decimal otherwise.
pub open spec fn address_of_text(text: Seq<char>) -> Result<u64, AddressParseError> {
    if hex_prefix_at(text, 0) {
        read_number(text, 16, after_hex_prefixes(text, 0))
    } else {
        read_number(text, 10, 0)
    }
}

/// The character of the hexadecimal digit `d`, a small letter above nine.
pub open spec fn hex_char(d: nat) -> char {
    if d < 10 {
        (48 + d) as char
    } else {
        (87 + d) as char
    }
}

/// The hexadecimal numeral of `n`: no prefix, no leading zero, small letters,
/// `"0"` for zero.
pub open spec fn hex_numeral(n: nat) -> Seq<char>
    decreases n,
{
    if n < 16 {
        seq![hex_char(n)]
    } else {
        hex_numeral(n / 16).push(hex_char(n % 16))
    }
}

/// A decimal numeral is not empty and holds decimal digits only.
proof fn lemma_decimal_digits(n: nat)
    ensures
        decimal_digits(n).len() >= 1,
        forall|i: int|
            0 <= i < decimal_digits(n).len() ==> digit_value(#[trigger] decimal_digits(n)[i], 10)
                is Some,
    decreases n,
{
    if n >= 10 {
        lemma_decimal_digits(n / 10);
    }
}

/// A hexadecimal numeral is not empty and holds hexadecimal digits only.
proof fn lemma_hex_digits(n: nat)
    ensures
        hex_numeral(n).len() >= 1,
        forall|i: int|
            0 <= i < hex_numeral(n).len() ==> digit_value(#[trigger] hex_numeral(n)[i], 16) is Some,
    decreases n,
{
    if n >= 16 {
        lemma_hex_digits(n / 16);
    }
}

/// Reading one more digit behind digits that read as `m` gives `m * radix + d`.
proof fn lemma_read_digits_push(text: Seq<char>, radix: nat, at: int, value: nat, c: char, m: u64)
    requires
        radix == 10 || radix == 16,
        0 <= at <= text.len(),
        value <= u64::MAX,
        read_digits(text, radix, at, value) == Ok::<u64, AddressParseError>(m),
        digit_value(c, radix) is Some,
        m * radix + digit_value(c, radix).unwrap() <= u64::MAX,
    ensures
        read_digits(text.push(c), radix, at, value) == Ok::<u64, AddressParseError>(
            (m * radix + digit_value(c, radix).unwrap()) as u64,
        ),
    decreases text.len() - at,
{
    let longer = text.push(c);
    if at == text.len() {
        assert(longer[at] == c);
        assert(read_digits(longer, radix, at + 1, value * radix + digit_value(c, radix).unwrap())
            == Ok::<u64, AddressParseError>((value * radix + digit_value(c, radix).unwrap()) as u64));
    } else {
        assert(longer[at] == text[at]);
        let d = digit_value(text[at], radix).unwrap();
        lemma_read_digits_push(text, radix, at + 1, value * radix + d, c, m);
    }
}

/// Reading a decimal numeral gives the number that it writes.
proof fn lemma_read_decimal(n: u64)
    ensures
        read_digits(decimal_digits(n as nat), 10, 0, 0) == Ok::<u64, AddressParseError>(n),
    decreases n,
{
    if n < 10 {
        let text = decimal_digits(n as nat);
        assert(text =~= seq![digit_char(n as nat)]);
        assert(digit_value(text[0], 10) == Some(n as nat));
        assert(read_digits(text, 10, 1, n as nat) == Ok::<u64, AddressParseError>(n));
    } else {
        let q = (n / 10) as u64;
        let d = (n % 10) as nat;
        lemma_read_decimal(q);
        assert(digit_value(digit_char(d), 10) == Some(d));
        lemma_read_digits_push(decimal_digits(q as nat), 10, 0, 0, digit_char(d), q);
    }
}

/// Reading a hexadecimal numeral gives the number that it writes.
proof fn lemma_read_hex(n: u64)
    ensures
        read_digits(hex_numeral(n as nat), 16, 0, 0) == Ok::<u64, AddressParseError>(n),
    decreases n,
{
    if n < 16 {
        let text = hex_numeral(n as nat);
        assert(text =~= seq![hex_char(n as nat)]);
        assert(digit_value(text[0], 16) == Some(n as nat));
        assert(read_digits(text, 16, 1, n as nat) == Ok::<u64, AddressParseError>(n));
    } else {
        let q = (n / 16) as u64;
        let d = (n % 16) as nat;
        lemma_read_hex(q);
        assert(digit_value(hex_char(d), 16) == Some(d));
        lemma_read_digits_push(hex_numeral(q as nat), 16, 0, 0, hex_char(d), q);
    }
}

/// Reading digits behind a prefix is reading them alone.
proof fn lemma_read_digits_behind(prefix: Seq<char>, text: Seq<char>, radix: nat, at: int, value: nat)
    requires
        0 <= at <= text.len(),
    ensures
        read_digits(prefix + text, radix, prefix.len() + at, value) == read_digits(
            text,
            radix,
            at,
            value,
        ),
    decreases text.len() - at,
{
    if at < text.len() {
        assert((prefix + text)[prefix.len() + at] == text[at]);
        match digit_value(text[at], radix) {
            Some(d) => {
                if value * radix + d <= u64::MAX {
                    lemma_read_digits_behind(prefix, text, radix, at + 1, value * radix + d);
                }
            },
            None => {},
        }
    }
}

/// The decimal numeral of a number is read as that number.
pub proof fn lemma_parse_decimal(n: u64)
    ensures
        address_of_text(decimal_digits(n as nat)) == Ok::<u64, AddressParseError>(n),
{
    lemma_decimal_digits(n as nat);
    lemma_read_decimal(n);
    let text = decimal_digits(n as nat);
    assert(digit_value(text[0], 10) is Some);
    if text.len() >= 2 {
        assert(digit_value(text[1], 10) is Some);
    }
}

/// The hexadecimal numeral of a number behind `0x` is read as that number.
pub proof fn lemma_parse_hexadecimal(n: u64)
    ensures
        address_of_text(seq!['0', 'x'] + hex_numeral(n as nat)) == Ok::<u64, AddressParseError>(n),
{
    let prefix = seq!['0', 'x'];
    let digits = hex_numeral(n as nat);
    let text = prefix + digits;
    lemma_hex_digits(n as nat);
    lemma_read_hex(n);
    lemma_read_digits_behind(prefix, digits, 16, 0, 0);
    assert(text[0] == '0' && text[1] == 'x');
    assert(text[2] == digits[0]);
    assert(digit_value(digits[0], 16) is Some);
    if digits.len() >= 2 {
        assert(text[3] == digits[1]);
        assert(digit_value(digits[1], 16) is Some);
    }
    assert(!hex_prefix_at(text, 2));
    assert(after_hex_prefixes(text, 2) == 2);
    assert(after_hex_prefixes(text, 0) == 2);
}

fn digit_of(c: char, radix: u64) -> (r: Option<u64>)
    requires
        radix == 10 || radix == 16,
    ensures
        r is Some <==> digit_value(c, radix as nat) is Some,
        r matches Some(d) ==> digit_value(c, radix as nat) == Some(d as nat) && d < radix,
{
    if '0' <= c && c <= '9' {
        Some((c as u64) - 48)
    } else if radix == 16 && 'a' <= c && c <= 'f' {
        Some((c as u64) - 87)
    } else if radix == 16 && 'A' <= c && c <= 'F' {
        Some((c as u64) - 55)
    } else {
        None
    }
}

fn number_from(text: &Vec<char>, radix: u64, from: usize) -> (r: Result<u64, AddressParseError>)
    requires
        radix == 10 || radix == 16,
        from <= text.len(),
    ensures
        r == read_number(text@, radix as nat, from as int),
{
    if from >= text.len() {
        return Err(AddressParseError::Empty);
    }
    let mut i: usize = from;
    if text[from] == '+' {
        if from + 1 >= text.len() {
            return Err(AddressParseError::InvalidDigit);
        }
        i = from + 1;
    }
    let mut value: u64 = 0;
    while i < text.len()
        invariant
            radix == 10 || radix == 16,
            i <= text.len(),
            read_digits(text@, radix as nat, i as int, value as nat) == read_number(
                text@,
                radix as nat,
                from as int,
            ),
        decreases text.len() - i,
    {
        match digit_of(text[i], radix) {
            None => {
                return Err(AddressParseError::InvalidDigit);
            },
            Some(d) => {
                if value > (u64::MAX - d) / radix {
                    assert(value * radix + d > u64::MAX) by (nonlinear_arith)
                        requires
                            value > (u64::MAX - d) / (radix as int),
                            radix > 0,
                            d <= u64::MAX,
                    ;
                    return Err(AddressParseError::Overflow);
                }
                assert(value * radix + d <= u64::MAX) by (nonlinear_arith)
                    requires
                        value <= (u64::MAX - d) / (radix as int),
                        radix > 0,
                        d <= u64::MAX,
                ;
                value = value * radix + d;
            },
        }
        i += 1;
    }
    Ok(value)
}

/// Reads an address as it is written on the command line.
pub fn parse_address_string(address: &str) -> (r: Result<u64, AddressParseError>)
    ensures
        r == address_of_text(address@),
{
    let text = chars_of(address);
    if text.len() >= 2 && text[0] == '0' && text[1] == 'x' {
        let mut from: usize = 0;
        while text.len() - from >= 2 && text[from] == '0' && text[from + 1] == 'x'
            invariant
                from <= text.len(),
                after_hex_prefixes(text@, from as int) == after_hex_prefixes(text@, 0),
            decreases text.len() - from,
        {
            from += 2;
        }
        number_from(&text, 16, from)
    } else {
        number_from(&text, 10, 0)
    }
}

} // verus!
