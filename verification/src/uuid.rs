//! The 128-bit identifier of an image: reading it from text and writing it in
//! its canonical form, upper-case hexadecimal digits grouped 8-4-4-4-12.

use vstd::prelude::*;
use crate::error::Error;
use crate::text::{chars_of, string_of, upper_char};

verus! {

/// The identifier of an image, as the image holds it: sixteen bytes.
#[derive(Clone, Copy, Debug, PartialEq, Eq)]
pub struct Uuid {
    pub bytes: [u8; 16],
}

impl View for Uuid {
    type V = Seq<u8>;

    open spec fn view(&self) -> Seq<u8> {
        self.bytes@
    }
}

/// A hexadecimal digit, in either case.
pub open spec fn is_hex_digit(c: char) -> bool {
    ('0' <= c && c <= '9') || ('a' <= c && c <= 'f') || ('A' <= c && c <= 'F')
}

/// The value of a hexadecimal digit, in either case.
pub open spec fn hex_value(c: char) -> nat {
    if '0' <= c && c <= '9' {
        (c as nat - 48) as nat
    } else if 'a' <= c && c <= 'f' {
        (c as nat - 87) as nat
    } else {
        (c as nat - 55) as nat
    }
}

/// The upper-case hexadecimal digit of a value below sixteen.
pub open spec fn upper_hex_char(value: nat) -> char {
    if value < 10 {
        (48 + value) as char
    } else {
        (55 + value) as char
    }
}

/// `text` with every hyphen left out, wherever it stands.
pub open spec fn without_hyphens(text: Seq<char>) -> Seq<char>
    decreases text.len(),
{
    if text.len() == 0 {
        Seq::empty()
    } else if text.last() == '-' {
        without_hyphens(text.drop_last())
    } else {
        without_hyphens(text.drop_last()).push(text.last())
    }
}

/// `text` writes an identifier: without its hyphens it is 32 hexadecimal digits.
pub open spec fn is_identifier_text(text: Seq<char>) -> bool {
    &&& without_hyphens(text).len() == 32
    &&& forall|i: int| 0 <= i < 32 ==> is_hex_digit(#[trigger] without_hyphens(text)[i])
}

/// The sixteen bytes that 32 hexadecimal digits write, two digits to a byte.
pub open spec fn bytes_of_digits(digits: Seq<char>) -> Seq<u8> {
    Seq::new(16, |i: int| (hex_value(digits[2 * i]) * 16 + hex_value(digits[2 * i + 1])) as u8)
}

/// The identifier that `text` writes, if it writes one.
pub open spec fn identifier_of_text(text: Seq<char>) -> Option<Seq<u8>> {
    if is_identifier_text(text) {
        Some(bytes_of_digits(without_hyphens(text)))
    } else {
        None
    }
}

/// The upper-case hexadecimal digits of `bytes`, two to a byte.
pub open spec fn hex_digits(bytes: Seq<u8>) -> Seq<char> {
    Seq::new(
        2 * bytes.len(),
        |i: int|
            upper_hex_char(
                if i % 2 == 0 {
                    (bytes[i / 2] / 16) as nat
                } else {
                    (bytes[i / 2] % 16) as nat
                },
            ),
    )
}

/// 32 digits in groups of 8, 4, 4, 4 and 12 with a hyphen between the groups.
pub open spec fn grouped(digits: Seq<char>) -> Seq<char> {
    digits.subrange(0, 8) + seq!['-'] + digits.subrange(8, 12) + seq!['-'] + digits.subrange(12, 16)
        + seq!['-'] + digits.subrange(16, 20) + seq!['-'] + digits.subrange(20, 32)
}

/// The canonical text of an identifier.
pub open spec fn rendered(bytes: Seq<u8>) -> Seq<char> {
    grouped(hex_digits(bytes))
}

/// The canonical form of a text that writes an identifier: its digits in
/// upper case, grouped.
pub open spec fn canonical_text(text: Seq<char>) -> Seq<char> {
    grouped(without_hyphens(text).map_values(|c: char| upper_char(c)))
}

/// Reading a text and writing the identifier again gives the canonical form of
/// the text, whatever its case and wherever its hyphens stand.
pub proof fn lemma_render_parse(text: Seq<char>)
    requires
        is_identifier_text(text),
    ensures
        rendered(identifier_of_text(text).unwrap()) == canonical_text(text),
{
    let digits = without_hyphens(text);
    let bytes = bytes_of_digits(digits);
    let upper = digits.map_values(|c: char| upper_char(c));
    assert forall|i: int| 0 <= i < 32 implies hex_digits(bytes)[i] == upper[i] by {
        let hi = hex_value(digits[2 * (i / 2)]);
        let lo = hex_value(digits[2 * (i / 2) + 1]);
        assert(is_hex_digit(digits[2 * (i / 2)]));
        assert(is_hex_digit(digits[2 * (i / 2) + 1]));
        assert(hi < 16 && lo < 16);
        assert(bytes[i / 2] == (hi * 16 + lo) as u8);
        assert(is_hex_digit(digits[i]));
    }
    assert(hex_digits(bytes) =~= upper);
}

/// Leaving out the hyphens of two texts in a row is leaving them out of each.
proof fn lemma_without_hyphens_add(a: Seq<char>, b: Seq<char>)
    ensures
        without_hyphens(a + b) == without_hyphens(a) + without_hyphens(b),
    decreases b.len(),
{
    if b.len() == 0 {
        assert(a + b =~= a);
        assert(without_hyphens(a) + without_hyphens(b) =~= without_hyphens(a));
    } else {
        lemma_without_hyphens_add(a, b.drop_last());
        assert((a + b).drop_last() =~= a + b.drop_last());
        assert((a + b).last() == b.last());
        if b.last() != '-' {
            assert(without_hyphens(a) + without_hyphens(b.drop_last()).push(b.last()) =~= (
            without_hyphens(a) + without_hyphens(b.drop_last())).push(b.last()));
        }
    }
}

/// A text without hyphens stays as it is.
proof fn lemma_without_hyphens_fixed(text: Seq<char>)
    requires
        forall|i: int| 0 <= i < text.len() ==> text[i] != '-',
    ensures
        without_hyphens(text) == text,
    decreases text.len(),
{
    if text.len() > 0 {
        lemma_without_hyphens_fixed(text.drop_last());
        assert(text.drop_last().push(text.last()) =~= text);
    }
}

/// Writing an identifier and reading the text again gives the identifier: the
/// canonical text of sixteen bytes is a text that writes them.
pub proof fn lemma_parse_render(bytes: Seq<u8>)
    requires
        bytes.len() == 16,
    ensures
        is_identifier_text(rendered(bytes)),
        identifier_of_text(rendered(bytes)) == Some(bytes),
{
    let digits = hex_digits(bytes);
    assert forall|i: int| 0 <= i < 32 implies is_hex_digit(#[trigger] digits[i]) && digits[i] != '-' by {
        assert(bytes[i / 2] / 16 < 16 && bytes[i / 2] % 16 < 16);
    }
    let hyphen = seq!['-'];
    assert(without_hyphens(hyphen) =~= Seq::<char>::empty()) by {
        assert(hyphen.drop_last() =~= Seq::<char>::empty());
        assert(hyphen.last() == '-');
        assert(without_hyphens(Seq::<char>::empty()) =~= Seq::<char>::empty());
    }
    let g1 = digits.subrange(0, 8);
    let g2 = digits.subrange(8, 12);
    let g3 = digits.subrange(12, 16);
    let g4 = digits.subrange(16, 20);
    let g5 = digits.subrange(20, 32);
    lemma_without_hyphens_fixed(g1);
    lemma_without_hyphens_fixed(g2);
    lemma_without_hyphens_fixed(g3);
    lemma_without_hyphens_fixed(g4);
    lemma_without_hyphens_fixed(g5);
    lemma_without_hyphens_add(g1, hyphen);
    lemma_without_hyphens_add(g1 + hyphen, g2);
    lemma_without_hyphens_add(g1 + hyphen + g2, hyphen);
    lemma_without_hyphens_add(g1 + hyphen + g2 + hyphen, g3);
    lemma_without_hyphens_add(g1 + hyphen + g2 + hyphen + g3, hyphen);
    lemma_without_hyphens_add(g1 + hyphen + g2 + hyphen + g3 + hyphen, g4);
    lemma_without_hyphens_add(g1 + hyphen + g2 + hyphen + g3 + hyphen + g4, hyphen);
    lemma_without_hyphens_add(g1 + hyphen + g2 + hyphen + g3 + hyphen + g4 + hyphen, g5);
    assert(without_hyphens(rendered(bytes)) =~= digits);
    assert forall|i: int| 0 <= i < 16 implies bytes_of_digits(digits)[i] == bytes[i] by {
        let hi = (bytes[i] / 16) as nat;
        let lo = (bytes[i] % 16) as nat;
        assert(digits[2 * i] == upper_hex_char(hi));
        assert(digits[2 * i + 1] == upper_hex_char(lo));
        assert(hex_value(upper_hex_char(hi)) == hi);
        assert(hex_value(upper_hex_char(lo)) == lo);
    }
    assert(bytes_of_digits(digits) =~= bytes);
}

fn hex_digit_value(c: char) -> (r: Option<u8>)
    ensures
        r is Some <==> is_hex_digit(c),
        r matches Some(v) ==> v == hex_value(c) && v < 16,
{
    if '0' <= c && c <= '9' {
        Some((c as u8) - 48)
    } else if 'a' <= c && c <= 'f' {
        Some((c as u8) - 87)
    } else if 'A' <= c && c <= 'F' {
        Some((c as u8) - 55)
    } else {
        None
    }
}

fn upper_hex(value: u8) -> (r: char)
    requires
        value < 16,
    ensures
        r == upper_hex_char(value as nat),
{
    if value < 10 {
        (48 + value) as char
    } else {
        (55 + value) as char
    }
}

fn push_range(out: &mut Vec<char>, digits: &Vec<char>, from: usize, to: usize)
    requires
        from <= to <= digits.len(),
    ensures
        final(out)@ == old(out)@ + digits@.subrange(from as int, to as int),
{
    let mut i: usize = from;
    while i < to
        invariant
            from <= i <= to <= digits.len(),
            out@ == old(out)@ + digits@.subrange(from as int, i as int),
        decreases to - i,
    {
        out.push(digits[i]);
        assert(digits@.subrange(from as int, i + 1) =~= digits@.subrange(from as int, i as int).push(
            digits@[i as int],
        ));
        assert(out@ =~= old(out)@ + digits@.subrange(from as int, i + 1));
        i += 1;
    }
}

impl Uuid {
    /// Reads an identifier from text: 32 hexadecimal digits in either case;
    /// hyphens are passed over. Any other text is refused.
    pub fn parse(text: &str) -> (r: Result<Uuid, Error>)
        ensures
            r is Ok <==> is_identifier_text(text@),
            r matches Ok(id) ==> Some(id@) == identifier_of_text(text@),
            r matches Err(e) ==> e == Error::InvalidIdentifier,
    {
        let chars = chars_of(text);
        let mut digits: Vec<char> = Vec::new();
        let mut i: usize = 0;
        while i < chars.len()
            invariant
                i <= chars.len(),
                digits@ == without_hyphens(chars@.take(i as int)),
            decreases chars.len() - i,
        {
            proof {
                assert(chars@.take(i + 1).drop_last() =~= chars@.take(i as int));
            }
            if chars[i] != '-' {
                digits.push(chars[i]);
            }
            i += 1;
        }
        assert(chars@.take(chars@.len() as int) =~= chars@);
        if digits.len() != 32 {
            return Err(Error::InvalidIdentifier);
        }
        let mut bytes: [u8; 16] = [0u8; 16];
        let mut k: usize = 0;
        while k < 16
            invariant
                k <= 16,
                digits@.len() == 32,
                digits@ == without_hyphens(text@),
                forall|j: int| 0 <= j < 2 * k ==> is_hex_digit(digits@[j]),
                forall|j: int| 0 <= j < k ==> bytes@[j] == bytes_of_digits(digits@)[j],
            decreases 16 - k,
        {
            let hi = hex_digit_value(digits[2 * k]);
            let lo = hex_digit_value(digits[2 * k + 1]);
            match (hi, lo) {
                (Some(h), Some(l)) => {
                    bytes[k] = h * 16 + l;
                },
                _ => {
                    return Err(Error::InvalidIdentifier);
                },
            }
            k += 1;
        }
        assert(bytes@ =~= bytes_of_digits(digits@));
        Ok(Uuid { bytes })
    }

    /// The canonical text of the identifier.
    pub fn render(&self) -> (r: String)
        ensures
            r@ == rendered(self@),
    {
        let mut digits: Vec<char> = Vec::new();
        let mut k: usize = 0;
        while k < 16
            invariant
                k <= 16,
                digits@.len() == 2 * k,
                forall|j: int| 0 <= j < 2 * k ==> digits@[j] == hex_digits(self@)[j],
            decreases 16 - k,
        {
            let b = self.bytes[k];
            digits.push(upper_hex(b / 16));
            digits.push(upper_hex(b % 16));
            k += 1;
        }
        assert(digits@ =~= hex_digits(self@));
        let mut out: Vec<char> = Vec::new();
        push_range(&mut out, &digits, 0, 8);
        out.push('-');
        push_range(&mut out, &digits, 8, 12);
        out.push('-');
        push_range(&mut out, &digits, 12, 16);
        out.push('-');
        push_range(&mut out, &digits, 16, 20);
        out.push('-');
        push_range(&mut out, &digits, 20, 32);
        assert(out@ =~= grouped(digits@));
        string_of(&out)
    }

    /// Whether two identifiers hold the same bytes.
    pub fn same(&self, other: &Uuid) -> (r: bool)
        ensures
            r == (self@ == other@),
    {
        let mut k: usize = 0;
        while k < 16
            invariant
                k <= 16,
                forall|j: int| 0 <= j < k ==> self@[j] == other@[j],
            decreases 16 - k,
        {
            if self.bytes[k] != other.bytes[k] {
                return false;
            }
            k += 1;
        }
        assert(self@ =~= other@);
        true
    }
}

} // verus!
