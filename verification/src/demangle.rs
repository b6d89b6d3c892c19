//! Display names of symbols.

use symbolic_common::Name;
use symbolic_demangle::{Demangle, DemangleOptions};
use vstd::prelude::*;
use crate::text::chars_of;

verus! {

/// The display name that symbolic gives for the raw symbol name `symbol`.
pub uninterp spec fn demangled(symbol: Seq<char>) -> Seq<char>;

/// A decimal digit.
pub open spec fn is_decimal_digit(c: char) -> bool {
    '0' <= c && c <= '9'
}

/// The name has the form of a name of the Microsoft compiler: it begins with
/// `?` or with `@?`.
pub open spec fn is_msvc_form(symbol: Seq<char>) -> bool {
    (symbol.len() >= 1 && symbol[0] == '?') || (symbol.len() >= 2 && symbol[0] == '@' && symbol[1]
        == '?')
}

/// The number of decimal digits in a row from which on a name is not handed
/// to the demanglers: the greatest signed number of 64 bits has as many.
pub const LONG_NUMBER: usize = 19;

/// At `p` the text holds `LONG_NUMBER` decimal digits in a row.
pub open spec fn long_number_at(text: Seq<char>, p: int) -> bool {
    &&& 0 <= p
    &&& p + LONG_NUMBER <= text.len()
    &&& forall|k: int| 0 <= k < LONG_NUMBER ==> is_decimal_digit(#[trigger] text[p + k])
}

/// The name can be handed to the demanglers: it has not the form of a name of
/// the Microsoft compiler, and nowhere does it hold `LONG_NUMBER` decimal
/// digits in a row.
pub open spec fn can_demangle(symbol: Seq<char>) -> bool {
    !is_msvc_form(symbol) && forall|p: int| !long_number_at(symbol, p)
}

/// The name under which a symbol is shown: what symbolic gives for it; the
/// name as it is where it cannot be handed to the demanglers.
pub open spec fn display_name(symbol: Seq<char>) -> Seq<char> {
    if can_demangle(symbol) {
        demangled(symbol)
    } else {
        symbol
    }
}

/// Calls `symbolic_common::Name::from` and `symbolic_demangle::Demangle::try_demangle`
/// with `DemangleOptions::complete()`. The call never fails: a name that
/// symbolic does not recognise as mangled comes back as it is.
/// The demanglers behind symbolic compute on the numbers that they read from a
/// name without a test, and panic where a result leaves its type and overflow
/// is checked. msvc-demangler does so in several places (the number of a
/// guard, the negation of a number, the bytes of an escaped character), and
/// symbolic hands it the names that begin with `?` or `@?`; cpp_demangle adds
/// one to a number as great as the greatest signed number of 64 bits. The
/// `requires` leaves out every name of the Microsoft form and every name with
/// `LONG_NUMBER` digits in a row.
/// The contract only names the result and is not proved.
#[verifier::external_body]
fn demangle_with_symbolic(symbol: &str) -> (r: String)
    requires
        can_demangle(symbol@),
    ensures
        r@ == demangled(symbol@),
{
    let name = Name::from(symbol);
    let result = name.try_demangle(DemangleOptions::complete());
    result.to_string()
}

fn long_number_starts_at(text: &Vec<char>, p: usize) -> (r: bool)
    requires
        p + LONG_NUMBER <= text.len(),
    ensures
        r == long_number_at(text@, p as int),
{
    let mut k: usize = 0;
    while k < LONG_NUMBER
        invariant
            k <= LONG_NUMBER,
            p + LONG_NUMBER <= text.len(),
            forall|j: int| 0 <= j < k ==> is_decimal_digit(#[trigger] text@[p + j]),
        decreases LONG_NUMBER - k,
    {
        let c = text[p + k];
        if !('0' <= c && c <= '9') {
            assert(!is_decimal_digit(text@[p + k]));
            return false;
        }
        k += 1;
    }
    true
}

/// Tests whether a name can be handed to the demanglers.
pub fn is_demangler_input(symbol: &str) -> (r: bool)
    ensures
        r == can_demangle(symbol@),
{
    let text = chars_of(symbol);
    if text.len() >= 1 && text[0] == '?' {
        return false;
    }
    if text.len() >= 2 && text[0] == '@' && text[1] == '?' {
        return false;
    }
    if text.len() < LONG_NUMBER {
        return true;
    }
    let last = text.len() - LONG_NUMBER;
    let mut p: usize = 0;
    while p <= last
        invariant
            p <= last + 1,
            last + LONG_NUMBER == text.len(),
            text@ == symbol@,
            !is_msvc_form(symbol@),
            forall|q: int| 0 <= q < p ==> !long_number_at(text@, q),
        decreases last + 1 - p,
    {
        if long_number_starts_at(&text, p) {
            return false;
        }
        p += 1;
    }
    true
}

/// The name under which the symbol `symbol` is shown.
pub fn demangle_symbol(symbol: &str) -> (r: String)
    ensures
        r@ == display_name(symbol@),
{
    if is_demangler_input(symbol) {
        demangle_with_symbolic(symbol)
    } else {
        symbol.to_owned()
    }
}

} // verus!
