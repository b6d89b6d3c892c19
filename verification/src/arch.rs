//! Architecture names: their normal form, the aliases that name one
//! architecture, and the comparison of two names.

use vstd::prelude::*;
use crate::text::{chars_of, lower_char, same_text, string_of, to_lower};

verus! {

/// An ASCII letter or digit.
pub open spec fn is_alphanumeric(c: char) -> bool {
    ('0' <= c && c <= '9') || ('a' <= c && c <= 'z') || ('A' <= c && c <= 'Z')
}

/// A digit or a small ASCII letter: the characters of a normal form.
pub open spec fn is_normal_char(c: char) -> bool {
    ('0' <= c && c <= '9') || ('a' <= c && c <= 'z')
}

/// The normal form of a name: its ASCII letters and digits, the letters in
/// lower case; every other character is dropped.
pub open spec fn normalized(token: Seq<char>) -> Seq<char>
    decreases token.len(),
{
    if token.len() == 0 {
        Seq::empty()
    } else if is_alphanumeric(token.last()) {
        normalized(token.drop_last()).push(lower_char(token.last()))
    } else {
        normalized(token.drop_last())
    }
}

/// The name that stands for all aliases of a normal form: `arm64` for
/// `aarch64`; `x8664` for `amd64` and `x64`; `i386` for `x86`. Any other
/// normal form stands for itself.
pub open spec fn canonical(normal: Seq<char>) -> Seq<char> {
    if normal == "aarch64"@ {
        "arm64"@
    } else if normal == "amd64"@ || normal == "x64"@ {
        "x8664"@
    } else if normal == "x86"@ {
        "i386"@
    } else {
        normal
    }
}

/// Two names are names of one architecture.
pub open spec fn same_architecture(a: Seq<char>, b: Seq<char>) -> bool {
    canonical(normalized(a)) == canonical(normalized(b))
}

/// The comparison of two names does not depend on their order.
pub proof fn lemma_same_architecture_symmetric(a: Seq<char>, b: Seq<char>)
    ensures
        same_architecture(a, b) == same_architecture(b, a),
{
}

/// The normal form is one of the names of the 64-bit ARM architecture.
pub open spec fn names_arm64(normal: Seq<char>) -> bool {
    normal == "arm64"@ || normal == "aarch64"@
}

/// The normal form is one of the names of the 64-bit x86 architecture.
pub open spec fn names_x86_64(normal: Seq<char>) -> bool {
    normal == "x8664"@ || normal == "amd64"@ || normal == "x64"@
}

/// The normal form is one of the names of the 32-bit x86 architecture.
pub open spec fn names_i386(normal: Seq<char>) -> bool {
    normal == "i386"@ || normal == "x86"@
}

/// What the literals of the alias table hold.
proof fn lemma_alias_literals()
    ensures
        "arm64"@ == seq!['a', 'r', 'm', '6', '4'],
        "aarch64"@ == seq!['a', 'a', 'r', 'c', 'h', '6', '4'],
        "arm64e"@ == seq!['a', 'r', 'm', '6', '4', 'e'],
        "x8664"@ == seq!['x', '8', '6', '6', '4'],
        "amd64"@ == seq!['a', 'm', 'd', '6', '4'],
        "x64"@ == seq!['x', '6', '4'],
        "i386"@ == seq!['i', '3', '8', '6'],
        "x86"@ == seq!['x', '8', '6'],
{
    reveal_strlit("arm64");
    reveal_strlit("aarch64");
    reveal_strlit("arm64e");
    reveal_strlit("x8664");
    reveal_strlit("amd64");
    reveal_strlit("x64");
    reveal_strlit("i386");
    reveal_strlit("x86");
    assert("arm64"@ =~= seq!['a', 'r', 'm', '6', '4']);
    assert("aarch64"@ =~= seq!['a', 'a', 'r', 'c', 'h', '6', '4']);
    assert("arm64e"@ =~= seq!['a', 'r', 'm', '6', '4', 'e']);
    assert("x8664"@ =~= seq!['x', '8', '6', '6', '4']);
    assert("amd64"@ =~= seq!['a', 'm', 'd', '6', '4']);
    assert("x64"@ =~= seq!['x', '6', '4']);
    assert("i386"@ =~= seq!['i', '3', '8', '6']);
    assert("x86"@ =~= seq!['x', '8', '6']);
}

/// The canonical names of the three classes of aliases, and of `arm64e`.
proof fn lemma_canonical_of_classes(normal: Seq<char>)
    ensures
        names_arm64(normal) ==> canonical(normal) == "arm64"@,
        names_x86_64(normal) ==> canonical(normal) == "x8664"@,
        names_i386(normal) ==> canonical(normal) == "i386"@,
        normal == "arm64e"@ ==> canonical(normal) == "arm64e"@,
        "arm64"@ != "x8664"@,
        "arm64"@ != "i386"@,
        "arm64"@ != "arm64e"@,
        "x8664"@ != "i386"@,
{
    lemma_alias_literals();
    let arm64 = seq!['a', 'r', 'm', '6', '4'];
    let aarch64 = seq!['a', 'a', 'r', 'c', 'h', '6', '4'];
    let arm64e = seq!['a', 'r', 'm', '6', '4', 'e'];
    let x8664 = seq!['x', '8', '6', '6', '4'];
    let amd64 = seq!['a', 'm', 'd', '6', '4'];
    let x64 = seq!['x', '6', '4'];
    let i386 = seq!['i', '3', '8', '6'];
    let x86 = seq!['x', '8', '6'];
    assert(arm64.len() == 5 && aarch64.len() == 7 && arm64e.len() == 6 && x8664.len() == 5
        && amd64.len() == 5 && x64.len() == 3 && i386.len() == 4 && x86.len() == 3);
    assert(arm64[0] == 'a' && amd64[0] == 'a' && x8664[0] == 'x');
    assert(arm64[1] == 'r' && amd64[1] == 'm');
    assert(x64[1] == '6' && x86[1] == '8');
}

/// Two names whose normal forms are aliases of one architecture match,
/// whichever is given first; names of two of the three classes do not; and
/// `arm64e` matches neither name of the 64-bit ARM architecture.
pub proof fn lemma_alias_classes(a: Seq<char>, b: Seq<char>)
    ensures
        names_arm64(normalized(a)) && names_arm64(normalized(b)) ==> same_architecture(a, b)
            && same_architecture(b, a),
        names_x86_64(normalized(a)) && names_x86_64(normalized(b)) ==> same_architecture(a, b)
            && same_architecture(b, a),
        names_i386(normalized(a)) && names_i386(normalized(b)) ==> same_architecture(a, b)
            && same_architecture(b, a),
        names_arm64(normalized(a)) && names_x86_64(normalized(b)) ==> !same_architecture(a, b)
            && !same_architecture(b, a),
        names_arm64(normalized(a)) && names_i386(normalized(b)) ==> !same_architecture(a, b)
            && !same_architecture(b, a),
        names_x86_64(normalized(a)) && names_i386(normalized(b)) ==> !same_architecture(a, b)
            && !same_architecture(b, a),
        names_arm64(normalized(a)) && normalized(b) == "arm64e"@ ==> !same_architecture(a, b)
            && !same_architecture(b, a),
{
    lemma_canonical_of_classes(normalized(a));
    lemma_canonical_of_classes(normalized(b));
}

/// `arm64` and `aarch64` match; `arm64` and `arm64e` do not.
pub proof fn lemma_arm64_is_not_arm64e()
    ensures
        same_architecture("arm64"@, "aarch64"@),
        same_architecture("aarch64"@, "arm64"@),
        !same_architecture("arm64"@, "arm64e"@),
        !same_architecture("arm64e"@, "arm64"@),
{
    lemma_alias_literals();
    lemma_normal_form_fixed("arm64"@);
    lemma_normal_form_fixed("aarch64"@);
    lemma_normal_form_fixed("arm64e"@);
    lemma_alias_classes("arm64"@, "aarch64"@);
    lemma_alias_classes("arm64"@, "arm64e"@);
}

/// A name made of digits and small letters alone is its own normal form.
pub proof fn lemma_normal_form_fixed(token: Seq<char>)
    requires
        forall|i: int| 0 <= i < token.len() ==> is_normal_char(token[i]),
    ensures
        normalized(token) == token,
    decreases token.len(),
{
    if token.len() > 0 {
        lemma_normal_form_fixed(token.drop_last());
        assert(is_normal_char(token.last()));
        assert(token.drop_last().push(token.last()) =~= token);
    }
}

/// The normal form of a name.
pub fn normalize(token: &str) -> (r: String)
    ensures
        r@ == normalized(token@),
{
    let chars = chars_of(token);
    let mut out: Vec<char> = Vec::new();
    let mut i: usize = 0;
    while i < chars.len()
        invariant
            i <= chars.len(),
            out@ == normalized(chars@.take(i as int)),
        decreases chars.len() - i,
    {
        let c = chars[i];
        proof {
            assert(chars@.take(i + 1).drop_last() =~= chars@.take(i as int));
            assert(chars@.take(i + 1).last() == c);
        }
        if ('0' <= c && c <= '9') || ('a' <= c && c <= 'z') || ('A' <= c && c <= 'Z') {
            out.push(to_lower(c));
        }
        i += 1;
    }
    assert(chars@.take(chars@.len() as int) =~= chars@);
    string_of(&out)
}

/// The name that stands for all aliases of the normal form `normal`.
pub fn canonical_name(normal: String) -> (r: String)
    ensures
        r@ == canonical(normal@),
{
    if same_text(normal.as_str(), "aarch64") {
        "arm64".to_owned()
    } else if same_text(normal.as_str(), "amd64") || same_text(normal.as_str(), "x64") {
        "x8664".to_owned()
    } else if same_text(normal.as_str(), "x86") {
        "i386".to_owned()
    } else {
        normal
    }
}

/// Whether `a` and `b` name one architecture.
pub fn architecture_matches(a: &str, b: &str) -> (r: bool)
    ensures
        r == same_architecture(a@, b@),
{
    let x = canonical_name(normalize(a));
    let y = canonical_name(normalize(b));
    same_text(x.as_str(), y.as_str())
}

} // verus!
