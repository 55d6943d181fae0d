//! The wire-naming convention: record field names are rewritten to a
//! camel-case form before they cross the bridge. An underscore is dropped
//! and the letter that follows it is uppercased; the first character of
//! the result is lowercased; all other characters are kept as they are.

use vstd::prelude::*;
use vstd::pervasive::VecAdditionalExecFns;

verus! {

/// Uppercase form of an ASCII lowercase letter; any other character is kept.
pub open spec fn spec_upper(c: char) -> char {
    if c == 'a' { 'A' } else if c == 'b' { 'B' } else if c == 'c' { 'C' } else if c == 'd' { 'D' }
    else if c == 'e' { 'E' } else if c == 'f' { 'F' } else if c == 'g' { 'G' }
    else if c == 'h' { 'H' } else if c == 'i' { 'I' } else if c == 'j' { 'J' }
    else if c == 'k' { 'K' } else if c == 'l' { 'L' } else if c == 'm' { 'M' }
    else if c == 'n' { 'N' } else if c == 'o' { 'O' } else if c == 'p' { 'P' }
    else if c == 'q' { 'Q' } else if c == 'r' { 'R' } else if c == 's' { 'S' }
    else if c == 't' { 'T' } else if c == 'u' { 'U' } else if c == 'v' { 'V' }
    else if c == 'w' { 'W' } else if c == 'x' { 'X' } else if c == 'y' { 'Y' }
    else if c == 'z' { 'Z' } else { c }
}

fn upper(c: char) -> (r: char)
    ensures
        r == spec_upper(c),
{
    if c == 'a' { 'A' } else if c == 'b' { 'B' } else if c == 'c' { 'C' } else if c == 'd' { 'D' }
    else if c == 'e' { 'E' } else if c == 'f' { 'F' } else if c == 'g' { 'G' }
    else if c == 'h' { 'H' } else if c == 'i' { 'I' } else if c == 'j' { 'J' }
    else if c == 'k' { 'K' } else if c == 'l' { 'L' } else if c == 'm' { 'M' }
    else if c == 'n' { 'N' } else if c == 'o' { 'O' } else if c == 'p' { 'P' }
    else if c == 'q' { 'Q' } else if c == 'r' { 'R' } else if c == 's' { 'S' }
    else if c == 't' { 'T' } else if c == 'u' { 'U' } else if c == 'v' { 'V' }
    else if c == 'w' { 'W' } else if c == 'x' { 'X' } else if c == 'y' { 'Y' }
    else if c == 'z' { 'Z' } else { c }
}

/// The camel-case rewriting of `s` from position `i` on, where `cap` says
/// whether the next emitted letter follows a dropped underscore.
pub open spec fn camel_from(s: Seq<char>, i: int, cap: bool) -> Seq<char>
    decreases s.len() - i,
{
    if i < 0 || i >= s.len() {
        Seq::<char>::empty()
    } else if s[i] == '_' {
        camel_from(s, i + 1, true)
    } else if cap {
        seq![spec_upper(s[i])] + camel_from(s, i + 1, false)
    } else {
        seq![s[i]] + camel_from(s, i + 1, false)
    }
}

/// Lowercase form of an ASCII uppercase letter; any other character is kept.
pub open spec fn spec_lower(c: char) -> char {
    if c == 'A' { 'a' } else if c == 'B' { 'b' } else if c == 'C' { 'c' } else if c == 'D' { 'd' }
    else if c == 'E' { 'e' } else if c == 'F' { 'f' } else if c == 'G' { 'g' }
    else if c == 'H' { 'h' } else if c == 'I' { 'i' } else if c == 'J' { 'j' }
    else if c == 'K' { 'k' } else if c == 'L' { 'l' } else if c == 'M' { 'm' }
    else if c == 'N' { 'n' } else if c == 'O' { 'o' } else if c == 'P' { 'p' }
    else if c == 'Q' { 'q' } else if c == 'R' { 'r' } else if c == 'S' { 's' }
    else if c == 'T' { 't' } else if c == 'U' { 'u' } else if c == 'V' { 'v' }
    else if c == 'W' { 'w' } else if c == 'X' { 'x' } else if c == 'Y' { 'y' }
    else if c == 'Z' { 'z' } else { c }
}

fn lower(c: char) -> (r: char)
    ensures
        r == spec_lower(c),
{
    if c == 'A' { 'a' } else if c == 'B' { 'b' } else if c == 'C' { 'c' } else if c == 'D' { 'd' }
    else if c == 'E' { 'e' } else if c == 'F' { 'f' } else if c == 'G' { 'g' }
    else if c == 'H' { 'h' } else if c == 'I' { 'i' } else if c == 'J' { 'j' }
    else if c == 'K' { 'k' } else if c == 'L' { 'l' } else if c == 'M' { 'm' }
    else if c == 'N' { 'n' } else if c == 'O' { 'o' } else if c == 'P' { 'p' }
    else if c == 'Q' { 'q' } else if c == 'R' { 'r' } else if c == 'S' { 's' }
    else if c == 'T' { 't' } else if c == 'U' { 'u' } else if c == 'V' { 'v' }
    else if c == 'W' { 'w' } else if c == 'X' { 'x' } else if c == 'Y' { 'y' }
    else if c == 'Z' { 'z' } else { c }
}

/// The result's first character is lowercased.
pub open spec fn lower_first(t: Seq<char>) -> Seq<char> {
    if t.len() == 0 {
        t
    } else {
        t.update(0, spec_lower(t[0]))
    }
}

/// The wire name of a declared field name.
pub open spec fn wire_name_of(s: Seq<char>) -> Seq<char> {
    lower_first(camel_from(s, 0, false))
}

/// Relies on `String`'s `FromIterator<char>` implementation: collecting
/// characters concatenates them, in order, into one string.
#[verifier::external_body]
pub(crate) fn string_from_chars(v: Vec<char>) -> (r: String)
    ensures
        r@ == v@,
{
    v.into_iter().collect()
}

/// Rewrite one declared field name to its wire form.
pub fn wire_name(s: &str) -> (r: String)
    ensures
        r@ == wire_name_of(s@),
{
    let n = s.unicode_len();
    let mut out: Vec<char> = Vec::new();
    let mut cap = false;
    let mut i: usize = 0;
    while i < n
        invariant
            n == s@.len(),
            i <= n,
            camel_from(s@, 0, false) == out@ + camel_from(s@, i as int, cap),
        decreases n - i,
    {
        let c = s.get_char(i);
        if c == '_' {
            cap = true;
        } else if cap {
            let u = upper(c);
            proof {
                assert((out@ + seq![spec_upper(s@[i as int])]) + camel_from(s@, i + 1, false) =~= out@
                    + (seq![spec_upper(s@[i as int])] + camel_from(s@, i + 1, false)));
            }
            out.push(u);
            cap = false;
        } else {
            proof {
                assert((out@ + seq![s@[i as int]]) + camel_from(s@, i + 1, false) =~= out@ + (seq![
                    s@[i as int],
                ] + camel_from(s@, i + 1, false)));
            }
            out.push(c);
            cap = false;
        }
        i = i + 1;
    }
    proof {
        assert(out@ + camel_from(s@, i as int, cap) =~= out@);
    }
    if out.len() > 0 {
        let head = out[0];
        out.set(0, lower(head));
        proof {
            assert(out@ == lower_first(camel_from(s@, 0, false)));
        }
    }
    string_from_chars(out)
}

} // verus!
