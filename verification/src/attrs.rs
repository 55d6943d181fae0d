//! The configuration attribute parser: a sequence of `key = "value"`
//! pairs, whitespace-separated, as they stand between the parentheses of
//! the generation trigger. Keys are ASCII identifiers; values are string
//! literals with the standard escape forms (`\\`, `\"`, `\'`, `\n`,
//! `\r`, `\t`, `\0`, `\x..`, `\u{..}`), and an invalid escape is
//! malformed. The one recognized key is `cmd_prefix`; of repeated keys the
//! last one wins.

use vstd::prelude::*;
use crate::ast::{GenerationConfig, GenerationError};
use crate::wire::string_from_chars;
use vstd::string::StrSliceExecFns;

verus! {

pub open spec fn is_ws(c: char) -> bool {
    c == ' ' || c == '\t' || c == '\n' || c == '\r'
}

pub open spec fn is_ident_start(c: char) -> bool {
    ('a' <= c && c <= 'z') || ('A' <= c && c <= 'Z') || c == '_'
}

pub open spec fn is_ident_cont(c: char) -> bool {
    is_ident_start(c) || ('0' <= c && c <= '9')
}

/// The first position at or after `i` holding no whitespace.
pub open spec fn skip_ws(s: Seq<char>, i: int) -> int
    decreases s.len() - i,
{
    if i < 0 || i >= s.len() {
        i
    } else if is_ws(s[i]) {
        skip_ws(s, i + 1)
    } else {
        i
    }
}

proof fn lemma_skip_ws_bounds(s: Seq<char>, i: int)
    requires
        0 <= i <= s.len(),
    ensures
        i <= skip_ws(s, i) <= s.len(),
    decreases s.len() - i,
{
    if i < s.len() && is_ws(s[i]) {
        lemma_skip_ws_bounds(s, i + 1);
    }
}

/// The end of the identifier that starts at `i`.
pub open spec fn scan_ident_end(s: Seq<char>, i: int) -> int
    decreases s.len() - i,
{
    if i < 0 || i >= s.len() {
        i
    } else if is_ident_cont(s[i]) {
        scan_ident_end(s, i + 1)
    } else {
        i
    }
}

proof fn lemma_scan_ident_end_bounds(s: Seq<char>, i: int)
    requires
        0 <= i <= s.len(),
    ensures
        i <= scan_ident_end(s, i) <= s.len(),
    decreases s.len() - i,
{
    if i < s.len() && is_ident_cont(s[i]) {
        lemma_scan_ident_end_bounds(s, i + 1);
    }
}

/// The outcome of scanning a string literal's content from position `i`
/// (just after the opening quote) to its closing quote.
pub enum ValueScan {
    Done { value: Seq<char>, next: int },
    Bad { err: GenerationError },
}

/// The value of a hex digit, or a negative number for any other character.
pub open spec fn hex_val(c: char) -> int {
    if '0' <= c && c <= '9' {
        c as int - '0' as int
    } else if 'a' <= c && c <= 'f' {
        c as int - 'a' as int + 10
    } else if 'A' <= c && c <= 'F' {
        c as int - 'A' as int + 10
    } else {
        -1
    }
}

pub open spec fn is_hex(c: char) -> bool {
    hex_val(c) >= 0
}

/// The character a one-letter escape stands for, if the letter is one.
pub open spec fn simple_escape(c: char) -> Option<char> {
    if c == '\\' {
        Some('\\')
    } else if c == '"' {
        Some('"')
    } else if c == '\'' {
        Some('\'')
    } else if c == 'n' {
        Some('\n')
    } else if c == 'r' {
        Some('\r')
    } else if c == 't' {
        Some('\t')
    } else if c == '0' {
        Some('\0')
    } else {
        None
    }
}

/// A Unicode scalar value: a code point outside the surrogate range.
pub open spec fn is_scalar_value(v: int) -> bool {
    (0 <= v && v < 0xD800) || (0xE000 <= v && v <= 0x10FFFF)
}

/// The outcome of scanning the body of a `\u{...}` escape.
pub enum HexScan {
    Done { value: int, next: int },
    Bad { err: GenerationError },
}

/// Scan the body of a `\u{...}` escape from `i` (just after the opening
/// brace): one to six hex digits, then the closing brace.
pub open spec fn scan_hex(s: Seq<char>, i: int, acc: int, count: int) -> HexScan
    decreases s.len() - i,
{
    if i < 0 || i >= s.len() {
        HexScan::Bad { err: GenerationError::MissingSeparator }
    } else if s[i] == '}' {
        if count == 0 {
            HexScan::Bad { err: GenerationError::MalformedKeyValue }
        } else {
            HexScan::Done { value: acc, next: i + 1 }
        }
    } else if is_hex(s[i]) && count < 6 {
        scan_hex(s, i + 1, acc * 16 + hex_val(s[i]), count + 1)
    } else {
        HexScan::Bad { err: GenerationError::MalformedKeyValue }
    }
}

proof fn lemma_scan_hex_bounds(s: Seq<char>, i: int, acc: int, count: int)
    requires
        0 <= i <= s.len(),
    ensures
        scan_hex(s, i, acc, count) matches HexScan::Done { next, .. } ==> i < next <= s.len(),
    decreases s.len() - i,
{
    if 0 <= i < s.len() && s[i] != '}' && is_hex(s[i]) && count < 6 {
        lemma_scan_hex_bounds(s, i + 1, acc * 16 + hex_val(s[i]), count + 1);
    }
}

/// Scan the literal's content: a plain character is taken as it stands; a
/// backslash opens one of the standard escape forms, and any other escape
/// is malformed; an unterminated literal misses its separator.
pub open spec fn scan_value(s: Seq<char>, i: int) -> ValueScan
    decreases s.len() - i,
    via scan_value_dec
{
    if i < 0 || i >= s.len() {
        ValueScan::Bad { err: GenerationError::MissingSeparator }
    } else if s[i] == '"' {
        ValueScan::Done { value: Seq::<char>::empty(), next: i + 1 }
    } else if s[i] == '\\' {
        if i + 1 >= s.len() {
            ValueScan::Bad { err: GenerationError::MissingSeparator }
        } else {
            match simple_escape(s[i + 1]) {
                Some(c) => prepend_value(seq![c], scan_value(s, i + 2)),
                None => if s[i + 1] == 'x' {
                    if i + 3 >= s.len() {
                        ValueScan::Bad { err: GenerationError::MissingSeparator }
                    } else if !is_hex(s[i + 2]) || !is_hex(s[i + 3]) {
                        ValueScan::Bad { err: GenerationError::MalformedKeyValue }
                    } else if hex_val(s[i + 2]) * 16 + hex_val(s[i + 3]) > 0x7f {
                        ValueScan::Bad { err: GenerationError::MalformedKeyValue }
                    } else {
                        prepend_value(
                            seq![((hex_val(s[i + 2]) * 16 + hex_val(s[i + 3])) as char)],
                            scan_value(s, i + 4),
                        )
                    }
                } else if s[i + 1] == 'u' {
                    if i + 2 >= s.len() {
                        ValueScan::Bad { err: GenerationError::MissingSeparator }
                    } else if s[i + 2] != '{' {
                        ValueScan::Bad { err: GenerationError::MalformedKeyValue }
                    } else {
                        match scan_hex(s, i + 3, 0, 0) {
                            HexScan::Bad { err } => ValueScan::Bad { err },
                            HexScan::Done { value, next } => if !is_scalar_value(value) {
                                ValueScan::Bad { err: GenerationError::MalformedKeyValue }
                            } else {
                                prepend_value(seq![(value as char)], scan_value(s, next))
                            },
                        }
                    }
                } else {
                    ValueScan::Bad { err: GenerationError::MalformedKeyValue }
                },
            }
        }
    } else {
        prepend_value(seq![s[i]], scan_value(s, i + 1))
    }
}

#[via_fn]
proof fn scan_value_dec(s: Seq<char>, i: int) {
    if 0 <= i && i + 3 <= s.len() {
        lemma_scan_hex_bounds(s, i + 3, 0, 0);
    }
}

proof fn lemma_scan_value_bounds(s: Seq<char>, i: int)
    requires
        0 <= i <= s.len(),
    ensures
        scan_value(s, i) matches ValueScan::Done { next, .. } ==> i < next <= s.len(),
    decreases s.len() - i,
{
    if 0 <= i < s.len() && s[i] != '"' {
        if s[i] == '\\' {
            if i + 1 < s.len() {
                match simple_escape(s[i + 1]) {
                    Some(_) => {
                        lemma_scan_value_bounds(s, i + 2);
                    },
                    None => {
                        if s[i + 1] == 'x' {
                            if i + 3 < s.len() {
                                lemma_scan_value_bounds(s, i + 4);
                            }
                        } else if s[i + 1] == 'u' {
                            if i + 2 < s.len() && s[i + 2] == '{' {
                                lemma_scan_hex_bounds(s, i + 3, 0, 0);
                                match scan_hex(s, i + 3, 0, 0) {
                                    HexScan::Done { next, .. } => {
                                        lemma_scan_value_bounds(s, next);
                                    },
                                    HexScan::Bad { .. } => {},
                                }
                            }
                        }
                    },
                }
            }
        } else {
            lemma_scan_value_bounds(s, i + 1);
        }
    }
}

/// One parsed pair, in spec terms.
pub struct KvView {
    pub key: Seq<char>,
    pub value: Seq<char>,
}

/// The outcome of parsing the whole attribute text from position `i`.
pub enum PairsScan {
    Done { pairs: Seq<KvView> },
    Bad { err: GenerationError },
}

/// The grammar: whitespace, then either the end of the text or one
/// `key = "value"` pair followed by the rest. A pair that does not open
/// with an identifier or a quote where one is due is malformed; a missing
/// `=` or an unterminated value misses its separator.
pub open spec fn scan_pairs(s: Seq<char>, i: int) -> PairsScan
    decreases s.len() - i,
    via scan_pairs_dec
{
    let j = skip_ws(s, i);
    if i < 0 {
        PairsScan::Bad { err: GenerationError::MalformedKeyValue }
    } else if j >= s.len() {
        PairsScan::Done { pairs: Seq::<KvView>::empty() }
    } else if !is_ident_start(s[j]) {
        PairsScan::Bad { err: GenerationError::MalformedKeyValue }
    } else {
        let ke = scan_ident_end(s, j + 1);
        let eq = skip_ws(s, ke);
        if eq >= s.len() || s[eq] != '=' {
            PairsScan::Bad { err: GenerationError::MissingSeparator }
        } else {
            let vq = skip_ws(s, eq + 1);
            if vq >= s.len() || s[vq] != '"' {
                PairsScan::Bad { err: GenerationError::MalformedKeyValue }
            } else {
                match scan_value(s, vq + 1) {
                    ValueScan::Bad { err } => PairsScan::Bad { err },
                    ValueScan::Done { value, next } => match scan_pairs(s, next) {
                        PairsScan::Bad { err } => PairsScan::Bad { err },
                        PairsScan::Done { pairs } => PairsScan::Done {
                            pairs: seq![KvView { key: s.subrange(j, ke), value }] + pairs,
                        },
                    },
                }
            }
        }
    }
}

#[via_fn]
proof fn scan_pairs_dec(s: Seq<char>, i: int) {
    if 0 <= i <= s.len() {
        lemma_skip_ws_bounds(s, i);
        let j = skip_ws(s, i);
        if j < s.len() && is_ident_start(s[j]) {
            lemma_scan_ident_end_bounds(s, j + 1);
            let ke = scan_ident_end(s, j + 1);
            lemma_skip_ws_bounds(s, ke);
            let eq = skip_ws(s, ke);
            if eq < s.len() && s[eq] == '=' {
                lemma_skip_ws_bounds(s, eq + 1);
                let vq = skip_ws(s, eq + 1);
                if vq < s.len() && s[vq] == '"' {
                    lemma_scan_value_bounds(s, vq + 1);
                }
            }
        }
    }
}

/// One parsed `key = "value"` pair.
#[derive(Debug, PartialEq)]
pub struct KeyValuePair {
    pub key: String,
    pub value: String,
}

pub open spec fn kv_view(p: KeyValuePair) -> KvView {
    KvView { key: p.key@, value: p.value@ }
}

/// Splice already-parsed pairs in front of the rest of a scan.
pub open spec fn append_pairs(prefix: Seq<KvView>, rest: PairsScan) -> PairsScan {
    match rest {
        PairsScan::Done { pairs } => PairsScan::Done { pairs: prefix + pairs },
        PairsScan::Bad { err } => PairsScan::Bad { err },
    }
}

/// Splice already-scanned characters in front of the rest of a value scan.
pub open spec fn prepend_value(prefix: Seq<char>, rest: ValueScan) -> ValueScan {
    match rest {
        ValueScan::Done { value, next } => ValueScan::Done { value: prefix + value, next },
        ValueScan::Bad { err } => ValueScan::Bad { err },
    }
}

proof fn lemma_prepend_assoc(a: Seq<char>, b: Seq<char>, r: ValueScan)
    ensures
        prepend_value(a, prepend_value(b, r)) == prepend_value(a + b, r),
{
    match r {
        ValueScan::Done { value, next } => {
            assert(a + (b + value) =~= (a + b) + value);
        },
        ValueScan::Bad { .. } => {},
    }
}

/// Relies on `char::from_u32`: it returns the character with the given
/// code point exactly when the value is a Unicode scalar value.
pub assume_specification[ char::from_u32 ](v: u32) -> (r: Option<char>)
    ensures
        r is Some <==> is_scalar_value(v as int),
        r matches Some(c) ==> c as int == v as int,
;

fn simple_escape_char(c: char) -> (r: Option<char>)
    ensures
        r == simple_escape(c),
{
    if c == '\\' {
        Some('\\')
    } else if c == '"' {
        Some('"')
    } else if c == '\'' {
        Some('\'')
    } else if c == 'n' {
        Some('\n')
    } else if c == 'r' {
        Some('\r')
    } else if c == 't' {
        Some('\t')
    } else if c == '0' {
        Some('\0')
    } else {
        None
    }
}

fn hex_digit(c: char) -> (r: Option<u8>)
    ensures
        r is Some <==> is_hex(c),
        r matches Some(d) ==> d as int == hex_val(c) && d < 16,
{
    if '0' <= c && c <= '9' {
        Some((c as u32 - '0' as u32) as u8)
    } else if 'a' <= c && c <= 'f' {
        Some((c as u32 - 'a' as u32 + 10) as u8)
    } else if 'A' <= c && c <= 'F' {
        Some((c as u32 - 'A' as u32 + 10) as u8)
    } else {
        None
    }
}

/// Scan the body of a `\u{...}` escape and decode its character.
fn scan_unicode_escape(s: &str, start: usize) -> (r: Result<(char, usize), GenerationError>)
    requires
        start <= s@.len(),
    ensures
        r matches Ok(p) ==> (scan_hex(s@, start as int, 0, 0) matches HexScan::Done {
            value,
            next,
        } && is_scalar_value(value) && p.0 as int == value && p.1 == next && start < p.1
            <= s@.len()),
        r matches Err(e) ==> match scan_hex(s@, start as int, 0, 0) {
            HexScan::Done { value, next } => !is_scalar_value(value) && e
                == GenerationError::MalformedKeyValue,
            HexScan::Bad { err } => e == err,
        },
{
    let n = s.unicode_len();
    let mut j: usize = start;
    let mut acc: u32 = 0;
    let mut count: u8 = 0;
    loop
        invariant
            n == s@.len(),
            start <= j <= n,
            count <= 6,
            acc < 0x1000000,
            count < 6 ==> acc < 0x100000,
            count < 5 ==> acc < 0x10000,
            count < 4 ==> acc < 0x1000,
            count < 3 ==> acc < 0x100,
            count < 2 ==> acc < 0x10,
            count == 0 ==> acc == 0,
            scan_hex(s@, start as int, 0, 0) == scan_hex(s@, j as int, acc as int, count as int),
        decreases n - j,
    {
        if j == n {
            return Err(GenerationError::MissingSeparator);
        }
        let hc = s.get_char(j);
        if hc == '}' {
            if count == 0 {
                return Err(GenerationError::MalformedKeyValue);
            }
            if !(acc < 0xD800 || (0xE000 <= acc && acc <= 0x10FFFF)) {
                return Err(GenerationError::MalformedKeyValue);
            }
            match char::from_u32(acc) {
                Some(c) => {
                    proof {
                        assert(scan_hex(s@, j as int, acc as int, count as int) == (HexScan::Done {
                            value: acc as int,
                            next: j + 1,
                        }));
                        assert(is_scalar_value(acc as int));
                        lemma_scan_hex_bounds(s@, start as int, 0, 0);
                    }
                    return Ok((c, j + 1));
                },
                None => {
                    proof {
                        assert(false);
                    }
                    return Err(GenerationError::MalformedKeyValue);
                },
            }
        }
        match hex_digit(hc) {
            Some(d) => {
                if count >= 6 {
                    return Err(GenerationError::MalformedKeyValue);
                }
                acc = acc * 16 + (d as u32);
                count = count + 1;
                j = j + 1;
            },
            None => {
                return Err(GenerationError::MalformedKeyValue);
            },
        }
    }
}

fn ws_char(c: char) -> (b: bool)
    ensures
        b == is_ws(c),
{
    c == ' ' || c == '\t' || c == '\n' || c == '\r'
}

fn ident_start_char(c: char) -> (b: bool)
    ensures
        b == is_ident_start(c),
{
    ('a' <= c && c <= 'z') || ('A' <= c && c <= 'Z') || c == '_'
}

fn ident_cont_char(c: char) -> (b: bool)
    ensures
        b == is_ident_cont(c),
{
    ident_start_char(c) || ('0' <= c && c <= '9')
}

/// Parse the whole attribute text into its pairs. The result is exactly
/// what the grammar says: the pairs in order on a well-formed text, and
/// the grammar's own error on a malformed one.
pub fn parse_key_value_pairs(s: &str) -> (r: Result<Vec<KeyValuePair>, GenerationError>)
    ensures
        r matches Ok(kvs) ==> (scan_pairs(s@, 0) matches PairsScan::Done { pairs }
            && kvs@.map_values(|p: KeyValuePair| kv_view(p)) == pairs),
        r matches Err(e) ==> scan_pairs(s@, 0) == (PairsScan::Bad { err: e }),
        r is Ok <==> scan_pairs(s@, 0) is Done,
{
    let n = s.unicode_len();
    let mut kvs: Vec<KeyValuePair> = Vec::new();
    let mut i: usize = 0;
    loop
        invariant
            n == s@.len(),
            i <= n,
            scan_pairs(s@, 0) == append_pairs(
                kvs@.map_values(|p: KeyValuePair| kv_view(p)),
                scan_pairs(s@, i as int),
            ),
        decreases n - i,
    {
        let ghost ip = i as int;
        let ghost acc0 = kvs@.map_values(|p: KeyValuePair| kv_view(p));
        while i < n && ws_char(s.get_char(i))
            invariant
                n == s@.len(),
                i <= n,
                ip <= i,
                skip_ws(s@, ip) == skip_ws(s@, i as int),
            decreases n - i,
        {
            i = i + 1;
        }
        proof {
            assert(skip_ws(s@, ip) == i as int);
        }
        if i == n {
            proof {
                assert(scan_pairs(s@, ip) == (PairsScan::Done { pairs: Seq::<KvView>::empty() }));
                assert(acc0 + Seq::<KvView>::empty() =~= acc0);
            }
            return Ok(kvs);
        }
        let c = s.get_char(i);
        if !ident_start_char(c) {
            proof {
                assert(scan_pairs(s@, ip) == (PairsScan::Bad {
                    err: GenerationError::MalformedKeyValue,
                }));
            }
            return Err(GenerationError::MalformedKeyValue);
        }
        let kstart = i;
        i = i + 1;
        while i < n && ident_cont_char(s.get_char(i))
            invariant
                n == s@.len(),
                i <= n,
                kstart < n,
                kstart + 1 <= i,
                skip_ws(s@, ip) == kstart as int,
                is_ident_start(s@[kstart as int]),
                scan_ident_end(s@, kstart + 1) == scan_ident_end(s@, i as int),
            decreases n - i,
        {
            i = i + 1;
        }
        proof {
            assert(scan_ident_end(s@, kstart + 1) == i as int);
        }
        let key = s.substring_char(kstart, i).to_owned();
        let ghost ke = i as int;
        while i < n && ws_char(s.get_char(i))
            invariant
                n == s@.len(),
                i <= n,
                kstart < n,
                ke <= i,
                skip_ws(s@, ip) == kstart as int,
                is_ident_start(s@[kstart as int]),
                scan_ident_end(s@, kstart + 1) == ke,
                key@ == s@.subrange(kstart as int, ke),
                skip_ws(s@, ke) == skip_ws(s@, i as int),
            decreases n - i,
        {
            i = i + 1;
        }
        proof {
            assert(skip_ws(s@, ke) == i as int);
        }
        if i == n || s.get_char(i) != '=' {
            proof {
                assert(scan_pairs(s@, ip) == (PairsScan::Bad {
                    err: GenerationError::MissingSeparator,
                }));
            }
            return Err(GenerationError::MissingSeparator);
        }
        let ghost eq = i as int;
        i = i + 1;
        while i < n && ws_char(s.get_char(i))
            invariant
                n == s@.len(),
                i <= n,
                kstart < n,
                eq < n,
                eq + 1 <= i,
                skip_ws(s@, ip) == kstart as int,
                is_ident_start(s@[kstart as int]),
                scan_ident_end(s@, kstart + 1) == ke,
                key@ == s@.subrange(kstart as int, ke),
                skip_ws(s@, ke) == eq,
                s@[eq] == '=',
                skip_ws(s@, eq + 1) == skip_ws(s@, i as int),
            decreases n - i,
        {
            i = i + 1;
        }
        proof {
            assert(skip_ws(s@, eq + 1) == i as int);
        }
        if i == n || s.get_char(i) != '"' {
            proof {
                assert(scan_pairs(s@, ip) == (PairsScan::Bad {
                    err: GenerationError::MalformedKeyValue,
                }));
            }
            return Err(GenerationError::MalformedKeyValue);
        }
        let ghost vq = i as int;
        i = i + 1;
        let mut val: Vec<char> = Vec::new();
        while i < n && s.get_char(i) != '"'
            invariant
                n == s@.len(),
                i <= n,
                kstart < n,
                eq < n,
                vq < n,
                vq + 1 <= i,
                0 <= ip,
                scan_pairs(s@, 0) == append_pairs(acc0, scan_pairs(s@, ip)),
                skip_ws(s@, ip) == kstart as int,
                is_ident_start(s@[kstart as int]),
                scan_ident_end(s@, kstart + 1) == ke,
                key@ == s@.subrange(kstart as int, ke),
                skip_ws(s@, ke) == eq,
                s@[eq] == '=',
                skip_ws(s@, eq + 1) == vq,
                s@[vq] == '"',
                scan_value(s@, vq + 1) == prepend_value(val@, scan_value(s@, i as int)),
            decreases n - i,
        {
            let vc = s.get_char(i);
            let ghost iold = i as int;
            let ghost val0 = val@;
            if vc != '\\' {
                proof {
                    assert(scan_value(s@, iold) == prepend_value(
                        seq![s@[iold]],
                        scan_value(s@, iold + 1),
                    ));
                    lemma_prepend_assoc(val0, seq![s@[iold]], scan_value(s@, iold + 1));
                }
                val.push(vc);
                i = i + 1;
                proof {
                    assert(val@ =~= val0 + seq![s@[iold]]);
                }
            } else {
                if n - i == 1 {
                    proof {
                        assert(scan_value(s@, iold) == (ValueScan::Bad {
                            err: GenerationError::MissingSeparator,
                        }));
                        assert(scan_pairs(s@, ip) == (PairsScan::Bad {
                            err: GenerationError::MissingSeparator,
                        }));
                    }
                    return Err(GenerationError::MissingSeparator);
                }
                let e = s.get_char(i + 1);
                match simple_escape_char(e) {
                    Some(c) => {
                        proof {
                            assert(scan_value(s@, iold) == prepend_value(
                                seq![c],
                                scan_value(s@, iold + 2),
                            ));
                            lemma_prepend_assoc(val0, seq![c], scan_value(s@, iold + 2));
                        }
                        val.push(c);
                        i = i + 2;
                        proof {
                            assert(val@ =~= val0 + seq![c]);
                        }
                    },
                    None => {
                        if e == 'x' {
                            if n - i <= 3 {
                                proof {
                                    assert(scan_value(s@, iold) == (ValueScan::Bad {
                                        err: GenerationError::MissingSeparator,
                                    }));
                                    assert(scan_pairs(s@, ip) == (PairsScan::Bad {
                                        err: GenerationError::MissingSeparator,
                                    }));
                                }
                                return Err(GenerationError::MissingSeparator);
                            }
                            match (hex_digit(s.get_char(i + 2)), hex_digit(s.get_char(i + 3))) {
                                (Some(d1), Some(d2)) => {
                                    let v: u8 = d1 * 16 + d2;
                                    if v > 0x7f {
                                        proof {
                                            assert(scan_value(s@, iold) == (ValueScan::Bad {
                                                err: GenerationError::MalformedKeyValue,
                                            }));
                                            assert(scan_pairs(s@, ip) == (PairsScan::Bad {
                                                err: GenerationError::MalformedKeyValue,
                                            }));
                                        }
                                        return Err(GenerationError::MalformedKeyValue);
                                    }
                                    let c = v as char;
                                    proof {
                                        let vv = hex_val(s@[iold + 2]) * 16 + hex_val(
                                            s@[iold + 3],
                                        );
                                        assert(vv == v as int);
                                        assert(c == (vv as char));
                                        assert(scan_value(s@, iold) == prepend_value(
                                            seq![(vv as char)],
                                            scan_value(s@, iold + 4),
                                        ));
                                        lemma_prepend_assoc(
                                            val0,
                                            seq![(vv as char)],
                                            scan_value(s@, iold + 4),
                                        );
                                    }
                                    val.push(c);
                                    i = i + 4;
                                    proof {
                                        assert(val@ =~= val0 + seq![c]);
                                    }
                                },
                                _ => {
                                    proof {
                                        assert(scan_value(s@, iold) == (ValueScan::Bad {
                                            err: GenerationError::MalformedKeyValue,
                                        }));
                                        assert(scan_pairs(s@, ip) == (PairsScan::Bad {
                                            err: GenerationError::MalformedKeyValue,
                                        }));
                                    }
                                    return Err(GenerationError::MalformedKeyValue);
                                },
                            }
                        } else if e == 'u' {
                            if n - i <= 2 {
                                proof {
                                    assert(scan_value(s@, iold) == (ValueScan::Bad {
                                        err: GenerationError::MissingSeparator,
                                    }));
                                    assert(scan_pairs(s@, ip) == (PairsScan::Bad {
                                        err: GenerationError::MissingSeparator,
                                    }));
                                }
                                return Err(GenerationError::MissingSeparator);
                            }
                            if s.get_char(i + 2) != '{' {
                                proof {
                                    assert(scan_value(s@, iold) == (ValueScan::Bad {
                                        err: GenerationError::MalformedKeyValue,
                                    }));
                                    assert(scan_pairs(s@, ip) == (PairsScan::Bad {
                                        err: GenerationError::MalformedKeyValue,
                                    }));
                                }
                                return Err(GenerationError::MalformedKeyValue);
                            }
                            match scan_unicode_escape(s, i + 3) {
                                Ok(p) => {
                                    let c = p.0;
                                    proof {
                                        match scan_hex(s@, iold + 3, 0, 0) {
                                            HexScan::Done { value, next } => {
                                                assert(c == (value as char));
                                                assert(scan_value(s@, iold) == prepend_value(
                                                    seq![(value as char)],
                                                    scan_value(s@, next),
                                                ));
                                                lemma_prepend_assoc(
                                                    val0,
                                                    seq![(value as char)],
                                                    scan_value(s@, next),
                                                );
                                            },
                                            HexScan::Bad { .. } => {
                                                assert(false);
                                            },
                                        }
                                    }
                                    val.push(c);
                                    i = p.1;
                                    proof {
                                        assert(val@ =~= val0 + seq![c]);
                                    }
                                },
                                Err(e2) => {
                                    proof {
                                        assert(scan_value(s@, iold) == (ValueScan::Bad {
                                            err: e2,
                                        }));
                                        assert(scan_pairs(s@, ip) == (PairsScan::Bad {
                                            err: e2,
                                        }));
                                    }
                                    return Err(e2);
                                },
                            }
                        } else {
                            proof {
                                assert(scan_value(s@, iold) == (ValueScan::Bad {
                                    err: GenerationError::MalformedKeyValue,
                                }));
                                assert(scan_pairs(s@, ip) == (PairsScan::Bad {
                                    err: GenerationError::MalformedKeyValue,
                                }));
                            }
                            return Err(GenerationError::MalformedKeyValue);
                        }
                    },
                }
            }
        }
        if i == n {
            proof {
                assert(scan_value(s@, i as int) == (ValueScan::Bad {
                    err: GenerationError::MissingSeparator,
                }));
                assert(scan_pairs(s@, ip) == (PairsScan::Bad {
                    err: GenerationError::MissingSeparator,
                }));
            }
            return Err(GenerationError::MissingSeparator);
        }
        proof {
            assert(s@[i as int] == '"');
            assert(scan_value(s@, i as int) == (ValueScan::Done {
                value: Seq::<char>::empty(),
                next: i + 1,
            }));
            assert(val@ + Seq::<char>::empty() =~= val@);
            assert(scan_value(s@, vq + 1) == (ValueScan::Done { value: val@, next: i + 1 }));
        }
        i = i + 1;
        let value = string_from_chars(val);
        kvs.push(KeyValuePair { key, value });
        proof {
            assert(scan_value(s@, vq + 1) == (ValueScan::Done { value: value@, next: i as int }));
            assert(scan_pairs(s@, ip) == append_pairs(
                seq![KvView { key: s@.subrange(kstart as int, ke), value: value@ }],
                scan_pairs(s@, i as int),
            ));
            assert(kvs@.map_values(|p: KeyValuePair| kv_view(p)) =~= acc0 + seq![
                KvView { key: key@, value: value@ },
            ]);
            if scan_pairs(s@, i as int) is Done {
                assert(acc0 + (seq![KvView { key: key@, value: value@ }] + scan_pairs(
                    s@,
                    i as int,
                )->Done_pairs) =~= (acc0 + seq![KvView { key: key@, value: value@ }]) + scan_pairs(
                    s@,
                    i as int,
                )->Done_pairs);
            }
        }
    }
}

/// The configured command prefix: the value of the last `cmd_prefix` pair,
/// if any pair carries that key.
pub open spec fn last_prefix(pairs: Seq<KvView>) -> Option<Seq<char>>
    decreases pairs.len(),
{
    if pairs.len() == 0 {
        None
    } else if pairs.last().key == "cmd_prefix"@ {
        Some(pairs.last().value)
    } else {
        last_prefix(pairs.drop_last())
    }
}

/// Fold the parsed pairs into the generation configuration: the one
/// recognized key is `cmd_prefix`; of repeated keys the last one wins;
/// unknown keys are ignored.
pub fn config_from_pairs(kvs: &Vec<KeyValuePair>) -> (cfg: GenerationConfig)
    ensures
        cfg.cmd_prefix is Some <==> last_prefix(
            kvs@.map_values(|p: KeyValuePair| kv_view(p)),
        ) is Some,
        cfg.cmd_prefix matches Some(p) ==> last_prefix(
            kvs@.map_values(|p2: KeyValuePair| kv_view(p2)),
        ) matches Some(v) && p@ == v,
{
    let lit: String = "cmd_prefix".to_owned();
    let mut cmd_prefix: Option<String> = None;
    let mut i: usize = 0;
    proof {
        assert(kvs@.map_values(|p: KeyValuePair| kv_view(p)).take(0) =~= Seq::<KvView>::empty());
    }
    while i < kvs.len()
        invariant
            i <= kvs@.len(),
            lit@ == "cmd_prefix"@,
            ({
                let prefix = last_prefix(
                    kvs@.map_values(|p: KeyValuePair| kv_view(p)).take(i as int),
                );
                &&& cmd_prefix is Some <==> prefix is Some
                &&& cmd_prefix matches Some(p) ==> prefix matches Some(v) && p@ == v
            }),
        decreases kvs@.len() - i,
    {
        proof {
            assert(kvs@.map_values(|p: KeyValuePair| kv_view(p)).take(i + 1).drop_last()
                =~= kvs@.map_values(|p: KeyValuePair| kv_view(p)).take(i as int));
            assert(kvs@.map_values(|p: KeyValuePair| kv_view(p)).take(i + 1).last() == kv_view(
                kvs@[i as int],
            ));
        }
        if kvs[i].key == lit {
            cmd_prefix = Some(kvs[i].value.clone());
        }
        i = i + 1;
    }
    proof {
        assert(kvs@.map_values(|p: KeyValuePair| kv_view(p)).take(kvs@.len() as int)
            =~= kvs@.map_values(|p: KeyValuePair| kv_view(p)));
    }
    GenerationConfig { cmd_prefix }
}

/// Parse the generation trigger's attribute text into its configuration.
/// Succeeds exactly on well-formed `key = "value"` sequences; the
/// configuration carries the last `cmd_prefix` value, or none.
pub fn parse_invoke_binding_attrs(s: &str) -> (r: Result<GenerationConfig, GenerationError>)
    ensures
        r is Ok <==> scan_pairs(s@, 0) is Done,
        r matches Err(e) ==> scan_pairs(s@, 0) == (PairsScan::Bad { err: e }),
        r matches Ok(cfg) ==> (scan_pairs(s@, 0) matches PairsScan::Done { pairs } && {
            &&& cfg.cmd_prefix is Some <==> last_prefix(pairs) is Some
            &&& cfg.cmd_prefix matches Some(p) ==> last_prefix(pairs) matches Some(v) && p@ == v
        }),
{
    let kvs = parse_key_value_pairs(s)?;
    Ok(config_from_pairs(&kvs))
}

} // verus!
