//! Character classes, runs, numbers, strings and UTF-8 offsets for the lexer.

use vstd::prelude::*;
use vstd::utf8::{char_is_scalar, encode_scalar, encode_utf8};

verus! {

/// The classes of characters the lexer scans runs of.
#[derive(Clone, Copy, PartialEq, Eq, Structural)]
pub enum CharClass {
    /// Identifier characters: letters, digits, `_` and `$`.
    Word,
    /// Directive name characters: letters, digits and `_`.
    DirectiveName,
    /// Decimal digits and `_`.
    Decimal,
    /// Hexadecimal digits and `_`.
    Hex,
    /// Octal digits and `_`.
    Octal,
    /// Binary digits and `_`.
    Binary,
    /// Spaces, tabs and carriage returns.
    Blank,
    /// Anything but a newline.
    NotNewline,
}

pub open spec fn is_letter(c: char) -> bool {
    ('a' <= c && c <= 'z') || ('A' <= c && c <= 'Z')
}

pub open spec fn is_dec(c: char) -> bool {
    '0' <= c && c <= '9'
}

pub open spec fn is_hex(c: char) -> bool {
    is_dec(c) || ('a' <= c && c <= 'f') || ('A' <= c && c <= 'F')
}

/// Whether `c` belongs to the class.
pub open spec fn in_class(class: CharClass, c: char) -> bool {
    match class {
        CharClass::Word => is_letter(c) || is_dec(c) || c == '_' || c == '$',
        CharClass::DirectiveName => is_letter(c) || is_dec(c) || c == '_',
        CharClass::Decimal => is_dec(c) || c == '_',
        CharClass::Hex => is_hex(c) || c == '_',
        CharClass::Octal => ('0' <= c && c <= '7') || c == '_',
        CharClass::Binary => c == '0' || c == '1' || c == '_',
        CharClass::Blank => c == ' ' || c == '\t' || c == '\r',
        CharClass::NotNewline => c != '\n',
    }
}

/// Whether `c` belongs to the class.
pub fn class_has(class: CharClass, c: char) -> (r: bool)
    ensures
        r == in_class(class, c),
{
    let letter = ('a' <= c && c <= 'z') || ('A' <= c && c <= 'Z');
    let dec = '0' <= c && c <= '9';
    match class {
        CharClass::Word => letter || dec || c == '_' || c == '$',
        CharClass::DirectiveName => letter || dec || c == '_',
        CharClass::Decimal => dec || c == '_',
        CharClass::Hex => dec || ('a' <= c && c <= 'f') || ('A' <= c && c <= 'F') || c == '_',
        CharClass::Octal => ('0' <= c && c <= '7') || c == '_',
        CharClass::Binary => c == '0' || c == '1' || c == '_',
        CharClass::Blank => c == ' ' || c == '\t' || c == '\r',
        CharClass::NotNewline => c != '\n',
    }
}

/// The end of the run of class characters that starts at `i`.
pub open spec fn run_end(cs: Seq<char>, i: int, class: CharClass) -> int
    decreases cs.len() - i,
{
    if 0 <= i < cs.len() && in_class(class, cs[i]) { run_end(cs, i + 1, class) } else { i }
}

pub proof fn lemma_run_end_bounds(cs: Seq<char>, i: int, class: CharClass)
    requires
        0 <= i <= cs.len(),
    ensures
        i <= run_end(cs, i, class) <= cs.len(),
        forall|k: int| i <= k < run_end(cs, i, class) ==> in_class(class, #[trigger] cs[k]),
    decreases cs.len() - i,
{
    if i < cs.len() && in_class(class, cs[i]) {
        lemma_run_end_bounds(cs, i + 1, class);
    }
}

/// The end of the run of class characters that starts at `i`.
pub fn scan_run(cs: &[char], i: usize, class: CharClass) -> (r: usize)
    requires
        i <= cs@.len(),
    ensures
        r == run_end(cs@, i as int, class),
        i <= r <= cs@.len(),
{
    let mut j = i;
    while j < cs.len() && class_has(class, cs[j])
        invariant
            i <= j <= cs@.len(),
            run_end(cs@, i as int, class) == run_end(cs@, j as int, class),
        decreases cs.len() - j,
    {
        j += 1;
    }
    proof { lemma_run_end_bounds(cs@, i as int, class); }
    j
}

/// The value of a digit character in the given radix (which it belongs to).
pub open spec fn digit_value(c: char) -> nat {
    if is_dec(c) {
        ((c as u32) - ('0' as u32)) as nat
    } else if 'a' <= c && c <= 'f' {
        ((c as u32) - ('a' as u32) + 10) as nat
    } else {
        ((c as u32) - ('A' as u32) + 10) as nat
    }
}

/// The value of a numeral in the given radix, underscores ignored.
pub open spec fn numeral_value(s: Seq<char>, radix: nat) -> nat
    decreases s.len(),
{
    if s.len() == 0 {
        0
    } else if s.last() == '_' {
        numeral_value(s.drop_last(), radix)
    } else {
        numeral_value(s.drop_last(), radix) * radix + digit_value(s.last())
    }
}

/// The value of a numeral, when it fits in an `i64`.
pub open spec fn spec_numeral(s: Seq<char>, radix: nat) -> Option<i64> {
    if numeral_value(s, radix) <= i64::MAX { Some(numeral_value(s, radix) as i64) } else { None }
}

/// The value of a numeral (digits of `radix` and underscores), when it fits in an `i64`.
pub fn parse_numeral(s: &[char], radix: u64) -> (r: Option<i64>)
    requires
        radix == 2 || radix == 8 || radix == 10 || radix == 16,
        forall|k: int| 0 <= k < s@.len() ==> (s@[k] == '_' || (is_hex(#[trigger] s@[k]) && digit_value(s@[k]) < radix)),
    ensures
        r == spec_numeral(s@, radix as nat),
{
    let mut value: u64 = 0;
    let mut overflow = false;
    let mut i: usize = 0;
    while i < s.len()
        invariant
            i <= s@.len(),
            radix == 2 || radix == 8 || radix == 10 || radix == 16,
            forall|k: int| 0 <= k < s@.len() ==> (s@[k] == '_' || (is_hex(#[trigger] s@[k]) && digit_value(s@[k]) < radix)),
            !overflow ==> value == numeral_value(s@.take(i as int), radix as nat) && value <= i64::MAX,
            overflow ==> numeral_value(s@.take(i as int), radix as nat) > i64::MAX,
        decreases s.len() - i,
    {
        let c = s[i];
        assert(s@.take(i + 1).drop_last() == s@.take(i as int));
        if c != '_' {
            let d: u64 = if '0' <= c && c <= '9' {
                (c as u32 - '0' as u32) as u64
            } else if 'a' <= c && c <= 'f' {
                (c as u32 - 'a' as u32 + 10) as u64
            } else {
                (c as u32 - 'A' as u32 + 10) as u64
            };
            assert(d == digit_value(c));
            if overflow {
                proof {
                    let prev = numeral_value(s@.take(i as int), radix as nat);
                    assert(prev * radix >= prev) by (nonlinear_arith) requires radix >= 2;
                }
            } else {
                let lim = (0x7FFF_FFFF_FFFF_FFFFu64 - d) / radix;
                if value > lim {
                    overflow = true;
                    assert(value * radix + d > i64::MAX) by (nonlinear_arith)
                        requires value > lim, lim as int == (0x7FFF_FFFF_FFFF_FFFFint - d) / (radix as int), radix >= 2, d < radix;
                } else {
                    assert(value * radix + d <= i64::MAX) by (nonlinear_arith)
                        requires value <= lim, lim as int == (0x7FFF_FFFF_FFFF_FFFFint - d) / (radix as int), radix >= 2, d < radix;
                    value = value * radix + d;
                }
            }
        }
        i += 1;
    }
    assert(s@.take(s.len() as int) == s@);
    if overflow { None } else { Some(value as i64) }
}

/// The position of the first `*/` at or after `j`.
pub open spec fn find_close(cs: Seq<char>, j: int) -> Option<int>
    decreases cs.len() - j,
{
    if j < 0 || j + 1 >= cs.len() {
        None
    } else if cs[j] == '*' && cs[j + 1] == '/' {
        Some(j)
    } else {
        find_close(cs, j + 1)
    }
}

pub proof fn lemma_find_close(cs: Seq<char>, j: int)
    requires
        0 <= j,
    ensures
        find_close(cs, j) matches Some(k) ==> j <= k && k + 1 < cs.len(),
    decreases cs.len() - j,
{
    if j + 1 < cs.len() && !(cs[j] == '*' && cs[j + 1] == '/') {
        lemma_find_close(cs, j + 1);
    }
}

/// The position of the first `*/` at or after `j`.
pub fn scan_close(cs: &[char], j: usize) -> (r: Option<usize>)
    ensures
        match find_close(cs@, j as int) {
            Some(k) => r == Some(k as usize),
            None => r is None,
        },
{
    let mut k = j;
    proof { lemma_find_close(cs@, j as int); }
    while k < cs.len() && k + 1 < cs.len()
        invariant
            j <= k,
            find_close(cs@, j as int) == find_close(cs@, k as int),
        decreases cs.len() - k,
    {
        if cs[k] == '*' && cs[k + 1] == '/' {
            return Some(k);
        }
        k += 1;
    }
    None
}

/// Where a string literal whose body starts at `j` ends: just past its closing quote; or,
/// when it does not close, `Err` with where scanning stopped.
pub open spec fn string_end(cs: Seq<char>, j: int) -> Result<int, int>
    decreases cs.len() - j,
{
    if j < 0 || j >= cs.len() {
        Err(j)
    } else if cs[j] == '"' {
        Ok(j + 1)
    } else if cs[j] == '\\' {
        if j + 1 < cs.len() && cs[j + 1] != '\n' { string_end(cs, j + 2) } else { Err(j + 1) }
    } else {
        string_end(cs, j + 1)
    }
}

pub proof fn lemma_string_end(cs: Seq<char>, j: int)
    requires
        0 <= j <= cs.len(),
    ensures
        string_end(cs, j) matches Ok(e) ==> j < e <= cs.len(),
        string_end(cs, j) matches Err(e) ==> j <= e <= cs.len(),
    decreases cs.len() - j,
{
    if j < cs.len() && cs[j] != '"' {
        if cs[j] == '\\' {
            if j + 1 < cs.len() && cs[j + 1] != '\n' {
                lemma_string_end(cs, j + 2);
            }
        } else {
            lemma_string_end(cs, j + 1);
        }
    }
}

/// Where a string literal whose body starts at `j` ends.
pub fn scan_string(cs: &[char], j: usize) -> (r: Result<usize, usize>)
    requires
        j <= cs@.len(),
    ensures
        match string_end(cs@, j as int) {
            Ok(e) => r == Ok::<usize, usize>(e as usize),
            Err(e) => r == Err::<usize, usize>(e as usize),
        },
{
    proof { lemma_string_end(cs@, j as int); }
    let mut k = j;
    while k < cs.len()
        invariant
            j <= k <= cs@.len(),
            string_end(cs@, j as int) == string_end(cs@, k as int),
        decreases cs.len() - k,
    {
        if cs[k] == '"' {
            return Ok(k + 1);
        }
        if cs[k] == '\\' {
            if k + 1 < cs.len() && cs[k + 1] != '\n' {
                k += 2;
            } else {
                return Err(k + 1);
            }
        } else {
            k += 1;
        }
    }
    Err(k)
}

/// The character an escape letter stands for.
pub open spec fn escaped(c: char) -> Option<char> {
    if c == 'n' {
        Some('\n')
    } else if c == 't' {
        Some('\t')
    } else if c == 'r' {
        Some('\r')
    } else if c == '\\' {
        Some('\\')
    } else if c == '"' {
        Some('"')
    } else if c == '0' {
        Some('\0')
    } else {
        None
    }
}

/// The text of a string literal body between `j` and `end`, escapes decoded; `None` when an
/// escape is unknown.
pub open spec fn unescape(cs: Seq<char>, j: int, end: int) -> Option<Seq<char>>
    decreases end - j,
{
    if j >= end {
        Some(Seq::empty())
    } else if cs[j] == '\\' && j + 1 < end {
        match (escaped(cs[j + 1]), unescape(cs, j + 2, end)) {
            (Some(c), Some(rest)) => Some(seq![c] + rest),
            _ => None,
        }
    } else {
        match unescape(cs, j + 1, end) {
            Some(rest) => Some(seq![cs[j]] + rest),
            None => None,
        }
    }
}

/// Decode the escapes of a string literal body.
pub fn decode_string(cs: &[char], j: usize, end: usize) -> (r: Option<String>)
    requires
        j <= end <= cs@.len(),
    ensures
        match unescape(cs@, j as int, end as int) {
            Some(s) => r matches Some(x) && x@ == s,
            None => r is None,
        },
{
    let mut out = String::new();
    let mut k = j;
    while k < end
        invariant
            j <= k <= end,
            end <= cs@.len(),
            unescape(cs@, j as int, end as int) == (match unescape(cs@, k as int, end as int) {
                Some(rest) => Some(out@ + rest),
                None => None,
            }),
        decreases end - k,
    {
        let c = cs[k];
        if c == '\\' && k + 1 < end {
            let e = cs[k + 1];
            let d = if e == 'n' {
                '\n'
            } else if e == 't' {
                '\t'
            } else if e == 'r' {
                '\r'
            } else if e == '\\' {
                '\\'
            } else if e == '"' {
                '"'
            } else if e == '0' {
                '\0'
            } else {
                return None;
            };
            let ghost prev = out@;
            crate::text::push_char(&mut out, d);
            proof {
                assert(escaped(e) == Some(d));
                match unescape(cs@, k + 2, end as int) {
                    Some(rest) => assert(prev + (seq![d] + rest) =~= out@ + rest),
                    None => {},
                }
            }
            k += 2;
        } else {
            let ghost prev = out@;
            crate::text::push_char(&mut out, c);
            proof {
                match unescape(cs@, k + 1, end as int) {
                    Some(rest) => assert(prev + (seq![c] + rest) =~= out@ + rest),
                    None => {},
                }
            }
            k += 1;
        }
    }
    Some(out)
}

/// The number of bytes of a character in UTF-8.
pub open spec fn char_width(c: char) -> nat {
    encode_scalar(c as u32).len()
}

/// The number of bytes of a character in UTF-8.
pub fn utf8_width(c: char) -> (r: usize)
    ensures
        r == char_width(c),
        1 <= r <= 4,
{
    proof { char_is_scalar(c); }
    let v = c as u32;
    if v < 0x80 {
        1
    } else if v < 0x800 {
        2
    } else if v < 0x10000 {
        3
    } else {
        4
    }
}

/// UTF-8 encoding distributes over concatenation.
pub proof fn lemma_encode_concat(a: Seq<char>, b: Seq<char>)
    ensures
        encode_utf8(a + b) == encode_utf8(a) + encode_utf8(b),
    decreases a.len(),
{
    if a.len() == 0 {
        assert(a + b =~= b);
    } else {
        lemma_encode_concat(a.drop_first(), b);
        assert((a + b).drop_first() =~= a.drop_first() + b);
        assert(encode_scalar(a[0] as u32) + (encode_utf8(a.drop_first()) + encode_utf8(b))
            =~= (encode_scalar(a[0] as u32) + encode_utf8(a.drop_first())) + encode_utf8(b));
    }
}

/// The byte offset of character `k`: the UTF-8 length of the characters before it.
pub open spec fn byte_offset(cs: Seq<char>, k: int) -> nat {
    encode_utf8(cs.take(k)).len()
}

pub proof fn lemma_byte_offset_step(cs: Seq<char>, k: int)
    requires
        0 <= k < cs.len(),
    ensures
        byte_offset(cs, k + 1) == byte_offset(cs, k) + char_width(cs[k]),
{
    assert(cs.take(k + 1) =~= cs.take(k) + seq![cs[k]]);
    lemma_encode_concat(cs.take(k), seq![cs[k]]);
    assert(seq![cs[k]].drop_first() =~= Seq::<char>::empty());
    assert(encode_utf8(Seq::<char>::empty()) =~= Seq::<u8>::empty());
    assert(encode_utf8(seq![cs[k]]) =~= encode_scalar(cs[k] as u32));
}

pub proof fn lemma_byte_offset_bound(cs: Seq<char>, k: int)
    requires
        0 <= k <= cs.len(),
    ensures
        byte_offset(cs, k) <= encode_utf8(cs).len(),
{
    assert(cs =~= cs.take(k) + cs.skip(k));
    lemma_encode_concat(cs.take(k), cs.skip(k));
}

/// The byte offset of every character position, and of the end.
pub fn byte_offsets(cs: &[char], total: usize) -> (r: Vec<usize>)
    requires
        total == encode_utf8(cs@).len(),
    ensures
        r@.len() == cs@.len() + 1,
        forall|k: int| 0 <= k <= cs@.len() ==> r@[k] == byte_offset(cs@, k),
{
    let mut r: Vec<usize> = Vec::new();
    let mut off: usize = 0;
    assert(cs@.take(0) =~= Seq::<char>::empty());
    r.push(0);
    let mut k: usize = 0;
    while k < cs.len()
        invariant
            k <= cs@.len(),
            total == encode_utf8(cs@).len(),
            r@.len() == k + 1,
            off == byte_offset(cs@, k as int),
            forall|m: int| 0 <= m <= k ==> r@[m] == byte_offset(cs@, m),
        decreases cs.len() - k,
    {
        proof {
            lemma_byte_offset_step(cs@, k as int);
            lemma_byte_offset_bound(cs@, k + 1);
        }
        off = off + utf8_width(cs[k]);
        r.push(off);
        k += 1;
    }
    r
}

} // verus!
