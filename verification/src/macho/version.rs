//! Version strings of the `.build_version` directive.

use vstd::prelude::*;
use crate::text::str_chars;

verus! {

/// `s` split at each `.`, as `str::split('.')` splits it.
pub open spec fn split_dots(s: Seq<char>) -> Seq<Seq<char>>
    decreases s.len(),
{
    if s.len() == 0 {
        seq![Seq::<char>::empty()]
    } else {
        let init = split_dots(s.drop_last());
        if s.last() == '.' {
            init.push(Seq::<char>::empty())
        } else {
            init.update(init.len() - 1, init.last().push(s.last()))
        }
    }
}

proof fn lemma_split_dots_nonempty(s: Seq<char>)
    ensures
        split_dots(s).len() >= 1,
    decreases s.len(),
{
    if s.len() > 0 {
        lemma_split_dots_nonempty(s.drop_last());
    }
}

/// Whether `c` is an ASCII decimal digit.
pub open spec fn is_digit(c: char) -> bool {
    '0' <= c && c <= '9'
}

/// The value of a string of decimal digits.
pub open spec fn digits_value(s: Seq<char>) -> nat
    decreases s.len(),
{
    if s.len() == 0 {
        0
    } else {
        digits_value(s.drop_last()) * 10 + ((s.last() as u32) - ('0' as u32)) as nat
    }
}

/// The text after an optional leading `+`.
pub open spec fn without_plus(s: Seq<char>) -> Seq<char> {
    if s.len() > 0 && s[0] == '+' { s.drop_first() } else { s }
}

/// Every character is a decimal digit.
pub open spec fn all_digits(d: Seq<char>) -> bool {
    forall|i: int| 0 <= i < d.len() ==> is_digit(#[trigger] d[i])
}

/// `u32::from_str`: an optional `+`, then one or more decimal digits whose value fits.
pub open spec fn spec_parse_u32(s: Seq<char>) -> Option<u32> {
    let d = without_plus(s);
    if d.len() > 0 && all_digits(d) && digits_value(d) <= u32::MAX {
        Some(digits_value(d) as u32)
    } else {
        None
    }
}

/// The `i`-th dot-separated component as a number; 0 when it is missing or not a number.
pub open spec fn version_component(s: Seq<char>, i: int) -> u32 {
    let f = split_dots(s);
    if i < f.len() {
        match spec_parse_u32(f[i]) {
            Some(v) => v,
            None => 0,
        }
    } else {
        0
    }
}

/// A version `X.Y.Z` packed as `X<<16 | Y<<8 | Z`, each component masked to its field.
pub open spec fn spec_parse_version(s: Seq<char>) -> u32 {
    ((version_component(s, 0) & 0xFFFF) << 16) | ((version_component(s, 1) & 0xFF) << 8) | (version_component(s, 2) & 0xFF)
}

proof fn lemma_digits_grow(s: Seq<char>, i: int)
    requires
        0 <= i < s.len(),
    ensures
        digits_value(s.take(i + 1)) >= digits_value(s.take(i)),
        digits_value(s.take(i + 1)) == digits_value(s.take(i)) * 10 + ((s[i] as u32) - ('0' as u32)) as nat,
{
    assert(s.take(i + 1).drop_last() == s.take(i));
}

/// Parse a decimal `u32` as `str::parse::<u32>` does.
pub fn parse_u32(s: &[char]) -> (r: Option<u32>)
    ensures
        r == spec_parse_u32(s@),
{
    let start: usize = if s.len() > 0 && s[0] == '+' { 1 } else { 0 };
    let ghost d = without_plus(s@);
    assert(d == s@.subrange(start as int, s@.len() as int));
    if start >= s.len() {
        return None;
    }
    let mut value: u64 = 0;
    let mut overflow = false;
    let mut i = start;
    while i < s.len()
        invariant
            start <= i <= s.len(),
            d == s@.subrange(start as int, s@.len() as int),
            d == without_plus(s@),
            forall|k: int| 0 <= k < i - start ==> is_digit(#[trigger] d[k]),
            !overflow ==> value == digits_value(d.take(i - start)) && value <= u32::MAX,
            overflow ==> digits_value(d.take(i - start)) > u32::MAX,
        decreases s.len() - i,
    {
        let c = s[i];
        if !('0' <= c && c <= '9') {
            assert(!is_digit(d[i - start]));
            return None;
        }
        proof { lemma_digits_grow(d, i - start); }
        if !overflow {
            let digit = (c as u32 - '0' as u32) as u64;
            let next = value * 10 + digit;
            if next > 0xFFFF_FFFF {
                overflow = true;
            } else {
                value = next;
            }
        }
        i += 1;
    }
    assert(d.take(d.len() as int) == d);
    if overflow {
        None
    } else {
        Some(value as u32)
    }
}

/// Parse a version string "X.Y" or "X.Y.Z" into packed u32: `X<<16 | Y<<8 | Z`.
pub fn parse_version(s: &str) -> (r: u32)
    ensures
        r == spec_parse_version(s@),
{
    let cs = str_chars(s);
    let mut fields: Vec<Vec<char>> = Vec::new();
    let mut cur: Vec<char> = Vec::new();
    let mut i: usize = 0;
    while i < cs.len()
        invariant
            i <= cs.len(),
            fields@.map_values(|f: Vec<char>| f@).push(cur@) == split_dots(cs@.take(i as int)),
        decreases cs.len() - i,
    {
        let c = cs[i];
        assert(cs@.take(i + 1).drop_last() == cs@.take(i as int));
        if c == '.' {
            let done = cur;
            fields.push(done);
            cur = Vec::new();
            assert(fields@.map_values(|f: Vec<char>| f@).push(cur@)
                == split_dots(cs@.take(i as int)).push(Seq::<char>::empty()));
        } else {
            cur.push(c);
            assert(fields@.map_values(|f: Vec<char>| f@).push(cur@)
                =~= split_dots(cs@.take(i as int)).update(split_dots(cs@.take(i as int)).len() - 1,
                    split_dots(cs@.take(i as int)).last().push(c)));
        }
        i += 1;
    }
    assert(cs@.take(cs.len() as int) == s@);
    fields.push(cur);
    let ghost f = split_dots(s@);
    assert(fields@.map_values(|v: Vec<char>| v@) == f);
    let mut comps: [u32; 3] = [0, 0, 0];
    let mut k: usize = 0;
    while k < 3
        invariant
            k <= 3,
            fields@.map_values(|v: Vec<char>| v@) == f,
            f == split_dots(s@),
            forall|j: int| 0 <= j < k ==> comps@[j] == version_component(s@, j),
        decreases 3 - k,
    {
        if k < fields.len() {
            assert(fields@[k as int]@ == f[k as int]);
            let v = match parse_u32(fields[k].as_slice()) {
                Some(v) => v,
                None => 0,
            };
            comps.set(k, v);
        } else {
            comps.set(k, 0);
        }
        k += 1;
    }
    ((comps[0] & 0xFFFF) << 16) | ((comps[1] & 0xFF) << 8) | (comps[2] & 0xFF)
}

} // verus!
