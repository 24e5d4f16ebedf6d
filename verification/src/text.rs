//! Reading texts: splitting at a separator, trimming white space, and the
//! dotted form of an IPv4 address.

use vstd::prelude::*;
use vstd::string::StrSliceExecFns;
use crate::addr::{ipv4, spec_ipv4};

verus! {

/// The pieces of `s` between the occurrences of `sep`: one more piece than
/// there are occurrences, in order, each without the separators around it.
pub open spec fn spec_split(s: Seq<char>, sep: char) -> Seq<Seq<char>>
    decreases s.len(),
{
    if s.len() == 0 {
        seq![Seq::empty()]
    } else {
        let before = spec_split(s.drop_last(), sep);
        if s.last() == sep {
            before.push(Seq::empty())
        } else {
            before.update(before.len() - 1, before.last().push(s.last()))
        }
    }
}

/// Whether `c` is white space: the characters of Unicode's property
/// `White_Space`.
pub open spec fn spec_is_space(c: char) -> bool {
    let n = c as u32;
    ||| 0x09 <= n <= 0x0d
    ||| n == 0x20
    ||| n == 0x85
    ||| n == 0xa0
    ||| n == 0x1680
    ||| 0x2000 <= n <= 0x200a
    ||| n == 0x2028
    ||| n == 0x2029
    ||| n == 0x202f
    ||| n == 0x205f
    ||| n == 0x3000
}

/// `s` without the white space it begins with.
pub open spec fn spec_trim_start(s: Seq<char>) -> Seq<char>
    decreases s.len(),
{
    if s.len() > 0 && spec_is_space(s[0]) {
        spec_trim_start(s.drop_first())
    } else {
        s
    }
}

/// `s` without the white space it ends with.
pub open spec fn spec_trim_end(s: Seq<char>) -> Seq<char>
    decreases s.len(),
{
    if s.len() > 0 && spec_is_space(s.last()) {
        spec_trim_end(s.drop_last())
    } else {
        s
    }
}

/// `s` without the white space around it.
pub open spec fn spec_trim(s: Seq<char>) -> Seq<char> {
    spec_trim_end(spec_trim_start(s))
}

/// Whether `c` is one of the digits `0` to `9`.
pub open spec fn spec_is_digit(c: char) -> bool {
    '0' <= c <= '9'
}

/// The number that the digits of `t` write in base ten.
pub open spec fn spec_digits_value(t: Seq<char>) -> int
    decreases t.len(),
{
    if t.len() == 0 {
        0
    } else {
        spec_digits_value(t.drop_last()) * 10 + (t.last() as int - '0' as int)
    }
}

/// The byte that `t` writes: one to three digits, no zero in front of
/// another digit, and no more than 255.
pub open spec fn spec_octet(t: Seq<char>) -> Option<u8> {
    if 1 <= t.len() <= 3 && (forall|i: int| 0 <= i < t.len() ==> spec_is_digit(#[trigger] t[i]))
        && (t.len() == 1 || t[0] != '0') && spec_digits_value(t) <= 255 {
        Some(spec_digits_value(t) as u8)
    } else {
        None
    }
}

/// The address that `s` writes in dotted form: four bytes with a dot
/// between each two, and nothing else.
pub open spec fn spec_ipv4_text(s: Seq<char>) -> Option<u32> {
    let parts = spec_split(s, '.');
    if parts.len() == 4 && spec_octet(parts[0]) is Some && spec_octet(parts[1]) is Some
        && spec_octet(parts[2]) is Some && spec_octet(parts[3]) is Some {
        Some(
            spec_ipv4(
                spec_octet(parts[0])->0,
                spec_octet(parts[1])->0,
                spec_octet(parts[2])->0,
                spec_octet(parts[3])->0,
            ),
        )
    } else {
        None
    }
}

/// The texts that `parts` hold.
pub open spec fn spec_texts(parts: Seq<&str>) -> Seq<Seq<char>> {
    Seq::new(parts.len(), |i: int| parts[i]@)
}

/// Whether `c` is white space.
pub fn is_space(c: char) -> (space: bool)
    ensures
        space == spec_is_space(c),
{
    let n = c as u32;
    (0x09 <= n && n <= 0x0d) || n == 0x20 || n == 0x85 || n == 0xa0 || n == 0x1680 || (0x2000 <= n
        && n <= 0x200a) || n == 0x2028 || n == 0x2029 || n == 0x202f || n == 0x205f || n == 0x3000
}

/// Cuts `s` at each `sep`.
pub fn split<'a>(s: &'a str, sep: char) -> (parts: Vec<&'a str>)
    ensures
        spec_texts(parts@) == spec_split(s@, sep),
{
    let n = s.unicode_len();
    let mut parts: Vec<&'a str> = Vec::new();
    let mut start: usize = 0;
    let mut i: usize = 0;
    proof {
        assert(s@.take(0) =~= Seq::<char>::empty());
        assert(spec_texts(parts@).push(s@.subrange(0, 0)) =~~= seq![Seq::<char>::empty()]);
    }
    while i < n
        invariant
            start <= i <= n,
            n == s@.len(),
            spec_split(s@.take(i as int), sep) == spec_texts(parts@).push(
                s@.subrange(start as int, i as int),
            ),
        decreases n - i,
    {
        let c = s.get_char(i);
        let ghost before = spec_texts(parts@);
        proof {
            let done = s@.take(i + 1);
            assert(done.drop_last() =~= s@.take(i as int));
            assert(done.last() == c);
        }
        if c == sep {
            let ghost piece = s@.subrange(start as int, i as int);
            parts.push(s.substring_char(start, i));
            start = i + 1;
            assert(spec_texts(parts@) =~= before.push(piece));
            assert(s@.subrange(start as int, i + 1) =~= Seq::<char>::empty());
        } else {
            proof {
                let piece = s@.subrange(start as int, i as int);
                assert(piece.push(c) =~= s@.subrange(start as int, i + 1));
                assert(before.push(piece).update(before.len() as int, piece.push(c))
                    =~= before.push(piece.push(c)));
            }
        }
        i += 1;
    }
    let ghost before = spec_texts(parts@);
    parts.push(s.substring_char(start, n));
    assert(s@.take(n as int) =~= s@);
    assert(spec_texts(parts@) =~= before.push(s@.subrange(start as int, n as int)));
    parts
}

/// Cuts the white space off both ends of `s`.
pub fn trim<'a>(s: &'a str) -> (t: &'a str)
    ensures
        t@ == spec_trim(s@),
{
    let n = s.unicode_len();
    let mut from: usize = 0;
    assert(s@.subrange(0, n as int) =~= s@);
    while from < n && is_space(s.get_char(from))
        invariant
            from <= n,
            n == s@.len(),
            spec_trim_start(s@) == spec_trim_start(s@.subrange(from as int, n as int)),
        decreases n - from,
    {
        proof {
            let rest = s@.subrange(from as int, n as int);
            assert(rest[0] == s@[from as int]);
            assert(rest.drop_first() =~= s@.subrange(from + 1, n as int));
        }
        from += 1;
    }
    proof {
        let rest = s@.subrange(from as int, n as int);
        if from < n {
            assert(rest[0] == s@[from as int]);
        }
        assert(spec_trim_start(s@) == rest);
    }
    let mut to: usize = n;
    while to > from && is_space(s.get_char(to - 1))
        invariant
            from <= to <= n,
            n == s@.len(),
            spec_trim(s@) == spec_trim_end(s@.subrange(from as int, to as int)),
        decreases to,
    {
        proof {
            let rest = s@.subrange(from as int, to as int);
            assert(rest.last() == s@[to - 1]);
            assert(rest.drop_last() =~= s@.subrange(from as int, to - 1));
        }
        to -= 1;
    }
    proof {
        let rest = s@.subrange(from as int, to as int);
        if to > from {
            assert(rest.last() == s@[to - 1]);
        }
    }
    s.substring_char(from, to)
}

/// Reads one byte of a dotted address.
pub fn parse_octet(t: &str) -> (r: Option<u8>)
    ensures
        r == spec_octet(t@),
{
    let n = t.unicode_len();
    if n < 1 || n > 3 {
        return None;
    }
    let mut value: u32 = 0;
    let mut i: usize = 0;
    assert(t@.take(0) =~= Seq::<char>::empty());
    while i < n
        invariant
            i <= n <= 3,
            n == t@.len(),
            forall|j: int| 0 <= j < i ==> spec_is_digit(#[trigger] t@[j]),
            value == spec_digits_value(t@.take(i as int)),
            value < 1000,
        decreases n - i,
    {
        let c = t.get_char(i);
        if !('0' <= c && c <= '9') {
            return None;
        }
        proof {
            let done = t@.take(i + 1);
            assert(done.drop_last() =~= t@.take(i as int));
            assert(done.last() == c);
            lemma_digits_bound(t@.take(i as int));
        }
        value = value * 10 + (c as u32 - '0' as u32);
        i += 1;
    }
    assert(t@.take(n as int) =~= t@);
    if n > 1 && t.get_char(0) == '0' {
        return None;
    }
    if value > 255 {
        return None;
    }
    Some(value as u8)
}

/// Digits write a number below the power of ten of their count.
pub proof fn lemma_digits_bound(t: Seq<char>)
    requires
        forall|i: int| 0 <= i < t.len() ==> spec_is_digit(#[trigger] t[i]),
    ensures
        0 <= spec_digits_value(t),
        t.len() == 0 ==> spec_digits_value(t) == 0,
        t.len() == 1 ==> spec_digits_value(t) < 10,
        t.len() == 2 ==> spec_digits_value(t) < 100,
        t.len() == 3 ==> spec_digits_value(t) < 1000,
    decreases t.len(),
{
    if t.len() > 0 {
        assert(spec_is_digit(t[t.len() - 1]));
        assert forall|i: int| 0 <= i < t.drop_last().len() implies spec_is_digit(
            #[trigger] t.drop_last()[i],
        ) by {
            assert(t.drop_last()[i] == t[i]);
        }
        lemma_digits_bound(t.drop_last());
    }
}

/// Reads an address in dotted form.
pub fn parse_ipv4(s: &str) -> (r: Option<u32>)
    ensures
        r == spec_ipv4_text(s@),
{
    let parts = split(s, '.');
    if parts.len() != 4 {
        return None;
    }
    assert(spec_texts(parts@)[0] == parts[0]@);
    assert(spec_texts(parts@)[1] == parts[1]@);
    assert(spec_texts(parts@)[2] == parts[2]@);
    assert(spec_texts(parts@)[3] == parts[3]@);
    let a = match parse_octet(parts[0]) {
        Some(v) => v,
        None => {
            return None;
        },
    };
    let b = match parse_octet(parts[1]) {
        Some(v) => v,
        None => {
            return None;
        },
    };
    let c = match parse_octet(parts[2]) {
        Some(v) => v,
        None => {
            return None;
        },
    };
    let d = match parse_octet(parts[3]) {
        Some(v) => v,
        None => {
            return None;
        },
    };
    Some(ipv4(a, b, c, d))
}

} // verus!
