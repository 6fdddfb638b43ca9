//! Character-level building blocks shared by the address parsers.

use vstd::prelude::*;

verus! {

pub open spec fn is_digit(c: char) -> bool {
    '0' <= c && c <= '9'
}

pub open spec fn all_digits(s: Seq<char>) -> bool {
    forall|i: int| 0 <= i < s.len() ==> is_digit(#[trigger] s[i])
}

pub open spec fn digit_value(c: char) -> nat {
    (c as int - '0' as int) as nat
}

/// The number written by a string of decimal digits, most significant first.
pub open spec fn decimal_value(s: Seq<char>) -> nat
    decreases s.len(),
{
    if s.len() == 0 {
        0
    } else {
        decimal_value(s.drop_last()) * 10 + digit_value(s.last())
    }
}

pub open spec fn digit_char(d: nat) -> char {
    if d == 0 { '0' }
    else if d == 1 { '1' }
    else if d == 2 { '2' }
    else if d == 3 { '3' }
    else if d == 4 { '4' }
    else if d == 5 { '5' }
    else if d == 6 { '6' }
    else if d == 7 { '7' }
    else if d == 8 { '8' }
    else { '9' }
}

/// Canonical decimal text of `n`: no sign, no leading zero.
pub open spec fn decimal_text(n: nat) -> Seq<char>
    decreases n,
{
    if n < 10 {
        seq![digit_char(n)]
    } else {
        decimal_text(n / 10).push(digit_char(n % 10))
    }
}

/// Index of the first `c` in `s`, or -1 where `s` holds none.
pub open spec fn find_char(s: Seq<char>, c: char) -> int
    decreases s.len(),
{
    if s.len() == 0 {
        -1
    } else if s[0] == c {
        0
    } else {
        let r = find_char(s.drop_first(), c);
        if r < 0 { -1 } else { r + 1 }
    }
}

/// What comes before the first `c` (all of `s` where there is none).
pub open spec fn before_char(s: Seq<char>, c: char) -> Seq<char> {
    if find_char(s, c) < 0 { s } else { s.take(find_char(s, c)) }
}

/// What comes after the first `c` (nothing where there is none).
pub open spec fn after_char(s: Seq<char>, c: char) -> Seq<char> {
    if find_char(s, c) < 0 { Seq::empty() } else { s.skip(find_char(s, c) + 1) }
}

pub proof fn lemma_find_char_at(s: Seq<char>, c: char, i: int)
    requires
        0 <= i < s.len(),
        s[i] == c,
        forall|j: int| 0 <= j < i ==> s[j] != c,
    ensures
        find_char(s, c) == i,
    decreases s.len(),
{
    if i > 0 {
        let t = s.drop_first();
        assert forall|j: int| 0 <= j < i - 1 implies t[j] != c by {
            assert(t[j] == s[j + 1]);
        }
        lemma_find_char_at(t, c, i - 1);
    }
}

pub proof fn lemma_find_char_none(s: Seq<char>, c: char)
    requires
        forall|j: int| 0 <= j < s.len() ==> s[j] != c,
    ensures
        find_char(s, c) == -1,
    decreases s.len(),
{
    if s.len() > 0 {
        let t = s.drop_first();
        assert forall|j: int| 0 <= j < t.len() implies t[j] != c by {
            assert(t[j] == s[j + 1]);
        }
        lemma_find_char_none(t, c);
    }
}

/// Where `s` is `a`, then `c`, then anything, and `a` holds no `c`, the first `c`
/// stands right after `a`.
pub proof fn lemma_find_char_concat(a: Seq<char>, c: char, rest: Seq<char>)
    requires
        forall|j: int| 0 <= j < a.len() ==> a[j] != c,
    ensures
        find_char(a + seq![c] + rest, c) == a.len(),
        before_char(a + seq![c] + rest, c) == a,
        after_char(a + seq![c] + rest, c) == rest,
{
    let s = a + seq![c] + rest;
    assert forall|j: int| 0 <= j < a.len() implies s[j] != c by {
        assert(s[j] == a[j]);
    }
    assert(s[a.len() as int] == c);
    lemma_find_char_at(s, c, a.len() as int);
    assert(s.take(a.len() as int) =~= a);
    assert(s.skip(a.len() as int + 1) =~= rest);
}

pub proof fn lemma_digit_char(d: nat)
    requires
        d < 10,
    ensures
        is_digit(digit_char(d)),
        digit_value(digit_char(d)) == d,
        (digit_char(d) == '0') == (d == 0),
{
}

/// Canonical decimal text reads back as its number, is made of digits, and
/// starts with `0` only for zero itself.
pub proof fn lemma_decimal_text(n: nat)
    ensures
        decimal_value(decimal_text(n)) == n,
        all_digits(decimal_text(n)),
        decimal_text(n).len() >= 1,
        (decimal_text(n)[0] == '0') == (n == 0),
        n < 10 ==> decimal_text(n).len() == 1,
        10 <= n < 100 ==> decimal_text(n).len() == 2,
        100 <= n < 1000 ==> decimal_text(n).len() == 3,
    decreases n,
{
    if n < 10 {
        lemma_digit_char(n);
        assert(decimal_text(n).drop_last() =~= Seq::<char>::empty());
        assert(decimal_value(Seq::<char>::empty()) == 0);
    } else {
        let t = decimal_text(n / 10);
        lemma_decimal_text(n / 10);
        lemma_digit_char(n % 10);
        assert(decimal_text(n) == t.push(digit_char(n % 10)));
        assert(t.push(digit_char(n % 10)).drop_last() =~= t);
        assert(n == (n / 10) * 10 + n % 10);
        assert(decimal_text(n).last() == digit_char(n % 10));
        assert(decimal_value(decimal_text(n)) == decimal_value(t) * 10 + digit_value(
            digit_char(n % 10),
        ));
        let s = decimal_text(n);
        assert forall|i: int| 0 <= i < s.len() implies is_digit(#[trigger] s[i]) by {
            if i < t.len() {
                assert(s[i] == t[i]);
            }
        }
        assert(s[0] == t[0]);
    }
}

/// Digits only, so no separator among them.
pub proof fn lemma_digits_hold_no(s: Seq<char>, c: char)
    requires
        all_digits(s),
        !is_digit(c),
    ensures
        forall|j: int| 0 <= j < s.len() ==> s[j] != c,
{
    assert forall|j: int| 0 <= j < s.len() implies s[j] != c by {
        assert(is_digit(s[j]));
    }
}

pub open spec fn is_hex(c: char) -> bool {
    is_digit(c) || ('a' <= c && c <= 'f') || ('A' <= c && c <= 'F')
}

pub open spec fn all_hex(s: Seq<char>) -> bool {
    forall|i: int| 0 <= i < s.len() ==> is_hex(#[trigger] s[i])
}

pub open spec fn hex_digit_value(c: char) -> nat {
    if is_digit(c) {
        digit_value(c)
    } else if 'a' <= c && c <= 'f' {
        (c as int - 'a' as int + 10) as nat
    } else {
        (c as int - 'A' as int + 10) as nat
    }
}

/// The number written by a string of hex digits, most significant first.
pub open spec fn hex_value(s: Seq<char>) -> nat
    decreases s.len(),
{
    if s.len() == 0 {
        0
    } else {
        hex_value(s.drop_last()) * 16 + hex_digit_value(s.last())
    }
}

/// Index of the first `::` in `s`, or -1 where `s` holds none.
pub open spec fn find_gap(s: Seq<char>) -> int
    decreases s.len(),
{
    if s.len() < 2 {
        -1
    } else if s[0] == ':' && s[1] == ':' {
        0
    } else {
        let r = find_gap(s.drop_first());
        if r < 0 { -1 } else { r + 1 }
    }
}

pub proof fn lemma_find_gap_at(s: Seq<char>, i: int)
    requires
        0 <= i,
        i + 1 < s.len(),
        s[i] == ':' && s[i + 1] == ':',
        forall|j: int| 0 <= j < i ==> !(#[trigger] s[j] == ':' && s[j + 1] == ':'),
    ensures
        find_gap(s) == i,
    decreases s.len(),
{
    if i > 0 {
        let t = s.drop_first();
        assert forall|j: int| 0 <= j < i - 1 implies !(#[trigger] t[j] == ':' && t[j + 1] == ':') by {
            assert(t[j] == s[j + 1]);
            assert(t[j + 1] == s[j + 2]);
        }
        assert(!(s[0] == ':' && s[1] == ':'));
        lemma_find_gap_at(t, i - 1);
    }
}

pub proof fn lemma_find_gap_none(s: Seq<char>)
    requires
        forall|j: int| 0 <= j && j + 1 < s.len() ==> !(#[trigger] s[j] == ':' && s[j + 1] == ':'),
    ensures
        find_gap(s) == -1,
    decreases s.len(),
{
    if s.len() >= 2 {
        let t = s.drop_first();
        assert forall|j: int| 0 <= j && j + 1 < t.len() implies !(#[trigger] t[j] == ':' && t[j + 1]
            == ':') by {
            assert(t[j] == s[j + 1]);
            assert(t[j + 1] == s[j + 2]);
        }
        assert(!(s[0] == ':' && s[1] == ':'));
        lemma_find_gap_none(t);
    }
}

/// Position of the first `::` in `s`, if any.
pub fn find_gap_in(s: &str, len: usize) -> (r: Option<usize>)
    requires
        len == s@.len(),
    ensures
        match r {
            Some(i) => i + 1 < len && find_gap(s@) == i,
            None => find_gap(s@) == -1,
        },
{
    let mut i: usize = 0;
    let mut prev_colon = false;
    while i < len
        invariant
            len == s@.len(),
            i <= len,
            prev_colon == (i > 0 && s@[i - 1] == ':'),
            forall|j: int| 0 <= j && j + 1 < i ==> !(#[trigger] s@[j] == ':' && s@[j + 1] == ':'),
        decreases len - i,
    {
        let c = s.get_char(i);
        if c == ':' && prev_colon {
            proof {
                lemma_find_gap_at(s@, i - 1);
            }
            return Some(i - 1);
        }
        prev_colon = c == ':';
        i = i + 1;
    }
    proof {
        lemma_find_gap_none(s@);
    }
    None
}

/// The number written by `s[from..to]`, if that is one to four hex digits.
pub fn hex_in(s: &str, len: usize, from: usize, to: usize) -> (r: Option<u16>)
    requires
        len == s@.len(),
        from <= to <= len,
    ensures
        r == (if 1 <= to - from <= 4 && all_hex(s@.subrange(from as int, to as int)) && hex_value(
            s@.subrange(from as int, to as int),
        ) <= 0xffff {
            Some(hex_value(s@.subrange(from as int, to as int)) as u16)
        } else {
            None
        }),
{
    if from == to || to - from > 4 {
        return None;
    }
    let cap: u64 = 0x10000;
    let mut acc: u64 = 0;
    let mut i: usize = from;
    while i < to
        invariant
            len == s@.len(),
            from <= i <= to <= len,
            cap == 0x10000,
            all_hex(s@.subrange(from as int, i as int)),
            acc == if hex_value(s@.subrange(from as int, i as int)) < cap {
                hex_value(s@.subrange(from as int, i as int))
            } else {
                cap as nat
            },
        decreases to - i,
    {
        let ch = s.get_char(i);
        let sub = Ghost(s@.subrange(from as int, i as int + 1));
        let d: u64 = if '0' <= ch && ch <= '9' {
            (ch as u32 - '0' as u32) as u64
        } else if 'a' <= ch && ch <= 'f' {
            (ch as u32 - 'a' as u32 + 10) as u64
        } else if 'A' <= ch && ch <= 'F' {
            (ch as u32 - 'A' as u32 + 10) as u64
        } else {
            assert(!all_hex(s@.subrange(from as int, to as int))) by {
                assert(s@.subrange(from as int, to as int)[i - from] == ch);
            }
            return None;
        };
        proof {
            assert(sub@.drop_last() =~= s@.subrange(from as int, i as int));
            assert(sub@.last() == ch);
            let v = hex_value(s@.subrange(from as int, i as int));
            assert(hex_value(sub@) == v * 16 + d);
            if v >= cap {
                assert(v * 16 + d >= cap) by (nonlinear_arith)
                    requires v >= cap, d >= 0;
            }
            assert forall|j: int| 0 <= j < sub@.len() implies is_hex(#[trigger] sub@[j]) by {
                if j < i - from {
                    assert(sub@[j] == s@.subrange(from as int, i as int)[j]);
                }
            }
        }
        let next: u64 = acc * 16 + d;
        acc = if next < cap { next } else { cap };
        i = i + 1;
    }
    if acc < cap {
        Some(acc as u16)
    } else {
        None
    }
}

/// Position of the first `c` in `s` at or after `from`, if any.
pub fn find_from(s: &str, len: usize, from: usize, c: char) -> (r: Option<usize>)
    requires
        len == s@.len(),
        from <= len,
    ensures
        match r {
            Some(i) => from <= i < len && s@[i as int] == c && find_char(s@.skip(from as int), c)
                == i - from,
            None => find_char(s@.skip(from as int), c) == -1,
        },
{
    let mut i: usize = from;
    while i < len
        invariant
            len == s@.len(),
            from <= i <= len,
            forall|j: int| from <= j < i ==> s@[j] != c,
        decreases len - i,
    {
        let ch = s.get_char(i);
        if ch == c {
            proof {
                let t = s@.skip(from as int);
                assert forall|j: int| 0 <= j < i - from implies t[j] != c by {
                    assert(t[j] == s@[j + from]);
                }
                lemma_find_char_at(t, c, i - from);
            }
            return Some(i);
        }
        i = i + 1;
    }
    proof {
        let t = s@.skip(from as int);
        assert forall|j: int| 0 <= j < t.len() implies t[j] != c by {
            assert(t[j] == s@[j + from]);
        }
        lemma_find_char_none(t, c);
    }
    None
}

/// The number written by `s[from..to]`, if that is one or more decimal digits
/// and the number is at most `limit`.
pub fn decimal_in(s: &str, len: usize, from: usize, to: usize, limit: u32) -> (r: Option<u32>)
    requires
        len == s@.len(),
        from <= to <= len,
    ensures
        r == (if from < to && all_digits(s@.subrange(from as int, to as int)) && decimal_value(
            s@.subrange(from as int, to as int),
        ) <= limit {
            Some(decimal_value(s@.subrange(from as int, to as int)) as u32)
        } else {
            None
        }),
{
    if from == to {
        return None;
    }
    let cap: u64 = limit as u64 + 1;
    let mut acc: u64 = 0;
    let mut i: usize = from;
    while i < to
        invariant
            len == s@.len(),
            from <= i <= to <= len,
            cap == limit + 1,
            all_digits(s@.subrange(from as int, i as int)),
            acc == if decimal_value(s@.subrange(from as int, i as int)) < cap {
                decimal_value(s@.subrange(from as int, i as int))
            } else {
                cap as nat
            },
        decreases to - i,
    {
        let ch = s.get_char(i);
        let sub = Ghost(s@.subrange(from as int, i as int + 1));
        if !('0' <= ch && ch <= '9') {
            proof {
                assert(sub@[i - from] == ch);
            }
            assert(!all_digits(s@.subrange(from as int, to as int))) by {
                assert(s@.subrange(from as int, to as int)[i - from] == ch);
            }
            return None;
        }
        let d: u64 = (ch as u32 - '0' as u32) as u64;
        proof {
            assert(sub@.drop_last() =~= s@.subrange(from as int, i as int));
            assert(sub@.last() == ch);
            let v = decimal_value(s@.subrange(from as int, i as int));
            assert(decimal_value(sub@) == v * 10 + d);
            if v >= cap {
                assert(v * 10 + d >= cap) by (nonlinear_arith)
                    requires v >= cap, d >= 0;
            }
            assert forall|j: int| 0 <= j < sub@.len() implies is_digit(#[trigger] sub@[j]) by {
                if j < i - from {
                    assert(sub@[j] == s@.subrange(from as int, i as int)[j]);
                }
            }
        }
        let next: u64 = acc * 10 + d;
        acc = if next < cap { next } else { cap };
        i = i + 1;
    }
    if acc < cap {
        Some(acc as u32)
    } else {
        None
    }
}


/// Whether two strings hold the same characters.
pub fn same_chars(x: &str, y: &str) -> (r: bool)
    ensures
        r == (x@ == y@),
{
    let n = x.unicode_len();
    if n != y.unicode_len() {
        return false;
    }
    let mut i: usize = 0;
    while i < n
        invariant
            n == x@.len(),
            n == y@.len(),
            i <= n,
            forall|j: int| 0 <= j < i ==> x@[j] == y@[j],
        decreases n - i,
    {
        if x.get_char(i) != y.get_char(i) {
            return false;
        }
        i = i + 1;
    }
    assert(x@ =~= y@);
    true
}

} // verus!
