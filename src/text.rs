//! Character-level helpers shared by the parsers and comparisons.

use std::cmp::Ordering;
use vstd::prelude::*;

verus! {

/// The characters of `s`, in order.
pub fn chars_of(s: &str) -> (r: Vec<char>)
    ensures
        r@ == s@,
{
    let mut v: Vec<char> = Vec::new();
    for c in it: s.chars()
        invariant
            v@ == it.seq().subrange(0, it.index() as int),
    {
        v.push(c);
    }
    v
}

/// Relies on `String::push`: appends one character at the end.
#[verifier::external_body]
fn push_char(s: &mut String, c: char)
    ensures
        final(s)@ == old(s)@.push(c),
{
    s.push(c);
}

/// A `String` holding the characters `v[lo..hi]`.
pub fn string_of(v: &Vec<char>, lo: usize, hi: usize) -> (r: String)
    requires
        lo <= hi <= v.len(),
    ensures
        r@ == v@.subrange(lo as int, hi as int),
{
    let mut s = String::new();
    let mut i: usize = lo;
    while i < hi
        invariant
            lo <= i <= hi <= v.len(),
            s@ == v@.subrange(lo as int, i as int),
        decreases hi - i,
    {
        push_char(&mut s, v[i]);
        assert(v@.subrange(lo as int, i + 1) == v@.subrange(lo as int, i as int).push(v@[i as int]));
        i = i + 1;
    }
    s
}

pub open spec fn is_digit(c: char) -> bool {
    '0' <= c && c <= '9'
}

pub open spec fn digit_value(c: char) -> int {
    (c as int) - ('0' as int)
}

/// The number that a sequence of decimal digits denotes.
pub open spec fn decimal_value(s: Seq<char>) -> int
    decreases s.len(),
{
    if s.len() == 0 {
        0
    } else {
        10 * decimal_value(s.drop_last()) + digit_value(s.last())
    }
}

pub open spec fn all_digits(s: Seq<char>) -> bool {
    s.len() > 0 && forall|i: int| 0 <= i < s.len() ==> is_digit(#[trigger] s[i])
}

/// The digits of an unsigned literal: the text without one leading `+`.
pub open spec fn unsigned_digits(s: Seq<char>) -> Seq<char> {
    if s.len() > 0 && s[0] == '+' {
        s.drop_first()
    } else {
        s
    }
}

/// The value of `s` read as an unsigned decimal integer no larger than `max`:
/// an optional `+` and then at least one digit, nothing else.
pub open spec fn parse_unsigned(s: Seq<char>, max: int) -> Option<int> {
    let d = unsigned_digits(s);
    if all_digits(d) && decimal_value(d) <= max {
        Some(decimal_value(d))
    } else {
        None
    }
}

proof fn lemma_decimal_prefix(d: Seq<char>, k: int)
    requires
        0 <= k <= d.len(),
        forall|i: int| 0 <= i < d.len() ==> is_digit(#[trigger] d[i]),
    ensures
        0 <= decimal_value(d.subrange(0, k)) <= decimal_value(d),
    decreases d.len(),
{
    if d.len() > 0 {
        let p = d.drop_last();
        assert forall|i: int| 0 <= i < p.len() implies is_digit(#[trigger] p[i]) by {
            assert(p[i] == d[i]);
        }
        if k == d.len() {
            assert(d.subrange(0, k) == d);
            lemma_decimal_prefix(p, p.len() as int);
            assert(p.subrange(0, p.len() as int) == p);
        } else {
            lemma_decimal_prefix(p, k);
            assert(p.subrange(0, k) == d.subrange(0, k));
            lemma_decimal_prefix(p, p.len() as int);
            assert(p.subrange(0, p.len() as int) == p);
            assert(is_digit(d[d.len() - 1]));
        }
    }
}

/// Reads `v[lo..hi]` as an unsigned decimal integer no larger than `max`.
pub fn parse_decimal(v: &Vec<char>, lo: usize, hi: usize, max: u64) -> (r: Option<u64>)
    requires
        lo <= hi <= v.len(),
    ensures
        match parse_unsigned(v@.subrange(lo as int, hi as int), max as int) {
            Some(n) => r == Some(n as u64),
            None => r is None,
        },
        r is Some ==> parse_unsigned(v@.subrange(lo as int, hi as int), max as int) == Some(
            r->0 as int,
        ),
{
    let ghost s = v@.subrange(lo as int, hi as int);
    let mut start: usize = lo;
    if lo < hi && v[lo] == '+' {
        start = lo + 1;
    }
    let ghost d = v@.subrange(start as int, hi as int);
    assert(unsigned_digits(s) == d);
    if start == hi {
        return None;
    }
    let mut acc: u64 = 0;
    let mut i: usize = start;
    while i < hi
        invariant
            lo <= start < hi <= v.len(),
            start <= i <= hi,
            d == v@.subrange(start as int, hi as int),
            unsigned_digits(s) == d,
            s == v@.subrange(lo as int, hi as int),
            forall|j: int| start <= j < i ==> is_digit(#[trigger] v@[j]),
            acc as int == decimal_value(v@.subrange(start as int, i as int)),
            acc <= max,
        decreases hi - i,
    {
        let c = v[i];
        if !('0' <= c && c <= '9') {
            assert(d[i - start] == c);
            return None;
        }
        let next: u128 = acc as u128 * 10 + (c as u32 - '0' as u32) as u128;
        let ghost p = v@.subrange(start as int, i + 1);
        assert(p.drop_last() == v@.subrange(start as int, i as int));
        assert(next == decimal_value(p));
        if next > max as u128 {
            proof {
                if all_digits(d) {
                    lemma_decimal_prefix(d, i + 1 - start);
                    assert(d.subrange(0, i + 1 - start) == p);
                }
            }
            return None;
        }
        acc = next as u64;
        i = i + 1;
    }
    assert(v@.subrange(start as int, i as int) == d);
    assert forall|j: int| 0 <= j < d.len() implies is_digit(#[trigger] d[j]) by {
        assert(d[j] == v@[start + j]);
    }
    Some(acc)
}

/// The text `a` followed by the text `b`.
pub fn concat(a: &str, b: &str) -> (r: String)
    ensures
        r@ == a@ + b@,
{
    let mut s = a.to_owned();
    let v = chars_of(b);
    let mut i: usize = 0;
    while i < v.len()
        invariant
            i <= v.len(),
            v@ == b@,
            s@ == a@ + v@.subrange(0, i as int),
        decreases v.len() - i,
    {
        push_char(&mut s, v[i]);
        assert(v@.subrange(0, i + 1) == v@.subrange(0, i as int).push(v@[i as int]));
        i = i + 1;
    }
    assert(v@.subrange(0, i as int) == v@);
    s
}

/// Lexicographic order of two texts, character by character.
pub open spec fn lex_cmp(a: Seq<char>, b: Seq<char>) -> Ordering
    decreases a.len(),
{
    if a.len() == 0 {
        if b.len() == 0 {
            Ordering::Equal
        } else {
            Ordering::Less
        }
    } else if b.len() == 0 {
        Ordering::Greater
    } else if a[0] < b[0] {
        Ordering::Less
    } else if a[0] > b[0] {
        Ordering::Greater
    } else {
        lex_cmp(a.drop_first(), b.drop_first())
    }
}

/// Compares two texts in lexicographic order.
pub fn compare_text(a: &Vec<char>, b: &Vec<char>) -> (r: Ordering)
    ensures
        r == lex_cmp(a@, b@),
{
    let mut i: usize = 0;
    assert(a@.skip(0) == a@);
    assert(b@.skip(0) == b@);
    while i < a.len() && i < b.len()
        invariant
            i <= a.len(),
            i <= b.len(),
            lex_cmp(a@, b@) == lex_cmp(a@.skip(i as int), b@.skip(i as int)),
        decreases a.len() - i,
    {
        let x = a[i];
        let y = b[i];
        assert(a@.skip(i as int)[0] == x);
        assert(b@.skip(i as int)[0] == y);
        if x < y {
            return Ordering::Less;
        } else if x > y {
            return Ordering::Greater;
        }
        assert(a@.skip(i as int).drop_first() == a@.skip(i + 1));
        assert(b@.skip(i as int).drop_first() == b@.skip(i + 1));
        i = i + 1;
    }
    if i < a.len() {
        Ordering::Greater
    } else if i < b.len() {
        Ordering::Less
    } else {
        Ordering::Equal
    }
}

/// `i` is the one position of `c` in `s`.
pub open spec fn sole_position(s: Seq<char>, c: char, i: int) -> bool {
    &&& 0 <= i < s.len()
    &&& s[i] == c
    &&& forall|j: int| 0 <= j < s.len() && j != i ==> s[j] != c
}

pub proof fn lemma_sole_position_unique(s: Seq<char>, c: char, i: int, k: int)
    requires
        sole_position(s, c, i),
        sole_position(s, c, k),
    ensures
        i == k,
{
    if i != k {
        assert(s[k] != c);
    }
}

/// Finds the position of `c` in `v[lo..hi]` (relative to `lo`) when it occurs there exactly once.
pub fn find_sole(v: &Vec<char>, lo: usize, hi: usize, c: char) -> (r: Option<usize>)
    requires
        lo <= hi <= v.len(),
    ensures
        match r {
            Some(i) => i < hi - lo && sole_position(v@.subrange(lo as int, hi as int), c, i as int),
            None => forall|k: int| !sole_position(v@.subrange(lo as int, hi as int), c, k),
        },
{
    let ghost s = v@.subrange(lo as int, hi as int);
    let mut found: Option<usize> = None;
    let mut i: usize = lo;
    while i < hi
        invariant
            lo <= i <= hi <= v.len(),
            s == v@.subrange(lo as int, hi as int),
            match found {
                Some(p) => lo <= p < i && v@[p as int] == c && forall|j: int|
                    lo <= j < i && j != p ==> v@[j] != c,
                None => forall|j: int| lo <= j < i ==> v@[j] != c,
            },
        decreases hi - i,
    {
        if v[i] == c {
            if found.is_some() {
                proof {
                    let p = found->0;
                    assert forall|k: int| !sole_position(s, c, k) by {
                        if sole_position(s, c, k) {
                            assert(s[p - lo] == c);
                            assert(s[i - lo] == c);
                        }
                    }
                }
                return None;
            }
            found = Some(i);
        }
        i = i + 1;
    }
    match found {
        Some(p) => {
            assert forall|j: int| 0 <= j < s.len() && j != p - lo implies s[j] != c by {
                assert(s[j] == v@[lo + j]);
            }
            Some(p - lo)
        },
        None => {
            assert forall|k: int| !sole_position(s, c, k) by {
                if 0 <= k < s.len() {
                    assert(s[k] == v@[lo + k]);
                }
            }
            None
        },
    }
}

/// `i` is the first position of `c` in `s`.
pub open spec fn first_position(s: Seq<char>, c: char, i: int) -> bool {
    &&& 0 <= i < s.len()
    &&& s[i] == c
    &&& forall|j: int| 0 <= j < i ==> s[j] != c
}

pub proof fn lemma_first_position_unique(s: Seq<char>, c: char, i: int, k: int)
    requires
        first_position(s, c, i),
        first_position(s, c, k),
    ensures
        i == k,
{
    if i < k {
        assert(s[i] != c);
    } else if k < i {
        assert(s[k] != c);
    }
}

/// Finds the first position of `c` in `v[lo..hi]` (relative to `lo`).
pub fn find_first(v: &Vec<char>, lo: usize, hi: usize, c: char) -> (r: Option<usize>)
    requires
        lo <= hi <= v.len(),
    ensures
        match r {
            Some(i) => i < hi - lo && first_position(v@.subrange(lo as int, hi as int), c, i as int),
            None => forall|k: int| !first_position(v@.subrange(lo as int, hi as int), c, k),
        },
{
    let ghost s = v@.subrange(lo as int, hi as int);
    let mut i: usize = lo;
    while i < hi
        invariant
            lo <= i <= hi <= v.len(),
            s == v@.subrange(lo as int, hi as int),
            forall|j: int| lo <= j < i ==> v@[j] != c,
        decreases hi - i,
    {
        if v[i] == c {
            assert forall|j: int| 0 <= j < i - lo implies s[j] != c by {
                assert(s[j] == v@[lo + j]);
            }
            return Some(i - lo);
        }
        i = i + 1;
    }
    assert forall|k: int| !first_position(s, c, k) by {
        if 0 <= k < s.len() {
            assert(s[k] == v@[lo + k]);
        }
    }
    None
}

/// The pieces of `s` between the separators `sep`, empty pieces included;
/// a text without `sep` is one piece.
pub open spec fn split_on(s: Seq<char>, sep: char) -> Seq<Seq<char>>
    decreases s.len(),
{
    if s.len() == 0 {
        seq![Seq::empty()]
    } else {
        let p = split_on(s.drop_last(), sep);
        if s.last() == sep {
            p.push(Seq::empty())
        } else {
            p.drop_last().push(p.last().push(s.last()))
        }
    }
}

/// Two texts are equal in lexicographic order exactly when they are the same text.
pub proof fn lemma_lex_cmp_equal(a: Seq<char>, b: Seq<char>)
    ensures
        (lex_cmp(a, b) == Ordering::Equal) <==> (a == b),
    decreases a.len(),
{
    if a.len() == 0 && b.len() == 0 {
        assert(a =~= b);
    } else if a.len() > 0 && b.len() > 0 && a[0] == b[0] {
        lemma_lex_cmp_equal(a.drop_first(), b.drop_first());
        if a.drop_first() =~= b.drop_first() {
            assert(a =~= seq![a[0]] + a.drop_first());
            assert(b =~= seq![b[0]] + b.drop_first());
        }
        if a == b {
            assert(a.drop_first() =~= b.drop_first());
        }
    } else if a.len() > 0 && b.len() > 0 && a == b {
        assert(a[0] == b[0]);
    }
}

} // verus!
