//! Playback positions.
//!
//! A position is carried as the decimal literal in which it was reported, so
//! that passing it on never rounds what a viewer's player said.

use vstd::prelude::*;
use crate::text::chars_of;

verus! {

/// Tells whether a character is one of the ten decimal digits.
pub open spec fn is_digit(c: char) -> bool {
    '0' <= c && c <= '9'
}

/// One or more digits.
pub open spec fn is_digits(s: Seq<char>) -> bool {
    s.len() > 0 && forall|i: int| 0 <= i < s.len() ==> is_digit(#[trigger] s[i])
}

/// Nothing, or a minus sign.
pub open spec fn is_sign(s: Seq<char>) -> bool {
    s.len() == 0 || (s.len() == 1 && s[0] == '-')
}

/// One or more digits, the first of them a zero only if it is the only one.
pub open spec fn is_integer_part(s: Seq<char>) -> bool {
    is_digits(s) && (s[0] == '0' ==> s.len() == 1)
}

/// Nothing, or a point and one or more digits.
pub open spec fn is_fraction(s: Seq<char>) -> bool {
    s.len() == 0 || (s[0] == '.' && is_digits(s.subrange(1, s.len() as int)))
}

/// Nothing, or `e` or `E`, an optional sign, and one or more digits.
pub open spec fn is_exponent(s: Seq<char>) -> bool {
    s.len() == 0 || ((s[0] == 'e' || s[0] == 'E') && (is_digits(s.subrange(1, s.len() as int))
        || (s.len() >= 2 && (s[1] == '+' || s[1] == '-') && is_digits(
        s.subrange(2, s.len() as int),
    ))))
}

/// Tells whether `s` splits at `a`, `b` and `c` into a sign, an integer
/// part, a fraction and an exponent.
pub open spec fn splits_as_number(s: Seq<char>, a: int, b: int, c: int) -> bool {
    &&& 0 <= a <= b <= c <= s.len()
    &&& is_sign(s.subrange(0, a))
    &&& is_integer_part(s.subrange(a, b))
    &&& is_fraction(s.subrange(b, c))
    &&& is_exponent(s.subrange(c, s.len() as int))
}

/// Tells whether `s` is a number as JSON writes one: an optional minus sign,
/// an integer part, an optional fraction and an optional exponent, with
/// nothing before, between or after.
pub open spec fn is_number_literal(s: Seq<char>) -> bool {
    exists|a: int, b: int, c: int| splits_as_number(s, a, b, c)
}

/// The index just past the run of digits that starts at `i`; `i` itself where
/// no digit stands there.
spec fn digits_end(s: Seq<char>, i: int) -> int
    decreases s.len() - i,
{
    if 0 <= i < s.len() && is_digit(s[i]) {
        digits_end(s, i + 1)
    } else {
        i
    }
}

spec fn after_sign(s: Seq<char>) -> int {
    if s.len() > 0 && s[0] == '-' {
        1
    } else {
        0
    }
}

spec fn after_integer(s: Seq<char>, i: int) -> Option<int> {
    let j = digits_end(s, i);
    if j == i {
        None
    } else if s[i] == '0' && j != i + 1 {
        None
    } else {
        Some(j)
    }
}

spec fn after_fraction(s: Seq<char>, i: int) -> Option<int> {
    if 0 <= i < s.len() && s[i] == '.' {
        let j = digits_end(s, i + 1);
        if j == i + 1 {
            None
        } else {
            Some(j)
        }
    } else {
        Some(i)
    }
}

spec fn exponent_digits(s: Seq<char>, i: int) -> int {
    if i + 1 < s.len() && (s[i + 1] == '+' || s[i + 1] == '-') {
        i + 2
    } else {
        i + 1
    }
}

spec fn after_exponent(s: Seq<char>, i: int) -> Option<int> {
    if 0 <= i < s.len() && (s[i] == 'e' || s[i] == 'E') {
        let k = exponent_digits(s, i);
        let j = digits_end(s, k);
        if j == k {
            None
        } else {
            Some(j)
        }
    } else {
        Some(i)
    }
}

/// What reading `s` from left to right finds: whether it is a number.
spec fn scans_as_number(s: Seq<char>) -> bool {
    match after_integer(s, after_sign(s)) {
        None => false,
        Some(b) => match after_fraction(s, b) {
            None => false,
            Some(c) => after_exponent(s, c) == Some(s.len() as int),
        },
    }
}

proof fn lemma_digits_run(s: Seq<char>, i: int)
    requires
        0 <= i <= s.len(),
    ensures
        i <= digits_end(s, i) <= s.len(),
        forall|k: int| i <= k < digits_end(s, i) ==> is_digit(#[trigger] s[k]),
        digits_end(s, i) < s.len() ==> !is_digit(s[digits_end(s, i)]),
    decreases s.len() - i,
{
    if i < s.len() && is_digit(s[i]) {
        lemma_digits_run(s, i + 1);
    }
}

proof fn lemma_digits_end_is(s: Seq<char>, i: int, j: int)
    requires
        0 <= i <= j <= s.len(),
        forall|k: int| i <= k < j ==> is_digit(#[trigger] s[k]),
        j < s.len() ==> !is_digit(s[j]),
    ensures
        digits_end(s, i) == j,
    decreases j - i,
{
    if i < j {
        lemma_digits_end_is(s, i + 1, j);
    }
}

proof fn lemma_scan_finds_split(s: Seq<char>)
    requires
        scans_as_number(s),
    ensures
        is_number_literal(s),
{
    let a = after_sign(s);
    lemma_digits_run(s, a);
    let b = digits_end(s, a);
    let c = after_fraction(s, b).unwrap();
    if c != b {
        lemma_digits_run(s, b + 1);
    }
    let n = s.len() as int;
    if c < n {
        lemma_digits_run(s, exponent_digits(s, c));
    }
    assert(is_sign(s.subrange(0, a)));
    assert(is_integer_part(s.subrange(a, b)));
    assert(is_fraction(s.subrange(b, c))) by {
        if c != b {
            let f = s.subrange(b, c);
            assert(f.subrange(1, f.len() as int) =~= s.subrange(b + 1, c));
        }
    }
    assert(is_exponent(s.subrange(c, n))) by {
        if c < n {
            let e = s.subrange(c, n);
            let k = exponent_digits(s, c);
            assert(e.subrange(k - c, e.len() as int) =~= s.subrange(k, n));
        }
    }
    assert(splits_as_number(s, a, b, c));
}

proof fn lemma_split_is_scanned(s: Seq<char>, a: int, b: int, c: int)
    requires
        splits_as_number(s, a, b, c),
    ensures
        scans_as_number(s),
{
    let n = s.len() as int;
    let sign = s.subrange(0, a);
    let whole = s.subrange(a, b);
    let frac = s.subrange(b, c);
    let exp = s.subrange(c, n);
    assert(is_digit(whole[0]));
    assert(s[a] == whole[0]);
    if a == 1 {
        assert(sign[0] == s[0]);
    }
    assert(after_sign(s) == a);
    assert forall|k: int| a <= k < b implies is_digit(#[trigger] s[k]) by {
        assert(s[k] == whole[k - a]);
    }
    if b < n {
        if b < c {
            assert(frac[0] == s[b]);
        } else {
            assert(exp[0] == s[b]);
        }
        assert(!is_digit(s[b]));
    }
    lemma_digits_end_is(s, a, b);
    if b < c {
        assert(frac[0] == s[b]);
        let digits = frac.subrange(1, frac.len() as int);
        assert forall|k: int| b + 1 <= k < c implies is_digit(#[trigger] s[k]) by {
            assert(s[k] == digits[k - b - 1]);
        }
        if c < n {
            assert(exp[0] == s[c]);
        }
        lemma_digits_end_is(s, b + 1, c);
    } else if b < n {
        assert(exp[0] == s[b]);
    }
    assert(after_fraction(s, b) == Some(c));
    if c < n {
        assert(exp[0] == s[c]);
        let k = exponent_digits(s, c);
        if is_digits(exp.subrange(1, exp.len() as int)) {
            let digits = exp.subrange(1, exp.len() as int);
            assert(is_digit(digits[0]));
            assert(digits[0] == s[c + 1]);
            assert(k == c + 1);
            assert forall|m: int| k <= m < n implies is_digit(#[trigger] s[m]) by {
                assert(s[m] == digits[m - c - 1]);
            }
        } else {
            let digits = exp.subrange(2, exp.len() as int);
            assert(exp[1] == s[c + 1]);
            assert(k == c + 2);
            assert forall|m: int| k <= m < n implies is_digit(#[trigger] s[m]) by {
                assert(s[m] == digits[m - c - 2]);
            }
        }
        lemma_digits_end_is(s, k, n);
    }
}

/// Reading a text from left to right finds a number exactly where the text
/// splits into the parts of one.
proof fn lemma_scan_is_exact(s: Seq<char>)
    ensures
        scans_as_number(s) == is_number_literal(s),
{
    if scans_as_number(s) {
        lemma_scan_finds_split(s);
    }
    if is_number_literal(s) {
        let (a, b, c) = choose|a: int, b: int, c: int| splits_as_number(s, a, b, c);
        lemma_split_is_scanned(s, a, b, c);
    }
}

fn scan_digits(cs: &Vec<char>, start: usize) -> (end: usize)
    requires
        start <= cs.len(),
    ensures
        end == digits_end(cs@, start as int),
        start <= end <= cs.len(),
{
    let mut i: usize = start;
    while i < cs.len() && '0' <= cs[i] && cs[i] <= '9'
        invariant
            start <= i <= cs.len(),
            digits_end(cs@, start as int) == digits_end(cs@, i as int),
        decreases cs.len() - i,
    {
        i = i + 1;
    }
    i
}

/// Checks a text against the grammar of number literals.
pub fn is_number(text: &str) -> (r: bool)
    ensures
        r == is_number_literal(text@),
{
    let cs = chars_of(text);
    proof {
        lemma_scan_is_exact(text@);
    }
    let n: usize = cs.len();
    let a: usize = if n > 0 && cs[0] == '-' {
        1
    } else {
        0
    };
    let b: usize = scan_digits(&cs, a);
    if b == a {
        return false;
    }
    if cs[a] == '0' && b != a + 1 {
        return false;
    }
    let mut c: usize = b;
    if b < n && cs[b] == '.' {
        c = scan_digits(&cs, b + 1);
        if c == b + 1 {
            return false;
        }
    }
    let mut d: usize = c;
    if c < n && (cs[c] == 'e' || cs[c] == 'E') {
        let k: usize = if c + 1 < n && (cs[c + 1] == '+' || cs[c + 1] == '-') {
            c + 2
        } else {
            c + 1
        };
        d = scan_digits(&cs, k);
        if d == k {
            return false;
        }
    }
    d == n
}

/// A playback position in seconds, held as a number literal.
#[derive(Debug, PartialEq, Eq)]
pub struct Seconds {
    literal: String,
}

impl View for Seconds {
    type V = Seq<char>;

    closed spec fn view(&self) -> Seq<char> {
        self.literal@
    }
}

impl Seconds {
    #[verifier::type_invariant]
    spec fn well_formed(self) -> bool {
        is_number_literal(self.literal@)
    }

    /// Takes a text as a position if it is a number literal, and refuses it
    /// otherwise.
    pub fn parse(text: &str) -> (r: Option<Seconds>)
        ensures
            r.is_some() == is_number_literal(text@),
            r.is_some() ==> r.unwrap()@ == text@,
    {
        if is_number(text) {
            Some(Seconds { literal: text.to_owned() })
        } else {
            None
        }
    }

    /// The literal, which is always a number as JSON writes one.
    pub fn as_str(&self) -> (r: &str)
        ensures
            r@ == self@,
            is_number_literal(r@),
    {
        proof {
            use_type_invariant(self);
        }
        self.literal.as_str()
    }
}

impl Clone for Seconds {
    fn clone(&self) -> (r: Self)
        ensures
            r == *self,
    {
        proof {
            use_type_invariant(self);
        }
        Seconds { literal: self.literal.clone() }
    }
}

} // verus!
