//! The grammar of decimal numbers by which values are admitted as samples.
//!
//! ```text
//! number   ::= sign? mantissa exponent?
//! mantissa ::= digit+ | digit+ '.' digit* | digit* '.' digit+
//! exponent ::= ('e' | 'E') sign? digit+
//! sign     ::= '+' | '-'
//! ```
//!
//! Every word of this grammar denotes a finite number; the spellings of infinity and of
//! not-a-number are no words of it.

use vstd::prelude::*;
use crate::text::{chars_of, is_decimal_digit, is_digit};

verus! {

pub open spec fn is_sign(c: char) -> bool {
    c == '+' || c == '-'
}

pub open spec fn is_exponent_mark(c: char) -> bool {
    c == 'e' || c == 'E'
}

/// Every character of `s` is a decimal digit.
pub open spec fn all_digits(s: Seq<char>) -> bool {
    forall|i: int| 0 <= i < s.len() ==> is_digit(#[trigger] s[i])
}

/// `s` without its leading sign, if it has one.
pub open spec fn unsigned(s: Seq<char>) -> Seq<char> {
    if s.len() > 0 && is_sign(s[0]) {
        s.skip(1)
    } else {
        s
    }
}

/// `digit+ | digit+ '.' digit* | digit* '.' digit+`
pub open spec fn is_mantissa(s: Seq<char>) -> bool {
    ||| s.len() >= 1 && all_digits(s)
    ||| s.len() >= 2 && exists|k: int|
        0 <= k < s.len() && #[trigger] s[k] == '.' && all_digits(s.take(k)) && all_digits(
            s.skip(k + 1),
        )
}

/// `sign? digit+`, what follows the exponent mark.
pub open spec fn is_exponent(s: Seq<char>) -> bool {
    unsigned(s).len() >= 1 && all_digits(unsigned(s))
}

/// `mantissa exponent?`
pub open spec fn is_unsigned_number(s: Seq<char>) -> bool {
    ||| is_mantissa(s)
    ||| exists|k: int|
        0 <= k < s.len() && is_exponent_mark(#[trigger] s[k]) && is_mantissa(s.take(k))
            && is_exponent(s.skip(k + 1))
}

/// `s` is a word of the grammar of decimal numbers.
pub open spec fn is_decimal_number(s: Seq<char>) -> bool {
    is_unsigned_number(unsigned(s))
}

/// A mantissa holds digits and at most a point, so in particular no exponent mark.
pub proof fn lemma_mantissa_alphabet(s: Seq<char>, i: int)
    requires
        is_mantissa(s),
        0 <= i < s.len(),
    ensures
        is_digit(s[i]) || s[i] == '.',
{
    if !(s.len() >= 1 && all_digits(s)) {
        let k = choose|k: int|
            0 <= k < s.len() && #[trigger] s[k] == '.' && all_digits(s.take(k)) && all_digits(
                s.skip(k + 1),
            );
        if i < k {
            assert(s.take(k)[i] == s[i]);
        } else if i > k {
            assert(s.skip(k + 1)[i - k - 1] == s[i]);
        }
    }
}

/// The first index at or after `from`, and not beyond `to`, whose character is no digit.
fn scan_digits(v: &Vec<char>, from: usize, to: usize) -> (end: usize)
    requires
        from <= to <= v.len(),
    ensures
        from <= end <= to,
        all_digits(v@.subrange(from as int, end as int)),
        end < to ==> !is_digit(v@[end as int]),
{
    let mut i = from;
    while i < to && is_decimal_digit(v[i])
        invariant
            from <= i <= to <= v.len(),
            all_digits(v@.subrange(from as int, i as int)),
        decreases to - i,
    {
        i = i + 1;
        assert forall|j: int| 0 <= j < i - from implies is_digit(
            #[trigger] v@.subrange(from as int, i as int)[j],
        ) by {
            if j < i - from - 1 {
                assert(v@.subrange(from as int, i as int - 1)[j] == v@[from + j]);
            }
        }
    }
    i
}

/// Whether the characters of `v` from `lo` up to `hi` form a mantissa.
fn is_mantissa_between(v: &Vec<char>, lo: usize, hi: usize) -> (r: bool)
    requires
        lo <= hi <= v.len(),
    ensures
        r == is_mantissa(v@.subrange(lo as int, hi as int)),
{
    let ghost s = v@.subrange(lo as int, hi as int);
    let whole = scan_digits(v, lo, hi);
    if whole == hi {
        proof {
            if hi - lo >= 2 {
                assert forall|k: int| 0 <= k < s.len() implies #[trigger] s[k] != '.' by {}
            }
        }
        return hi > lo;
    }
    proof {
        assert(s[whole - lo] == v@[whole as int]);
        assert(!all_digits(s));
        assert forall|k: int|
            0 <= k < s.len() && #[trigger] s[k] == '.' && all_digits(s.take(k)) implies k == whole
            - lo by {
            if k < whole - lo {
                assert(v@.subrange(lo as int, whole as int)[k] == s[k]);
            } else if k > whole - lo {
                assert(s.take(k)[whole - lo] == s[whole - lo]);
            }
        }
        assert(s.take(whole - lo) == v@.subrange(lo as int, whole as int));
        assert(s.skip(whole - lo + 1) == v@.subrange(whole + 1, hi as int));
    }
    if v[whole] != '.' {
        return false;
    }
    let fraction = scan_digits(v, whole + 1, hi);
    proof {
        if fraction < hi {
            let t = v@.subrange(whole + 1, hi as int);
            assert(t[fraction - whole - 1] == v@[fraction as int]);
        }
    }
    fraction == hi && hi - lo >= 2
}

/// Whether the characters of `v` from `lo` up to its end form the tail of an exponent.
fn is_exponent_from(v: &Vec<char>, lo: usize) -> (r: bool)
    requires
        lo <= v.len(),
    ensures
        r == is_exponent(v@.skip(lo as int)),
{
    let ghost s = v@.skip(lo as int);
    let n = v.len();
    let start = if lo < n && (v[lo] == '+' || v[lo] == '-') {
        lo + 1
    } else {
        lo
    };
    proof {
        if lo < n {
            assert(s[0] == v@[lo as int]);
        }
        assert(unsigned(s) == v@.subrange(start as int, n as int));
    }
    let end = scan_digits(v, start, n);
    proof {
        if end < n {
            assert(v@.subrange(start as int, n as int)[end - start] == v@[end as int]);
        }
    }
    end == n && n > start
}

/// The index of the first exponent mark of `v` at or after `from`, or the length of
/// `v` where there is none.
fn find_exponent_mark(v: &Vec<char>, from: usize) -> (at: usize)
    requires
        from <= v.len(),
    ensures
        from <= at <= v.len(),
        forall|i: int| from <= i < at ==> !is_exponent_mark(#[trigger] v@[i]),
        at < v.len() ==> is_exponent_mark(v@[at as int]),
{
    let mut i = from;
    while i < v.len() && !(v[i] == 'e' || v[i] == 'E')
        invariant
            from <= i <= v.len(),
            forall|j: int| from <= j < i ==> !is_exponent_mark(#[trigger] v@[j]),
        decreases v.len() - i,
    {
        i = i + 1;
    }
    i
}

/// Whether `value` is written as a finite decimal number.
pub fn is_numeric(value: &str) -> (r: bool)
    ensures
        r == is_decimal_number(value@),
{
    let v = chars_of(value);
    let n = v.len();
    let start: usize = if n > 0 && (v[0] == '+' || v[0] == '-') {
        1
    } else {
        0
    };
    let ghost s = unsigned(v@);
    assert(s == v@.skip(start as int));
    let mark = find_exponent_mark(&v, start);
    let mantissa = is_mantissa_between(&v, start, mark);
    proof {
        assert(v@.subrange(start as int, mark as int) == s.take(mark - start));
        assert forall|k: int|
            0 <= k < s.len() && is_exponent_mark(#[trigger] s[k]) && is_mantissa(
                s.take(k),
            ) implies k == mark - start by {
            if k < mark - start {
                assert(s[k] == v@[start + k]);
            } else if k > mark - start {
                assert(s.take(k)[mark - start] == v@[mark as int]);
                lemma_mantissa_alphabet(s.take(k), mark - start);
            }
        }
    }
    if mark == n {
        proof {
            assert(s.take(s.len() as int) == s);
        }
        return mantissa;
    }
    proof {
        assert(s[mark - start] == v@[mark as int]);
        if is_mantissa(s) {
            lemma_mantissa_alphabet(s, mark - start);
        }
        assert(s.skip(mark - start + 1) == v@.skip(mark + 1));
    }
    let exponent = is_exponent_from(&v, mark + 1);
    mantissa && exponent
}

} // verus!
