//! Metric names: the transform from a column header to the name of its sample.

use vstd::prelude::*;
use crate::text::{
    alphanumeric, ascii_lower, is_ascii_char, is_digit, is_letter_or_digit, is_word,
    lemma_ascii_lower, lowered, push_lowered,
};

verus! {

broadcast use vstd::string::group_string_axioms;

/// Some character of `s` is a letter or a digit.
pub open spec fn has_alphanumeric(s: Seq<char>) -> bool {
    exists|j: int| 0 <= j < s.len() && alphanumeric(#[trigger] s[j])
}

/// The metric name made from `s`: the lower-case forms of its letters and digits in
/// order, each run of other characters between two of them replaced by one `_`, and
/// the runs before the first and after the last dropped.
pub open spec fn normalized(s: Seq<char>) -> Seq<char>
    decreases s.len(),
{
    if s.len() == 0 {
        Seq::empty()
    } else {
        let rest = s.drop_last();
        let c = s.last();
        if !alphanumeric(c) {
            normalized(rest)
        } else if has_alphanumeric(rest) && !alphanumeric(rest.last()) {
            normalized(rest).push('_') + lowered(c)
        } else {
            normalized(rest) + lowered(c)
        }
    }
}

/// Every character of `s` is in ASCII.
pub open spec fn is_ascii_text(s: Seq<char>) -> bool {
    forall|j: int| 0 <= j < s.len() ==> is_ascii_char(#[trigger] s[j])
}

/// The lower-case form of every letter and digit of `s` is a word. Within ASCII this
/// always holds; beyond it the mapping is the standard library's, of which nothing is
/// claimed here, so the laws that need it ask for it.
pub open spec fn well_lowered(s: Seq<char>) -> bool {
    forall|j: int| 0 <= j < s.len() && alphanumeric(#[trigger] s[j]) ==> is_word(lowered(s[j]))
}

/// `ch` stands in the lower-case form of a letter or digit of `s`.
pub open spec fn comes_from(ch: char, s: Seq<char>) -> bool {
    exists|j: int|
        0 <= j < s.len() && alphanumeric(#[trigger] s[j]) && lowered(s[j]).contains(ch)
}

/// A text has a letter or digit exactly if its last character is one or the text
/// before it has one.
proof fn lemma_has_alphanumeric_step(s: Seq<char>)
    requires
        s.len() > 0,
    ensures
        has_alphanumeric(s) <==> has_alphanumeric(s.drop_last()) || alphanumeric(s.last()),
{
    let rest = s.drop_last();
    if has_alphanumeric(rest) {
        let j = choose|j: int| 0 <= j < rest.len() && alphanumeric(#[trigger] rest[j]);
        assert(s[j] == rest[j]);
    }
    if alphanumeric(s.last()) {
        assert(alphanumeric(s[s.len() - 1]));
    }
    if has_alphanumeric(s) {
        let j = choose|j: int| 0 <= j < s.len() && alphanumeric(#[trigger] s[j]);
        if j < s.len() - 1 {
            assert(rest[j] == s[j]);
        }
    }
}

/// Normalizes a header into a metric name.
pub fn normalize_string(s: &str) -> (out: String)
    ensures
        out@ == normalized(s@),
{
    let mut out = String::new();
    let mut gap = false;
    let mut started = false;
    for c in it: s.chars()
        invariant
            it.seq() == s@,
            out@ == normalized(s@.take(it.index() as int)),
            started == has_alphanumeric(s@.take(it.index() as int)),
            gap == (it.index() > 0 && !alphanumeric(s@[it.index() - 1])),
    {
        proof {
            let t = s@.take(it.index() + 1);
            assert(t.drop_last() == s@.take(it.index() as int));
            assert(t.last() == c);
            if it.index() > 0 {
                assert(t.drop_last().last() == s@[it.index() - 1]);
            }
            lemma_has_alphanumeric_step(t);
        }
        if is_letter_or_digit(c) {
            if gap && started {
                out.push('_');
            }
            push_lowered(&mut out, c);
            gap = false;
            started = true;
        } else {
            gap = true;
        }
    }
    assert(s@.take(s@.len() as int) == s@);
    out
}

/// A name is made only of `_` and of what the letters and digits of the header are
/// lowered to.
pub proof fn lemma_normalized_alphabet(s: Seq<char>, i: int)
    requires
        0 <= i < normalized(s).len(),
    ensures
        normalized(s)[i] == '_' || comes_from(normalized(s)[i], s),
    decreases s.len(),
{
    let rest = s.drop_last();
    let front = normalized(rest);
    let c = s.last();
    let ch = normalized(s)[i];
    if i < front.len() {
        lemma_normalized_alphabet(rest, i);
        assert(ch == front[i]);
        if ch != '_' {
            let j = choose|j: int|
                0 <= j < rest.len() && alphanumeric(#[trigger] rest[j]) && lowered(
                    rest[j],
                ).contains(ch);
            assert(s[j] == rest[j]);
        }
    } else if ch != '_' {
        let low = lowered(c);
        let k = if has_alphanumeric(rest) && !alphanumeric(rest.last()) {
            i - front.len() - 1
        } else {
            i - front.len()
        };
        assert(0 <= k < low.len() && low[k] == ch);
        assert(alphanumeric(s[s.len() - 1]));
    }
}

/// Where every letter and digit is lowered to a word, a name is empty exactly when the
/// header has no letter or digit; it never starts or ends with `_`, and never holds two
/// of them side by side.
pub proof fn lemma_normalized_separators(s: Seq<char>)
    requires
        well_lowered(s),
    ensures
        normalized(s).len() > 0 <==> has_alphanumeric(s),
        normalized(s).len() > 0 ==> normalized(s).first() != '_' && normalized(s).last() != '_',
        forall|i: int|
            0 <= i < normalized(s).len() - 1 ==> !(#[trigger] normalized(s)[i] == '_' && normalized(
                s,
            )[i + 1] == '_'),
    decreases s.len(),
{
    if s.len() > 0 {
        let rest = s.drop_last();
        let front = normalized(rest);
        let c = s.last();
        let n = normalized(s);
        assert forall|j: int| 0 <= j < rest.len() && alphanumeric(#[trigger] rest[j]) implies is_word(
            lowered(rest[j]),
        ) by {
            assert(s[j] == rest[j]);
        }
        lemma_normalized_separators(rest);
        lemma_has_alphanumeric_step(s);
        if alphanumeric(c) {
            let low = lowered(c);
            assert(alphanumeric(s[s.len() - 1]));
            assert forall|k: int| 0 <= k < low.len() implies low[k] != '_' by {
                if low[k] == '_' {
                    assert(low.contains('_'));
                }
            }
            let shift = n.len() - low.len();
            assert forall|k: int| 0 <= k < low.len() implies n[shift + k] == low[k] by {}
            assert(n.last() == low[low.len() - 1]);
            if front.len() > 0 {
                assert(n.first() == front.first());
            } else {
                assert(n.first() == low[0]);
            }
            assert forall|i: int| 0 <= i < n.len() - 1 implies !(#[trigger] n[i] == '_' && n[i + 1]
                == '_') by {
                if i + 1 < front.len() {
                    assert(n[i] == front[i] && n[i + 1] == front[i + 1]);
                } else if i + 1 >= shift {
                    assert(n[i + 1] == low[i + 1 - shift]);
                } else {
                    assert(n[i] == front.last());
                }
            }
        }
    }
}

/// The letters and digits of an ASCII header are lowered to words.
pub proof fn lemma_ascii_well_lowered(s: Seq<char>)
    requires
        is_ascii_text(s),
    ensures
        well_lowered(s),
{
    assert forall|j: int| 0 <= j < s.len() && alphanumeric(#[trigger] s[j]) implies is_word(
        lowered(s[j]),
    ) by {
        lemma_ascii_lower(s[j]);
    }
}

/// The name of an ASCII header is made of `_`, digits and small letters alone.
pub proof fn lemma_normalized_lowercase(s: Seq<char>, i: int)
    requires
        is_ascii_text(s),
        0 <= i < normalized(s).len(),
    ensures
        normalized(s)[i] == '_' || is_digit(normalized(s)[i]) || 'a' <= normalized(s)[i] <= 'z',
{
    lemma_normalized_alphabet(s, i);
    let ch = normalized(s)[i];
    if ch != '_' {
        let j = choose|j: int|
            0 <= j < s.len() && alphanumeric(#[trigger] s[j]) && lowered(s[j]).contains(ch);
        lemma_ascii_lower(s[j]);
        assert(lowered(s[j]) == seq![ascii_lower(s[j])]);
    }
}

/// The name of an ASCII header is its own name: normalizing again changes nothing.
pub proof fn lemma_normalized_idempotent(s: Seq<char>)
    requires
        is_ascii_text(s),
    ensures
        normalized(normalized(s)) == normalized(s),
    decreases s.len(),
{
    if s.len() > 0 {
        let rest = s.drop_last();
        let c = s.last();
        let front = normalized(rest);
        assert forall|j: int| 0 <= j < rest.len() implies is_ascii_char(#[trigger] rest[j]) by {
            assert(s[j] == rest[j]);
        }
        lemma_normalized_idempotent(rest);
        lemma_ascii_well_lowered(rest);
        lemma_normalized_separators(rest);
        lemma_ascii_lower(c);
        if alphanumeric(c) {
            let low = ascii_lower(c);
            lemma_ascii_lower(low);
            if front.len() > 0 {
                lemma_normalized_lowercase(rest, front.len() - 1);
                assert(alphanumeric(front[front.len() - 1]));
            }
            if has_alphanumeric(rest) && !alphanumeric(rest.last()) {
                let joined = front.push('_');
                let name = joined.push(low);
                assert(normalized(s) == name);
                assert(joined.drop_last() == front);
                assert(joined.last() == '_');
                assert(normalized(joined) == front);
                assert(joined[front.len() - 1] == front[front.len() - 1]);
                assert(has_alphanumeric(joined));
                assert(name.drop_last() == joined);
                assert(name.last() == low);
                assert(front.push('_') + seq![low] == name);
                assert(normalized(name) == name);
            } else {
                let name = front.push(low);
                assert(front + seq![low] == name);
                assert(normalized(s) == name);
                assert(name.drop_last() == front);
                assert(name.last() == low);
                assert(normalized(name) == name);
            }
        }
    }
}

} // verus!
