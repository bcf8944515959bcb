//! The formatter: from the headers and values of one record to the text of a snapshot.

use vstd::prelude::*;
use crate::config::{Output, Style};
use crate::normalize::{normalize_string, normalized};
use crate::numeric::{is_decimal_number, is_numeric};

verus! {

/// The texts of a row of strings.
pub open spec fn texts(row: Seq<String>) -> Seq<Seq<char>> {
    Seq::new(row.len(), |i: int| row[i]@)
}

/// The number of columns of a record: headers and values are paired by position, and
/// what is left of the longer of the two is ignored.
pub open spec fn columns(headers: Seq<Seq<char>>, values: Seq<Seq<char>>) -> nat {
    if headers.len() <= values.len() {
        headers.len()
    } else {
        values.len()
    }
}

/// The block written for a column that is left out.
pub open spec fn skip_comment(header: Seq<char>, value: Seq<char>) -> Seq<char> {
    "# skipped: '"@ + header + "' '"@ + value + "'\n\n"@
}

/// The block written for a column that is emitted: a comment with the header, then the
/// sample.
pub open spec fn sample_block(prefix: Seq<char>, header: Seq<char>, value: Seq<char>) -> Seq<
    char,
> {
    "# "@ + header + "\n"@ + prefix + normalized(header) + "  "@ + value + "\n\n"@
}

/// The header of column `i` stands in an earlier column too.
pub open spec fn is_repeated(headers: Seq<Seq<char>>, i: int) -> bool {
    exists|j: int| 0 <= j < i && #[trigger] headers[j] == headers[i]
}

/// Column `i` is left out: its header is a repetition that is to be skipped, or its
/// value is no number where only numbers are wanted.
pub open spec fn is_skipped(
    headers: Seq<Seq<char>>,
    values: Seq<Seq<char>>,
    style: Style,
    i: int,
) -> bool {
    ||| style.skip_duplicate_headers && is_repeated(headers, i)
    ||| style.numeric_values_only && !is_decimal_number(values[i])
}

/// The block of column `i`.
pub open spec fn metric_block(
    headers: Seq<Seq<char>>,
    values: Seq<Seq<char>>,
    style: Style,
    i: int,
) -> Seq<char> {
    if is_skipped(headers, values, style, i) {
        skip_comment(headers[i], values[i])
    } else {
        sample_block(style.prefix, headers[i], values[i])
    }
}

/// The blocks of the first `n` columns, one after the other.
pub open spec fn blocks(
    headers: Seq<Seq<char>>,
    values: Seq<Seq<char>>,
    style: Style,
    n: nat,
) -> Seq<char>
    decreases n,
{
    if n == 0 {
        Seq::empty()
    } else {
        blocks(headers, values, style, (n - 1) as nat) + metric_block(
            headers,
            values,
            style,
            n - 1,
        )
    }
}

/// The snapshot of a record: the blocks of all its columns, in column order.
pub open spec fn snapshot(headers: Seq<Seq<char>>, values: Seq<Seq<char>>, style: Style) -> Seq<
    char,
> {
    blocks(headers, values, style, columns(headers, values))
}

/// Whether the header at `i` also stands at an earlier index.
fn seen_before(headers: &Vec<String>, i: usize) -> (r: bool)
    requires
        i < headers.len(),
    ensures
        r == is_repeated(texts(headers@), i as int),
{
    let mut j: usize = 0;
    while j < i
        invariant
            j <= i < headers.len(),
            forall|k: int| 0 <= k < j ==> #[trigger] texts(headers@)[k] != texts(headers@)[i as int],
        decreases i - j,
    {
        if headers[j] == headers[i] {
            assert(texts(headers@)[j as int] == texts(headers@)[i as int]);
            return true;
        }
        j = j + 1;
    }
    false
}

/// Appends the block for a column that is left out.
fn push_skip_comment(out: &mut String, header: &str, value: &str)
    ensures
        final(out)@ == old(out)@ + skip_comment(header@, value@),
{
    out.append("# skipped: '");
    out.append(header);
    out.append("' '");
    out.append(value);
    out.append("'\n\n");
}

/// Appends the block for a column that is emitted.
fn push_sample_block(out: &mut String, prefix: &str, header: &str, value: &str)
    ensures
        final(out)@ == old(out)@ + sample_block(prefix@, header@, value@),
{
    let name = normalize_string(header);
    out.append("# ");
    out.append(header);
    out.append("\n");
    out.append(prefix);
    out.append(name.as_str());
    out.append("  ");
    out.append(value);
    out.append("\n\n");
}

/// Renders one record as metrics text.
///
/// Headers and values are paired by position. Each pair gives one block, in column
/// order: a comment and a sample, or a comment that says the column was skipped.
pub fn format_record(headers: &Vec<String>, values: &Vec<String>, output: &Output) -> (out: String)
    ensures
        out@ == snapshot(texts(headers@), texts(values@), output.style()),
{
    let n = if headers.len() <= values.len() {
        headers.len()
    } else {
        values.len()
    };
    let mut out = String::new();
    let mut i: usize = 0;
    while i < n
        invariant
            i <= n,
            n == columns(texts(headers@), texts(values@)),
            n <= headers.len(),
            n <= values.len(),
            out@ == blocks(texts(headers@), texts(values@), output.style(), i as nat),
        decreases n - i,
    {
        let header = headers[i].as_str();
        let value = values[i].as_str();
        let repeated = output.skip_duplicate_headers && seen_before(headers, i);
        if repeated || (output.numeric_values_only && !is_numeric(value)) {
            push_skip_comment(&mut out, header, value);
        } else {
            push_sample_block(&mut out, output.prefix.as_str(), header, value);
        }
        i = i + 1;
    }
    out
}

/// A record without columns has the empty snapshot.
pub proof fn lemma_empty_record(headers: Seq<Seq<char>>, values: Seq<Seq<char>>, style: Style)
    requires
        headers.len() == 0 || values.len() == 0,
    ensures
        snapshot(headers, values, style) == Seq::<char>::empty(),
{
}

/// The blocks of the first `m` columns are the beginning of the blocks of any `n >= m`.
pub proof fn lemma_blocks_extend(
    headers: Seq<Seq<char>>,
    values: Seq<Seq<char>>,
    style: Style,
    m: nat,
    n: nat,
)
    requires
        m <= n,
    ensures
        blocks(headers, values, style, m).len() <= blocks(headers, values, style, n).len(),
        blocks(headers, values, style, n).take(blocks(headers, values, style, m).len() as int)
            == blocks(headers, values, style, m),
    decreases n,
{
    if m < n {
        lemma_blocks_extend(headers, values, style, m, (n - 1) as nat);
        let shorter = blocks(headers, values, style, (n - 1) as nat);
        let longer = blocks(headers, values, style, n);
        let k = blocks(headers, values, style, m).len() as int;
        assert(longer.take(k) == shorter.take(k));
    } else {
        let all = blocks(headers, values, style, n);
        assert(all.take(all.len() as int) == all);
    }
}

/// Column order is kept: in the snapshot the block of column `i` stands right after the
/// blocks of the columns before it, and the blocks of the later columns follow it.
pub proof fn lemma_blocks_in_column_order(
    headers: Seq<Seq<char>>,
    values: Seq<Seq<char>>,
    style: Style,
    i: int,
)
    requires
        0 <= i < columns(headers, values),
    ensures
        ({
            let from = blocks(headers, values, style, i as nat).len() as int;
            let to = blocks(headers, values, style, (i + 1) as nat).len() as int;
            let whole = snapshot(headers, values, style);
            &&& to == from + metric_block(headers, values, style, i).len()
            &&& to <= whole.len()
            &&& whole.subrange(from, to) == metric_block(headers, values, style, i)
            &&& whole.take(from) == blocks(headers, values, style, i as nat)
        }),
{
    let n = columns(headers, values);
    let before = blocks(headers, values, style, i as nat);
    let with = blocks(headers, values, style, (i + 1) as nat);
    let whole = snapshot(headers, values, style);
    lemma_blocks_extend(headers, values, style, (i + 1) as nat, n);
    lemma_blocks_extend(headers, values, style, i as nat, n);
    assert(with == before + metric_block(headers, values, style, i));
    assert(whole.subrange(before.len() as int, with.len() as int) == whole.take(
        with.len() as int,
    ).subrange(before.len() as int, with.len() as int));
    assert(with.subrange(before.len() as int, with.len() as int) == metric_block(
        headers,
        values,
        style,
        i,
    ));
}

/// Headers and values are paired by position: what either row holds beyond the last
/// pair has no part in the snapshot.
pub proof fn lemma_surplus_ignored(headers: Seq<Seq<char>>, values: Seq<Seq<char>>, style: Style)
    ensures
        ({
            let n = columns(headers, values) as int;
            snapshot(headers, values, style) == snapshot(headers.take(n), values.take(n), style)
        }),
{
    let n = columns(headers, values);
    lemma_blocks_of_pairs(headers, values, style, n, n);
}

proof fn lemma_blocks_of_pairs(
    headers: Seq<Seq<char>>,
    values: Seq<Seq<char>>,
    style: Style,
    n: nat,
    k: nat,
)
    requires
        k <= n <= columns(headers, values),
    ensures
        blocks(headers, values, style, k) == blocks(
            headers.take(n as int),
            values.take(n as int),
            style,
            k,
        ),
    decreases k,
{
    if k > 0 {
        lemma_blocks_of_pairs(headers, values, style, n, (k - 1) as nat);
        let short = headers.take(n as int);
        let i = k - 1;
        if is_repeated(headers, i) {
            let j = choose|j: int| 0 <= j < i && #[trigger] headers[j] == headers[i];
            assert(short[j] == short[i]);
        }
        if is_repeated(short, i) {
            let j = choose|j: int| 0 <= j < i && #[trigger] short[j] == short[i];
            assert(headers[j] == headers[i]);
        }
    }
}

/// Rendering a record twice under the same style gives the same text, byte for byte:
/// any two texts that are snapshots of one record are equal, and so are their UTF-8
/// encodings.
pub proof fn lemma_rendering_repeats(
    headers: Seq<Seq<char>>,
    values: Seq<Seq<char>>,
    style: Style,
    first: Seq<char>,
    second: Seq<char>,
)
    requires
        first == snapshot(headers, values, style),
        second == snapshot(headers, values, style),
    ensures
        first == second,
        vstd::utf8::encode_utf8(first) == vstd::utf8::encode_utf8(second),
{
}

/// A comment that a column was skipped is not the sample of that column, unless the
/// value ends in a quote.
pub proof fn lemma_skip_comment_is_no_sample(prefix: Seq<char>, header: Seq<char>, value: Seq<char>)
    requires
        value.len() > 0,
        value.last() != '\'',
    ensures
        skip_comment(header, value) != sample_block(prefix, header, value),
{
    reveal_strlit("'\n\n");
    reveal_strlit("\n\n");
    let skip = skip_comment(header, value);
    let sample = sample_block(prefix, header, value);
    assert(skip[skip.len() - 3] == '\'');
    assert(sample[sample.len() - 3] == value.last());
}

/// Where only numbers are wanted, a value that is none gives a skip comment in place
/// of a sample, and a value that is one gives its sample unless the column is skipped
/// as a repetition.
pub proof fn lemma_numeric_values_only(
    headers: Seq<Seq<char>>,
    values: Seq<Seq<char>>,
    style: Style,
    i: int,
)
    requires
        style.numeric_values_only,
        0 <= i < columns(headers, values),
    ensures
        !is_decimal_number(values[i]) ==> metric_block(headers, values, style, i) == skip_comment(
            headers[i],
            values[i],
        ),
        is_decimal_number(values[i]) && !(style.skip_duplicate_headers && is_repeated(headers, i))
            ==> metric_block(headers, values, style, i) == sample_block(
            style.prefix,
            headers[i],
            values[i],
        ),
{
}

/// Where only numbers are wanted, the value `abc` always gives the skip comment and
/// never the sample of its column; the value `3.14` gives the sample and not the skip
/// comment, unless its column is skipped as a repetition.
pub proof fn lemma_word_skipped_number_sampled(
    headers: Seq<Seq<char>>,
    values: Seq<Seq<char>>,
    style: Style,
    i: int,
)
    requires
        style.numeric_values_only,
        0 <= i < columns(headers, values),
    ensures
        values[i] == "abc"@ ==> {
            &&& metric_block(headers, values, style, i) == skip_comment(headers[i], values[i])
            &&& metric_block(headers, values, style, i) != sample_block(
                style.prefix,
                headers[i],
                values[i],
            )
        },
        values[i] == "3.14"@ && !(style.skip_duplicate_headers && is_repeated(headers, i)) ==> {
            &&& metric_block(headers, values, style, i) == sample_block(
                style.prefix,
                headers[i],
                values[i],
            )
            &&& metric_block(headers, values, style, i) != skip_comment(headers[i], values[i])
        },
{
    lemma_numeric_examples();
    if values[i] == "abc"@ || values[i] == "3.14"@ {
        lemma_skip_comment_is_no_sample(style.prefix, headers[i], values[i]);
    }
}

/// `abc` is no number and `3.14` is one.
pub proof fn lemma_numeric_examples()
    ensures
        !is_decimal_number("abc"@),
        is_decimal_number("3.14"@),
        "abc"@.len() == 3 && "abc"@.last() != '\'',
        "3.14"@.len() == 4 && "3.14"@.last() != '\'',
{
    reveal_strlit("abc");
    reveal_strlit("3.14");
    let word = "abc"@;
    assert(!crate::text::is_digit(word[0]));
    let number = "3.14"@;
    assert(number[1] == '.');
    assert(number.take(1) =~= seq!['3']);
    assert(number.skip(2) =~= seq!['1', '4']);
}

/// Where repeated headers are skipped, every column whose header stands in an earlier
/// column gives a skip comment: of the columns of one name only the first can give a
/// sample.
pub proof fn lemma_repeated_header_skipped(
    headers: Seq<Seq<char>>,
    values: Seq<Seq<char>>,
    style: Style,
    i: int,
    j: int,
)
    requires
        style.skip_duplicate_headers,
        0 <= i < j < columns(headers, values),
        headers[i] == headers[j],
    ensures
        is_skipped(headers, values, style, j),
        metric_block(headers, values, style, j) == skip_comment(headers[j], values[j]),
{
}

/// The first column of a name gives its sample, unless its value is no number where
/// only numbers are wanted.
pub proof fn lemma_first_occurrence_sampled(
    headers: Seq<Seq<char>>,
    values: Seq<Seq<char>>,
    style: Style,
    i: int,
)
    requires
        0 <= i < columns(headers, values),
        !is_repeated(headers, i),
        style.numeric_values_only ==> is_decimal_number(values[i]),
    ensures
        !is_skipped(headers, values, style, i),
        metric_block(headers, values, style, i) == sample_block(
            style.prefix,
            headers[i],
            values[i],
        ),
{
}

} // verus!
