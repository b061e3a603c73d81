//! Splitting input into lines and whitespace-delimited tokens.
//!
//! A line break is a `'\n'` (a preceding `'\r'` is treated as blank
//! space), and within a line a token is a maximal run of characters
//! that are not blank space.  Empty lines carry no tokens but keep
//! their place, so the line structure of the input survives into the
//! output.

use vstd::prelude::*;

verus! {

/// The characters treated as blank space inside a line.
pub open spec fn is_space(c: char) -> bool {
    c == ' ' || c == '\t' || c == '\r'
}

/// Number of characters before the first `'\n'` (the whole length if
/// there is none).
pub open spec fn line_len(s: Seq<char>) -> nat
    decreases s.len(),
{
    if s.len() == 0 {
        0
    } else if s[0] == '\n' {
        0
    } else {
        1 + line_len(s.skip(1))
    }
}

/// The lines of a character sequence, in order; always at least one
/// line, and the separators themselves are not kept.
pub open spec fn split_lines(s: Seq<char>) -> Seq<Seq<char>>
    decreases s.len(),
{
    if s.len() == 0 {
        seq![Seq::<char>::empty()]
    } else {
        let rest = split_lines(s.skip(1));
        if s[0] == '\n' {
            seq![Seq::<char>::empty()] + rest
        } else {
            seq![seq![s[0]] + rest[0]] + rest.skip(1)
        }
    }
}

/// Length of the leading run of non-space characters.
pub open spec fn run_len(s: Seq<char>) -> nat
    decreases s.len(),
{
    if s.len() == 0 {
        0
    } else if is_space(s[0]) {
        0
    } else {
        1 + run_len(s.skip(1))
    }
}

/// The tokens of one line: its maximal runs of non-space characters,
/// in order.
pub open spec fn tokens_of(s: Seq<char>) -> Seq<Seq<char>>
    decreases s.len(),
{
    if s.len() == 0 {
        Seq::<Seq<char>>::empty()
    } else {
        let rest = tokens_of(s.skip(1));
        if is_space(s[0]) {
            rest
        } else if s.len() > 1 && !is_space(s[1]) {
            seq![seq![s[0]] + rest[0]] + rest.skip(1)
        } else {
            seq![seq![s[0]]] + rest
        }
    }
}

/// How often a character occurs in a sequence.
pub open spec fn count_char(s: Seq<char>, c: char) -> nat
    decreases s.len(),
{
    if s.len() == 0 {
        0
    } else {
        (if s[0] == c {
            1nat
        } else {
            0nat
        }) + count_char(s.skip(1), c)
    }
}

/// `line_len` never exceeds the length, stops exactly at a `'\n'`, and
/// everything before it is not a `'\n'`.
pub proof fn lemma_line_len(s: Seq<char>)
    ensures
        line_len(s) <= s.len(),
        line_len(s) < s.len() ==> s[line_len(s) as int] == '\n',
        forall|i: int| 0 <= i < line_len(s) ==> s[i] != '\n',
    decreases s.len(),
{
    if s.len() == 0 || s[0] == '\n' {
    } else {
        lemma_line_len(s.skip(1));
        assert forall|i: int| 0 <= i < line_len(s) implies s[i] != '\n' by {
            if i > 0 {
                assert(s.skip(1)[i - 1] == s[i]);
            }
        }
        if line_len(s) < s.len() {
            assert(s.skip(1)[line_len(s) as int - 1] == s[line_len(s) as int]);
        }
    }
}

/// A position scanned from the left pins `line_len` down: if nothing
/// before `k` is a `'\n'` and `k` is the end or a `'\n'`, then the first
/// line is exactly `k` characters long.
pub proof fn lemma_line_len_is(s: Seq<char>, k: int)
    requires
        0 <= k <= s.len(),
        forall|i: int| 0 <= i < k ==> s[i] != '\n',
        k < s.len() ==> s[k] == '\n',
    ensures
        line_len(s) == k,
    decreases s.len(),
{
    if k == 0 {
    } else {
        assert(s[0] != '\n');
        assert forall|i: int| 0 <= i < k - 1 implies s.skip(1)[i] != '\n' by {
            assert(s.skip(1)[i] == s[i + 1]);
        }
        if k - 1 < s.skip(1).len() {
            assert(s.skip(1)[k - 1] == s[k]);
        }
        lemma_line_len_is(s.skip(1), k - 1);
    }
}

/// There is always at least one line.
pub proof fn lemma_split_lines_nonempty(s: Seq<char>)
    ensures
        split_lines(s).len() >= 1,
    decreases s.len(),
{
    if s.len() > 0 {
        lemma_split_lines_nonempty(s.skip(1));
    }
}

/// The structural splitter agrees with taking the first line up to its
/// `'\n'` and splitting the remainder.
pub proof fn lemma_split_lines_first(s: Seq<char>)
    ensures
        line_len(s) == s.len() ==> split_lines(s) =~~= seq![s],
        line_len(s) < s.len() ==> split_lines(s) =~~= seq![s.take(line_len(s) as int)]
            + split_lines(s.skip(line_len(s) as int + 1)),
    decreases s.len(),
{
    lemma_line_len(s);
    if s.len() == 0 {
    } else if s[0] == '\n' {
        assert(s.take(0) =~= Seq::<char>::empty());
    } else {
        lemma_split_lines_nonempty(s.skip(1));
        lemma_split_lines_first(s.skip(1));
        let n = line_len(s) as int;
        if line_len(s) == s.len() {
            assert(seq![s[0]] + s.skip(1) =~= s);
        } else {
            assert(seq![s[0]] + s.skip(1).take(n - 1) =~= s.take(n));
            assert(s.skip(1).skip(n) =~= s.skip(n + 1));
        }
    }
}

/// No line produced by the splitter contains a `'\n'`.
pub proof fn lemma_split_lines_no_newline(s: Seq<char>)
    ensures
        forall|j: int|
            0 <= j < split_lines(s).len() ==> !(#[trigger] split_lines(s)[j]).contains('\n'),
    decreases s.len(),
{
    if s.len() == 0 {
        assert(!split_lines(s)[0].contains('\n'));
    } else {
        lemma_split_lines_nonempty(s.skip(1));
        lemma_split_lines_no_newline(s.skip(1));
        let rest = split_lines(s.skip(1));
        if s[0] == '\n' {
            assert(!split_lines(s)[0].contains('\n'));
            assert forall|j: int| 1 <= j < split_lines(s).len() implies !(split_lines(
                s,
            )[j]).contains('\n') by {
                assert(split_lines(s)[j] == rest[j - 1]);
            }
        } else {
            let first = seq![s[0]] + rest[0];
            assert forall|i: int| 0 <= i < first.len() implies first[i] != '\n' by {
                if i > 0 {
                    assert(first[i] == rest[0][i - 1]);
                    assert(!rest[0].contains('\n'));
                }
            }
            assert(!first.contains('\n'));
            assert forall|j: int| 1 <= j < split_lines(s).len() implies !(split_lines(
                s,
            )[j]).contains('\n') by {
                assert(split_lines(s)[j] == rest.skip(1)[j - 1]);
                assert(rest.skip(1)[j - 1] == rest[j]);
            }
        }
    }
}

/// The number of `'\n'` characters is exactly the number of line
/// boundaries: one less than the number of lines.
pub proof fn lemma_count_newlines(s: Seq<char>)
    ensures
        count_char(s, '\n') == split_lines(s).len() - 1,
    decreases s.len(),
{
    if s.len() > 0 {
        lemma_split_lines_nonempty(s.skip(1));
        lemma_count_newlines(s.skip(1));
    }
}

/// A sequence without the character holds it zero times.
pub proof fn lemma_count_char_absent(s: Seq<char>, c: char)
    requires
        !s.contains(c),
    ensures
        count_char(s, c) == 0,
    decreases s.len(),
{
    if s.len() > 0 {
        assert(s[0] != c);
        assert forall|i: int| 0 <= i < s.skip(1).len() implies s.skip(1)[i] != c by {
            assert(s.skip(1)[i] == s[i + 1]);
        }
        assert(!s.skip(1).contains(c));
        lemma_count_char_absent(s.skip(1), c);
    }
}

/// Occurrence counts add up over concatenation.
pub proof fn lemma_count_char_concat(a: Seq<char>, b: Seq<char>, c: char)
    ensures
        count_char(a + b, c) == count_char(a, c) + count_char(b, c),
    decreases a.len(),
{
    if a.len() == 0 {
        assert(a + b =~= b);
    } else {
        assert((a + b)[0] == a[0]);
        assert((a + b).skip(1) =~= a.skip(1) + b);
        lemma_count_char_concat(a.skip(1), b, c);
    }
}

/// `run_len` never exceeds the length, stops exactly at a space, and
/// everything before it is not a space.
pub proof fn lemma_run_len(s: Seq<char>)
    ensures
        run_len(s) <= s.len(),
        run_len(s) < s.len() ==> is_space(s[run_len(s) as int]),
        forall|i: int| 0 <= i < run_len(s) ==> !is_space(#[trigger] s[i]),
    decreases s.len(),
{
    if s.len() == 0 || is_space(s[0]) {
    } else {
        lemma_run_len(s.skip(1));
        assert forall|i: int| 0 <= i < run_len(s) implies !is_space(s[i]) by {
            if i > 0 {
                assert(s.skip(1)[i - 1] == s[i]);
            }
        }
        if run_len(s) < s.len() {
            assert(s.skip(1)[run_len(s) as int - 1] == s[run_len(s) as int]);
        }
    }
}

/// A position scanned from the left pins `run_len` down.
pub proof fn lemma_run_len_is(s: Seq<char>, k: int)
    requires
        0 <= k <= s.len(),
        forall|i: int| 0 <= i < k ==> !is_space(#[trigger] s[i]),
        k < s.len() ==> is_space(s[k]),
    ensures
        run_len(s) == k,
    decreases s.len(),
{
    if k == 0 {
    } else {
        assert(!is_space(s[0]));
        assert forall|i: int| 0 <= i < k - 1 implies !is_space(s.skip(1)[i]) by {
            assert(s.skip(1)[i] == s[i + 1]);
        }
        if k - 1 < s.skip(1).len() {
            assert(s.skip(1)[k - 1] == s[k]);
        }
        lemma_run_len_is(s.skip(1), k - 1);
    }
}

/// Dropping a leading space drops no token.
pub proof fn lemma_tokens_skip_space(s: Seq<char>)
    requires
        s.len() > 0,
        is_space(s[0]),
    ensures
        tokens_of(s) == tokens_of(s.skip(1)),
{
}

/// A line that starts inside a token splits as that token followed by
/// the tokens of what comes after it.
pub proof fn lemma_tokens_first(s: Seq<char>)
    requires
        s.len() > 0,
        !is_space(s[0]),
    ensures
        tokens_of(s) =~~= seq![s.take(run_len(s) as int)] + tokens_of(s.skip(run_len(s) as int)),
    decreases s.len(),
{
    lemma_run_len(s);
    let n = run_len(s) as int;
    if s.len() == 1 || is_space(s[1]) {
        assert(run_len(s) == 1) by {
            if s.len() > 1 {
                assert(run_len(s.skip(1)) == 0);
            }
        }
        assert(s.take(1) =~= seq![s[0]]);
    } else {
        lemma_tokens_first(s.skip(1));
        assert(run_len(s) == 1 + run_len(s.skip(1)));
        assert(seq![s[0]] + s.skip(1).take(n - 1) =~= s.take(n));
        assert(s.skip(1).skip(n - 1) =~= s.skip(n));
    }
}

/// A character absent from the line is absent from each of its tokens.
pub proof fn lemma_tokens_no_char(s: Seq<char>, c: char)
    requires
        !s.contains(c),
    ensures
        forall|j: int| 0 <= j < tokens_of(s).len() ==> !(#[trigger] tokens_of(s)[j]).contains(c),
    decreases s.len(),
{
    if s.len() > 0 {
        assert(s[0] != c);
        assert forall|i: int| 0 <= i < s.skip(1).len() implies s.skip(1)[i] != c by {
            assert(s.skip(1)[i] == s[i + 1]);
        }
        assert(!s.skip(1).contains(c));
        lemma_tokens_no_char(s.skip(1), c);
        let rest = tokens_of(s.skip(1));
        if is_space(s[0]) {
        } else if s.len() > 1 && !is_space(s[1]) {
            assert forall|j: int| 0 <= j < tokens_of(s).len() implies !(tokens_of(
                s,
            )[j]).contains(c) by {
                if j == 0 {
                    let first = seq![s[0]] + rest[0];
                    assert(!rest[0].contains(c));
                    assert forall|i: int| 0 <= i < first.len() implies first[i] != c by {
                        if i > 0 {
                            assert(first[i] == rest[0][i - 1]);
                        }
                    }
                    assert(!first.contains(c));
                } else {
                    assert(tokens_of(s)[j] == rest.skip(1)[j - 1]);
                    assert(rest.skip(1)[j - 1] == rest[j]);
                }
            }
        } else {
            assert forall|j: int| 0 <= j < tokens_of(s).len() implies !(tokens_of(
                s,
            )[j]).contains(c) by {
                if j == 0 {
                    assert(tokens_of(s)[0] == seq![s[0]]);
                    assert(forall|i: int| 0 <= i < 1 ==> seq![s[0]][i] != c);
                } else {
                    assert(tokens_of(s)[j] == rest[j - 1]);
                }
            }
        }
    }
}

/// Whether `c` is blank space inside a line.
pub fn space(c: char) -> (r: bool)
    ensures
        r == is_space(c),
{
    c == ' ' || c == '\t' || c == '\r'
}

/// Index of the first `'\n'` at or after `start` (the length if none).
pub fn line_end(chars: &Vec<char>, start: usize) -> (e: usize)
    requires
        start <= chars.len(),
    ensures
        start <= e <= chars.len(),
        e - start == line_len(chars@.skip(start as int)),
        e < chars.len() ==> chars@[e as int] == '\n',
{
    let mut j: usize = start;
    while j < chars.len() && chars[j] != '\n'
        invariant
            start <= j <= chars.len(),
            forall|k: int| start <= k < j ==> chars@[k] != '\n',
        decreases chars.len() - j,
    {
        j = j + 1;
    }
    proof {
        let s = chars@.skip(start as int);
        assert forall|i: int| 0 <= i < j - start implies s[i] != '\n' by {
            assert(s[i] == chars@[start + i]);
        }
        if j - start < s.len() {
            assert(s[j - start] == chars@[j as int]);
        }
        lemma_line_len_is(s, j as int - start as int);
    }
    j
}

/// Index of the first blank-space character at or after `start` but
/// before `end` (`end` if none); used to find where a token stops.
pub fn token_end(chars: &Vec<char>, start: usize, end: usize) -> (e: usize)
    requires
        start <= end <= chars.len(),
    ensures
        start <= e <= end,
        e - start == run_len(chars@.subrange(start as int, end as int)),
        e < end ==> is_space(chars@[e as int]),
{
    let mut j: usize = start;
    while j < end && !space(chars[j])
        invariant
            start <= j <= end <= chars.len(),
            forall|k: int| start <= k < j ==> !is_space(#[trigger] chars@[k]),
        decreases end - j,
    {
        j = j + 1;
    }
    proof {
        let s = chars@.subrange(start as int, end as int);
        assert forall|i: int| 0 <= i < j - start implies !is_space(s[i]) by {
            assert(s[i] == chars@[start + i]);
        }
        if j - start < s.len() {
            assert(s[j - start] == chars@[j as int]);
        }
        lemma_run_len_is(s, j as int - start as int);
    }
    j
}

} // verus!
