//! The letter-substitution rule.
//!
//! A token is rewritten in a single left-to-right pass: `L` and `R`
//! become `W` (lower case likewise), and after an `N` or `n` the next
//! character is handled immediately — a vowel gains a `y` in front of
//! it, an `L`/`R` is still turned into `W`/`w`, and anything else is
//! copied.  A character written by the pass is never examined again.

use vstd::prelude::*;

verus! {

/// The ten characters the rule treats as vowels.
pub open spec fn is_vowel(c: char) -> bool {
    c == 'A' || c == 'E' || c == 'I' || c == 'O' || c == 'U' || c == 'a' || c == 'e' || c == 'i'
        || c == 'o' || c == 'u'
}

/// How the character directly after an `N`/`n` is written.
pub open spec fn follow_piece(c: char) -> Seq<char> {
    if c == 'L' || c == 'R' {
        seq!['W']
    } else if c == 'l' || c == 'r' {
        seq!['w']
    } else if is_vowel(c) {
        seq!['y', c]
    } else {
        seq![c]
    }
}

/// The substituted spelling of a character sequence: one left-to-right
/// pass over the input, consuming two characters at once after an
/// `N`/`n` so that nothing the pass wrote is re-examined.
pub open spec fn substitute(s: Seq<char>) -> Seq<char>
    decreases s.len(),
{
    if s.len() == 0 {
        Seq::empty()
    } else {
        let c = s[0];
        if c == 'L' || c == 'R' {
            seq!['W'] + substitute(s.skip(1))
        } else if c == 'l' || c == 'r' {
            seq!['w'] + substitute(s.skip(1))
        } else if c == 'N' || c == 'n' {
            if s.len() == 1 {
                seq![c]
            } else {
                seq![c] + follow_piece(s[1]) + substitute(s.skip(2))
            }
        } else {
            seq![c] + substitute(s.skip(1))
        }
    }
}

/// The pass only ever writes `W`, `w`, `y` or characters of the input,
/// so any other character absent from the input is absent from the result.
pub proof fn lemma_substitute_no_stray_char(s: Seq<char>, c: char)
    requires
        !s.contains(c),
        c != 'W',
        c != 'w',
        c != 'y',
    ensures
        !substitute(s).contains(c),
    decreases s.len(),
{
    if s.len() == 0 {
    } else {
        assert(s[0] != c);
        assert forall|i: int| 0 <= i < s.skip(1).len() implies s.skip(1)[i] != c by {
            assert(s.skip(1)[i] == s[i + 1]);
        }
        assert(!s.skip(1).contains(c));
        lemma_substitute_no_stray_char(s.skip(1), c);
        if (s[0] == 'N' || s[0] == 'n') && s.len() > 1 {
            assert(s[1] != c);
            assert forall|i: int| 0 <= i < s.skip(2).len() implies s.skip(2)[i] != c by {
                assert(s.skip(2)[i] == s[i + 2]);
            }
            assert(!s.skip(2).contains(c));
            lemma_substitute_no_stray_char(s.skip(2), c);
            assert forall|i: int| 0 <= i < substitute(s).len() implies substitute(s)[i] != c by {
                let tail = substitute(s.skip(2));
                let head = seq![s[0]] + follow_piece(s[1]);
                assert(substitute(s) == head + tail);
                if i >= head.len() {
                    assert(substitute(s)[i] == tail[i - head.len()]);
                }
            }
        }
    }
}

/// Whether `c` is one of the characters the rule treats as a vowel.
pub fn vowel(c: char) -> (r: bool)
    ensures
        r == is_vowel(c),
{
    c == 'A' || c == 'E' || c == 'I' || c == 'O' || c == 'U' || c == 'a' || c == 'e' || c == 'i'
        || c == 'o' || c == 'u'
}

/// Apply the substitution pass to a token held as a vector of characters.
pub fn substitute_chars(tok: &Vec<char>) -> (out: Vec<char>)
    ensures
        out@ == substitute(tok@),
{
    let mut out: Vec<char> = Vec::new();
    let mut i: usize = 0;
    proof {
        assert(tok@.skip(0) =~= tok@);
        assert(out@ + substitute(tok@) =~= substitute(tok@));
    }
    while i < tok.len()
        invariant
            i <= tok.len(),
            substitute(tok@) == out@ + substitute(tok@.skip(i as int)),
        decreases tok.len() - i,
    {
        let c = tok[i];
        proof {
            assert(tok@.skip(i as int)[0] == tok@[i as int]);
            assert(tok@.skip(i as int).skip(1) =~= tok@.skip(i as int + 1));
            if i + 2 <= tok.len() {
                assert(tok@.skip(i as int).skip(2) =~= tok@.skip(i as int + 2));
                assert(tok@.skip(i as int)[1] == tok@[i as int + 1]);
            }
        }
        if c == 'L' || c == 'R' {
            out.push('W');
            i = i + 1;
        } else if c == 'l' || c == 'r' {
            out.push('w');
            i = i + 1;
        } else if c == 'N' || c == 'n' {
            out.push(c);
            if i + 1 < tok.len() {
                let d = tok[i + 1];
                if d == 'L' || d == 'R' {
                    out.push('W');
                } else if d == 'l' || d == 'r' {
                    out.push('w');
                } else if vowel(d) {
                    out.push('y');
                    out.push(d);
                } else {
                    out.push(d);
                }
                i = i + 2;
            } else {
                i = i + 1;
            }
        } else {
            out.push(c);
            i = i + 1;
        }
    }
    proof {
        assert(tok@.skip(tok@.len() as int).len() == 0);
        assert(out@ =~= substitute(tok@));
    }
    out
}

} // verus!
