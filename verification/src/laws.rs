//! The engine's stated laws.
//!
//! Each proof function here records a property of the transformation
//! as a whole: determinism, the behaviour of the four dials at their
//! extremes, the exemption of links from respelling, and the
//! preservation of the input's line structure.

use vstd::prelude::*;

use crate::RATE_ONE;
use crate::catalog::{ACTION_COUNT, face_count_spec, lemma_actions_no_newline,
    lemma_faces_no_newline};
use crate::engine::{UwUify, render_line, render_lines, render_tokens, token_plan, token_render,
    transform_spec};
use crate::links::is_link_of;
use crate::substitute::{lemma_substitute_no_stray_char, substitute};
use crate::tokenize::{count_char, lemma_count_char_absent, lemma_count_char_concat,
    lemma_count_newlines, lemma_split_lines_no_newline, lemma_split_lines_nonempty,
    lemma_tokens_no_char, split_lines, tokens_of};

verus! {

/// A character absent from both parts is absent from their concatenation.
proof fn lemma_concat_no_char(a: Seq<char>, b: Seq<char>, c: char)
    requires
        !a.contains(c),
        !b.contains(c),
    ensures
        !(a + b).contains(c),
{
    assert forall|i: int| 0 <= i < (a + b).len() implies (a + b)[i] != c by {
        if i < a.len() {
            assert((a + b)[i] == a[i]);
        } else {
            assert((a + b)[i] == b[i - a.len()]);
        }
    }
}

/// Determinism: the transformation's result is a function of the text
/// and the engine value alone, so any two outputs that satisfy its
/// contract for the same text, dials and key are identical.
pub proof fn lemma_deterministic(u: UwUify, s: Seq<char>, out1: Seq<char>, out2: Seq<char>)
    requires
        out1 == transform_spec(u, s),
        out2 == transform_spec(u, s),
    ensures
        out1 == out2,
{
}

/// The face dial at its extremes: at zero no token ever draws a face,
/// at the full scale or above every token does.
pub proof fn lemma_face_rate_extremes(u: UwUify, tok: Seq<char>)
    ensures
        u.faces == 0 ==> token_plan(u, tok).face is None,
        u.faces >= RATE_ONE ==> token_plan(u, tok).face is Some,
{
}

/// The action dial at its extremes.
pub proof fn lemma_action_rate_extremes(u: UwUify, tok: Seq<char>)
    ensures
        u.actions == 0 ==> token_plan(u, tok).action is None,
        u.actions >= RATE_ONE ==> token_plan(u, tok).action is Some,
{
}

/// The stutter dial at its extremes.
pub proof fn lemma_stutter_rate_extremes(u: UwUify, tok: Seq<char>)
    ensures
        u.stutters == 0 ==> !token_plan(u, tok).stutter,
        u.stutters >= RATE_ONE ==> token_plan(u, tok).stutter,
{
}

/// The word dial at its extremes: at zero no token's spelling changes,
/// at the full scale or above every token that is not a link is
/// respelled.
pub proof fn lemma_word_rate_extremes(u: UwUify, tok: Seq<char>)
    ensures
        u.words == 0 ==> token_plan(u, tok).word == tok,
        u.words >= RATE_ONE && !is_link_of(tok) ==> token_plan(u, tok).word == substitute(tok),
{
}

/// With every dial at zero a token passes through untouched: its
/// contribution to the output is exactly itself and its one space.
pub proof fn lemma_all_dials_zero(u: UwUify, tok: Seq<char>)
    requires
        u.words == 0,
        u.faces == 0,
        u.actions == 0,
        u.stutters == 0,
    ensures
        token_render(u, tok) == tok + seq![' '],
{
    assert(token_render(u, tok) =~= tok + seq![' ']);
}

/// A drawn catalog index is always a valid index into its catalog.
pub proof fn lemma_catalog_indices_in_range(u: UwUify, tok: Seq<char>)
    ensures
        token_plan(u, tok).face matches Some(i) ==> i < face_count_spec(u.catalog),
        token_plan(u, tok).action matches Some(i) ==> i < ACTION_COUNT,
{
}

/// Link exemption: a token recognized as a URL or email keeps its
/// spelling exactly, whatever the word dial and gating value say.
pub proof fn lemma_link_exemption(u: UwUify, tok: Seq<char>)
    requires
        is_link_of(tok),
    ensures
        token_plan(u, tok).word == tok,
{
}

/// What one token contributes to the output never contains a line
/// break, provided the token itself contains none.
proof fn lemma_token_render_no_newline(u: UwUify, tok: Seq<char>)
    requires
        !tok.contains('\n'),
    ensures
        !token_render(u, tok).contains('\n'),
{
    lemma_faces_no_newline();
    lemma_actions_no_newline();
    let p = token_plan(u, tok);
    lemma_substitute_no_stray_char(tok, '\n');
    assert(!p.word.contains('\n'));
    let face_piece = match p.face {
        Some(i) => crate::catalog::face_view(u.catalog, i as int),
        None => Seq::<char>::empty(),
    };
    let action_piece = match p.action {
        Some(i) => crate::catalog::action_view(i as int),
        None => Seq::<char>::empty(),
    };
    let stutter_piece = if p.stutter {
        seq![crate::engine::stutter_char(p.word), '-']
    } else {
        Seq::<char>::empty()
    };
    assert(!face_piece.contains('\n')) by {
        if p.face is Some {
            let i = p.face->0;
            assert(i < face_count_spec(u.catalog));
        }
    }
    assert(!action_piece.contains('\n')) by {
        if p.action is Some {
            let i = p.action->0;
            assert(i < ACTION_COUNT);
        }
    }
    assert(!stutter_piece.contains('\n')) by {
        if p.stutter {
            let c = crate::engine::stutter_char(p.word);
            assert(c != '\n') by {
                if p.word.len() > 0 {
                    assert(p.word[0] != '\n');
                }
            }
            assert(forall|i: int| 0 <= i < 2 ==> seq![c, '-'][i] != '\n');
        }
    }
    assert(!seq![' '].contains('\n')) by {
        assert(forall|i: int| 0 <= i < 1 ==> seq![' '][i] != '\n');
    }
    lemma_concat_no_char(face_piece, action_piece, '\n');
    lemma_concat_no_char(face_piece + action_piece, stutter_piece, '\n');
    lemma_concat_no_char(face_piece + action_piece + stutter_piece, p.word, '\n');
    lemma_concat_no_char(face_piece + action_piece + stutter_piece + p.word, seq![' '], '\n');
}

/// The output of a token list contains no line break when no token does.
proof fn lemma_render_tokens_no_newline(u: UwUify, toks: Seq<Seq<char>>)
    requires
        forall|k: int| 0 <= k < toks.len() ==> !(#[trigger] toks[k]).contains('\n'),
    ensures
        !render_tokens(u, toks).contains('\n'),
    decreases toks.len(),
{
    if toks.len() > 0 {
        lemma_token_render_no_newline(u, toks[0]);
        assert forall|k: int| 0 <= k < toks.skip(1).len() implies !(#[trigger] toks.skip(
            1,
        )[k]).contains('\n') by {
            assert(toks.skip(1)[k] == toks[k + 1]);
        }
        lemma_render_tokens_no_newline(u, toks.skip(1));
        lemma_concat_no_char(token_render(u, toks[0]), render_tokens(u, toks.skip(1)), '\n');
    }
}

/// One rendered line contains no line break.
proof fn lemma_render_line_no_newline(u: UwUify, line: Seq<char>)
    requires
        !line.contains('\n'),
    ensures
        !render_line(u, line).contains('\n'),
{
    lemma_tokens_no_char(line, '\n');
    lemma_render_tokens_no_newline(u, tokens_of(line));
}

/// Rendering a list of newline-free lines puts exactly one line break
/// between neighbours.
proof fn lemma_count_render_lines(u: UwUify, lines: Seq<Seq<char>>)
    requires
        lines.len() >= 1,
        forall|k: int| 0 <= k < lines.len() ==> !(#[trigger] lines[k]).contains('\n'),
    ensures
        count_char(render_lines(u, lines), '\n') == lines.len() - 1,
    decreases lines.len(),
{
    lemma_render_line_no_newline(u, lines[0]);
    if lines.len() == 1 {
        lemma_count_char_absent(render_line(u, lines[0]), '\n');
    } else {
        assert forall|k: int| 0 <= k < lines.skip(1).len() implies !(#[trigger] lines.skip(
            1,
        )[k]).contains('\n') by {
            assert(lines.skip(1)[k] == lines[k + 1]);
        }
        lemma_count_render_lines(u, lines.skip(1));
        let a = render_line(u, lines[0]);
        let rest = render_lines(u, lines.skip(1));
        lemma_count_char_concat(a, seq!['\n'], '\n');
        lemma_count_char_concat(a + seq!['\n'], rest, '\n');
        lemma_count_char_absent(a, '\n');
        assert(count_char(seq!['\n'], '\n') == 1) by {
            assert(seq!['\n'].skip(1) =~= Seq::<char>::empty());
            assert(count_char(Seq::<char>::empty(), '\n') == 0);
            assert(seq!['\n'][0] == '\n');
        }
    }
}

/// Line preservation: whatever the dials and the key, the output holds
/// exactly as many line breaks as the input.
pub proof fn lemma_line_preservation(u: UwUify, s: Seq<char>)
    ensures
        count_char(transform_spec(u, s), '\n') == count_char(s, '\n'),
{
    lemma_split_lines_nonempty(s);
    lemma_split_lines_no_newline(s);
    lemma_count_render_lines(u, split_lines(s));
    lemma_count_newlines(s);
}

/// The transformation's output is ordinary input: running it again,
/// under any dials and key, is covered by the same laws.  In
/// particular the line structure survives any number of passes.
pub proof fn lemma_rerun_line_preservation(u1: UwUify, u2: UwUify, s: Seq<char>)
    ensures
        count_char(transform_spec(u2, transform_spec(u1, s)), '\n') == count_char(s, '\n'),
{
    lemma_line_preservation(u1, s);
    lemma_line_preservation(u2, transform_spec(u1, s));
}

/// Empty input yields empty output: it is never an error.
pub proof fn lemma_empty_input(u: UwUify)
    ensures
        transform_spec(u, Seq::<char>::empty()) == Seq::<char>::empty(),
{
    let s = Seq::<char>::empty();
    assert(split_lines(s) == seq![Seq::<char>::empty()]);
    assert(tokens_of(s) =~= Seq::<Seq<char>>::empty());
    assert(render_tokens(u, Seq::<Seq<char>>::empty()) == Seq::<char>::empty());
}

} // verus!
