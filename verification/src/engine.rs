//! The word transformer and renderer.
//!
//! `UwUify` bundles the four rate dials, the catalog choice and the
//! hash key.  For every token the engine derives a gating value from
//! the token's own seeded generator, compares it against the dials to
//! pick decorations, applies the letter substitution unless the token
//! is a link or the word dial says otherwise, and writes the result
//! out with one space after every token and the input's line breaks
//! kept in place.

use vstd::prelude::*;

use crate::RATE_ONE;
use crate::UwuError;
use crate::catalog::{ACTION_COUNT, CatalogChoice, action, action_view, face, face_count,
    face_count_spec, face_view};
use crate::entropy::entropy_u64;
use crate::links::{is_link, is_link_of};
use crate::rng::{RngState, seed_state, xo_next_state, xo_output};
use crate::seeder::{HashKey, hash_token, keyed_hash};
use crate::substitute::{substitute, substitute_chars};
use crate::text::{chars_to_string, push_char, push_chars, str_to_chars};
use crate::tokenize::{line_len, lemma_line_len, lemma_run_len, lemma_split_lines_first,
    lemma_split_lines_nonempty, lemma_tokens_first, lemma_tokens_skip_space, line_end, run_len,
    space, split_lines, token_end, tokens_of};

verus! {

/// The transformation engine: four rate dials on the fixed-point scale
/// `RATE_ONE`, the face-catalog choice, and the keyed-hash seed.
#[derive(Clone, Copy, PartialEq, Eq, Structural, Debug)]
pub struct UwUify {
    /// How often a token's spelling is rewritten.
    pub words: u64,
    /// How often a face is prepended.
    pub faces: u64,
    /// How often an action is prepended.
    pub actions: u64,
    /// How often a stutter prefix is prepended.
    pub stutters: u64,
    /// Which face catalog to draw from.
    pub catalog: CatalogChoice,
    /// The key under which tokens are hashed.
    pub key: HashKey,
}

/// The configuration a fresh engine starts from.
pub open spec fn default_engine() -> UwUify {
    UwUify {
        words: RATE_ONE,
        faces: 50000,
        actions: 125000,
        stutters: 225000,
        catalog: CatalogChoice::Mixed,
        key: HashKey { k0: 69, k1: 420, k2: 96, k3: 84 },
    }
}

impl Default for UwUify {
    /// A fresh engine: spelling always rewritten, sparse decorations,
    /// the mixed face catalog, and the fixed default key.
    fn default() -> (d: Self)
        ensures
            d == default_engine(),
    {
        UwUify {
            words: RATE_ONE,
            faces: 50000,
            actions: 125000,
            stutters: 225000,
            catalog: CatalogChoice::Mixed,
            key: HashKey { k0: 69, k1: 420, k2: 96, k3: 84 },
        }
    }
}

/// What the engine decides for one token: the decorations it gets and
/// its final spelling.
pub ghost struct TokenPlan {
    pub face: Option<usize>,
    pub action: Option<usize>,
    pub stutter: bool,
    pub word: Seq<char>,
}

/// The hash a token is seeded from.
pub open spec fn token_hash(u: UwUify, tok: Seq<char>) -> u64 {
    keyed_hash(u.key.k0, u.key.k1, u.key.k2, u.key.k3, tok)
}

/// The token's gating value: the first draw of its generator, brought
/// onto the rate scale.  One value gates all four effects.
pub open spec fn token_gate(u: UwUify, tok: Seq<char>) -> u64 {
    xo_output(seed_state(token_hash(u, tok))) % RATE_ONE
}

/// The engine's decision for one token.  The draws happen in a fixed
/// order: the gating value first, then a face index only if a face
/// triggered, then an action index only if an action triggered.
pub open spec fn token_plan(u: UwUify, tok: Seq<char>) -> TokenPlan {
    let st0 = seed_state(token_hash(u, tok));
    let gate = xo_output(st0) % RATE_ONE;
    let st1 = xo_next_state(st0);
    let face_idx = (xo_output(st1) % (face_count_spec(u.catalog) as u64)) as usize;
    let st2 = if gate < u.faces {
        xo_next_state(st1)
    } else {
        st1
    };
    let action_idx = (xo_output(st2) % (ACTION_COUNT as u64)) as usize;
    TokenPlan {
        face: if gate < u.faces {
            Some(face_idx)
        } else {
            None
        },
        action: if gate < u.actions {
            Some(action_idx)
        } else {
            None
        },
        stutter: gate < u.stutters,
        word: if is_link_of(tok) || gate >= u.words {
            tok
        } else {
            substitute(tok)
        },
    }
}

/// The first character of the token's final spelling, used for the
/// stutter prefix.
pub open spec fn stutter_char(w: Seq<char>) -> char {
    if w.len() > 0 {
        w[0]
    } else {
        'W'
    }
}

/// The text one token contributes to the output: face, action, stutter
/// and spelling in that order, then one space.
pub open spec fn token_render(u: UwUify, tok: Seq<char>) -> Seq<char> {
    let p = token_plan(u, tok);
    (match p.face {
        Some(i) => face_view(u.catalog, i as int),
        None => Seq::<char>::empty(),
    }) + (match p.action {
        Some(i) => action_view(i as int),
        None => Seq::<char>::empty(),
    }) + (if p.stutter {
        seq![stutter_char(p.word), '-']
    } else {
        Seq::<char>::empty()
    }) + p.word + seq![' ']
}

/// The output of a sequence of tokens, in order.
pub open spec fn render_tokens(u: UwUify, toks: Seq<Seq<char>>) -> Seq<char>
    decreases toks.len(),
{
    if toks.len() == 0 {
        Seq::<char>::empty()
    } else {
        token_render(u, toks[0]) + render_tokens(u, toks.skip(1))
    }
}

/// The output of one line: its tokens, each followed by its space.
pub open spec fn render_line(u: UwUify, line: Seq<char>) -> Seq<char> {
    render_tokens(u, tokens_of(line))
}

/// The output of a sequence of lines, joined by single newlines.
pub open spec fn render_lines(u: UwUify, lines: Seq<Seq<char>>) -> Seq<char>
    decreases lines.len(),
{
    if lines.len() == 0 {
        Seq::<char>::empty()
    } else if lines.len() == 1 {
        render_line(u, lines[0])
    } else {
        render_line(u, lines[0]) + seq!['\n'] + render_lines(u, lines.skip(1))
    }
}

/// The whole transformation: every line rendered, line breaks kept.
pub open spec fn transform_spec(u: UwUify, s: Seq<char>) -> Seq<char> {
    render_lines(u, split_lines(s))
}

/// One token of the input together with the engine's decisions for it:
/// the indices of the face and action it drew (if any), whether it
/// stutters, its final spelling, and the line it came from.
#[derive(Default, Debug)]
pub struct Token {
    pub line: usize,
    pub stutter: bool,
    pub word: String,
    pub face: Option<usize>,
    pub action: Option<usize>,
}

/// Whether an emitted token records exactly the engine's plan for the
/// token text `tok` on the given line.
pub open spec fn token_matches(t: Token, line: int, u: UwUify, tok: Seq<char>) -> bool {
    let p = token_plan(u, tok);
    &&& t.line == line
    &&& t.stutter == p.stutter
    &&& t.word@ == p.word
    &&& t.face == p.face
    &&& t.action == p.action
}

/// Every token of `toks`, paired with the line number `line`.
pub open spec fn with_line(toks: Seq<Seq<char>>, line: int) -> Seq<(int, Seq<char>)>
    decreases toks.len(),
{
    if toks.len() == 0 {
        Seq::<(int, Seq<char>)>::empty()
    } else {
        seq![(line, toks[0])] + with_line(toks.skip(1), line)
    }
}

/// The tokens of a sequence of lines, each paired with its line number,
/// counted from `base`.
pub open spec fn line_infos(lines: Seq<Seq<char>>, base: int) -> Seq<(int, Seq<char>)>
    decreases lines.len(),
{
    if lines.len() == 0 {
        Seq::<(int, Seq<char>)>::empty()
    } else {
        with_line(tokens_of(lines[0]), base) + line_infos(lines.skip(1), base + 1)
    }
}

/// Every token of the text, in order, paired with its line number.
pub open spec fn token_infos(s: Seq<char>) -> Seq<(int, Seq<char>)> {
    line_infos(split_lines(s), 0)
}

/// Whether the emitted token list records, token by token, the engine's
/// plans for the given (line, token) pairs.
pub open spec fn tokens_match(toks: Seq<Token>, infos: Seq<(int, Seq<char>)>, u: UwUify) -> bool {
    &&& toks.len() == infos.len()
    &&& forall|k: int|
        0 <= k < toks.len() ==> token_matches(#[trigger] toks[k], infos[k].0, u, infos[k].1)
}

/// The tokens of a text, front first; `next` hands them out in order.
pub struct UwUIter {
    pub toks: Vec<Token>,
}

impl UwUIter {
    /// The next token, or `None` once every token has been handed out.
    pub fn next(&mut self) -> (r: Option<Token>)
        ensures
            old(self).toks@.len() == 0 ==> r is None && final(self).toks@ == old(self).toks@,
            old(self).toks@.len() > 0 ==> final(self).toks@ == old(self).toks@.skip(1) && (match r {
                Some(t) => t == old(self).toks@[0],
                None => false,
            }),
    {
        if self.toks.len() > 0 {
            proof {
                assert(self.toks@.remove(0) =~= self.toks@.skip(1));
            }
            Some(self.toks.remove(0))
        } else {
            None
        }
    }
}

/// The characters of `chars` from `from` (inclusive) to `to` (exclusive).
fn copy_range(chars: &Vec<char>, from: usize, to: usize) -> (v: Vec<char>)
    requires
        from <= to <= chars.len(),
    ensures
        v@ == chars@.subrange(from as int, to as int),
{
    let mut v: Vec<char> = Vec::new();
    let mut i: usize = from;
    while i < to
        invariant
            from <= i <= to <= chars.len(),
            v@ == chars@.subrange(from as int, i as int),
        decreases to - i,
    {
        proof {
            assert(chars@.subrange(from as int, i as int).push(chars@[i as int]) =~= chars@.subrange(
                from as int,
                i as int + 1,
            ));
        }
        v.push(chars[i]);
        i = i + 1;
    }
    v
}

impl UwUify {
    /// Append to `out` everything this token contributes to the output.
    #[verifier::rlimit(100)]
    fn render_token_into(&self, tok: Vec<char>, out: &mut String)
        ensures
            final(out)@ == old(out)@ + token_render(*self, tok@),
    {
        let ghost p = token_plan(*self, tok@);
        let h = hash_token(&self.key, &tok);
        let mut rng = RngState::from_hash(h);
        let gate = rng.next() % RATE_ONE;
        proof {
            assert(gate == token_gate(*self, tok@));
        }
        let ghost out0 = out@;
        if gate < self.faces {
            let n = face_count(self.catalog);
            let idx = (rng.next() % (n as u64)) as usize;
            out.append(face(self.catalog, idx));
        }
        let ghost out1 = out@;
        if gate < self.actions {
            let idx = (rng.next() % (ACTION_COUNT as u64)) as usize;
            out.append(action(idx));
        }
        let ghost out2 = out@;
        let linked = is_link(&tok);
        let word: Vec<char> = if linked || gate >= self.words {
            tok
        } else {
            substitute_chars(&tok)
        };
        proof {
            assert(word@ == p.word);
        }
        if gate < self.stutters {
            let c = if word.len() > 0 {
                word[0]
            } else {
                'W'
            };
            push_char(out, c);
            push_char(out, '-');
        }
        let ghost out3 = out@;
        push_chars(out, &word);
        push_char(out, ' ');
        proof {
            assert(out1 =~= out0 + (match p.face {
                Some(i) => face_view(self.catalog, i as int),
                None => Seq::<char>::empty(),
            }));
            assert(out2 =~= out1 + (match p.action {
                Some(i) => action_view(i as int),
                None => Seq::<char>::empty(),
            }));
            assert(out3 =~= out2 + (if p.stutter {
                seq![stutter_char(p.word), '-']
            } else {
                Seq::<char>::empty()
            }));
            assert(out@ =~= out3 + p.word + seq![' ']);
            assert(out@ =~= out0 + token_render(*self, tok@));
        }
    }

    /// Transform a whole text: every token decorated and respelled as
    /// its plan says, one space after every token, and the input's
    /// line structure reproduced.
    pub fn uwuify_sentence(&self, text: &str) -> (out: String)
        ensures
            out@ == transform_spec(*self, text@),
    {
        let chars = str_to_chars(text);
        let ghost s = text@;
        let mut out = String::new();
        let mut i: usize = 0;
        proof {
            assert(s.skip(0) =~= s);
            assert(Seq::<char>::empty() + render_lines(*self, split_lines(s)) =~= render_lines(
                *self,
                split_lines(s),
            ));
        }
        loop
            invariant_except_break
                out@ + render_lines(*self, split_lines(s.skip(i as int))) == transform_spec(
                    *self,
                    s,
                ),
            invariant
                chars@ == s,
                s == text@,
                i <= chars.len(),
            ensures
                out@ == transform_spec(*self, s),
            decreases chars.len() - i,
        {
            let le = line_end(&chars, i);
            let ghost rest = s.skip(i as int);
            let ghost ll = line_len(rest) as int;
            let ghost line = s.subrange(i as int, le as int);
            proof {
                lemma_line_len(rest);
                lemma_split_lines_first(rest);
                lemma_split_lines_nonempty(rest);
                assert(rest.take(ll) =~= line);
            }
            // render the tokens of the current line
            let mut j: usize = i;
            let ghost outline = out@;
            proof {
                assert(s.subrange(j as int, le as int) == line);
                assert(out@ + render_tokens(*self, tokens_of(s.subrange(j as int, le as int)))
                    == outline + render_line(*self, line));
            }
            while j < le
                invariant
                    chars@ == s,
                    i <= j <= le <= chars.len(),
                    out@ + render_tokens(*self, tokens_of(s.subrange(j as int, le as int)))
                        == outline + render_line(*self, line),
                decreases le - j,
            {
                let ghost r = s.subrange(j as int, le as int);
                if space(chars[j]) {
                    proof {
                        lemma_tokens_skip_space(r);
                        assert(r.skip(1) =~= s.subrange(j as int + 1, le as int));
                    }
                    j = j + 1;
                } else {
                    let e = token_end(&chars, j, le);
                    proof {
                        lemma_tokens_first(r);
                        lemma_run_len(r);
                        assert(run_len(r) == e - j);
                        assert(r.take(e - j) =~= s.subrange(j as int, e as int));
                        assert(r.skip(e - j) =~= s.subrange(e as int, le as int));
                        assert(tokens_of(r) =~~= seq![s.subrange(j as int, e as int)] + tokens_of(
                            s.subrange(e as int, le as int),
                        ));
                        assert(tokens_of(r).skip(1) =~~= tokens_of(s.subrange(e as int, le as int)));
                    }
                    let tok = copy_range(&chars, j, e);
                    self.render_token_into(tok, &mut out);
                    j = e;
                }
            }
            proof {
                assert(s.subrange(le as int, le as int) =~= Seq::<char>::empty());
                assert(out@ =~= outline + render_line(*self, line));
            }
            if le < chars.len() {
                push_char(&mut out, '\n');
                proof {
                    assert(ll < rest.len());
                    let lines = split_lines(rest);
                    let tail = split_lines(rest.skip(ll + 1));
                    assert(lines =~~= seq![line] + tail);
                    assert(lines.len() >= 2);
                    assert(lines[0] == line);
                    assert(lines.skip(1) =~~= tail);
                    assert(render_lines(*self, lines) == render_line(*self, line) + seq!['\n']
                        + render_lines(*self, tail));
                    assert(rest.skip(ll + 1) =~= s.skip(le as int + 1));
                    assert(out@ =~= outline + render_line(*self, line) + seq!['\n']);
                }
                i = le + 1;
            } else {
                proof {
                    assert(ll == rest.len());
                    assert(line =~= rest);
                    assert(split_lines(rest) =~~= seq![rest]);
                    assert(render_lines(*self, split_lines(rest)) == render_line(*self, rest));
                }
                break ;
            }
        }
        out
    }

    /// Build the emitted token for one token text on one line.
    #[verifier::rlimit(100)]
    fn plan_token(&self, tok: Vec<char>, line: usize) -> (t: Token)
        ensures
            token_matches(t, line as int, *self, tok@),
    {
        let ghost p = token_plan(*self, tok@);
        let h = hash_token(&self.key, &tok);
        let mut rng = RngState::from_hash(h);
        let gate = rng.next() % RATE_ONE;
        let face_idx: Option<usize> = if gate < self.faces {
            let n = face_count(self.catalog);
            Some((rng.next() % (n as u64)) as usize)
        } else {
            None
        };
        let action_idx: Option<usize> = if gate < self.actions {
            Some((rng.next() % (ACTION_COUNT as u64)) as usize)
        } else {
            None
        };
        let stutter = gate < self.stutters;
        let linked = is_link(&tok);
        let word_chars: Vec<char> = if linked || gate >= self.words {
            tok
        } else {
            substitute_chars(&tok)
        };
        let word = chars_to_string(&word_chars);
        proof {
            assert(face_idx == p.face);
            assert(action_idx == p.action);
            assert(word@ == p.word);
        }
        Token { line, stutter, word, face: face_idx, action: action_idx }
    }

    /// The tokens of a text, each carrying the engine's decisions and
    /// its line number, in input order.
    pub fn uwuify_iter(&self, text: &str) -> (it: UwUIter)
        ensures
            tokens_match(it.toks@, token_infos(text@), *self),
    {
        let chars = str_to_chars(text);
        let ghost s = text@;
        let mut toks: Vec<Token> = Vec::new();
        let ghost mut done = Seq::<(int, Seq<char>)>::empty();
        let mut i: usize = 0;
        let mut li: usize = 0;
        proof {
            assert(s.skip(0) =~= s);
            assert(done + line_infos(split_lines(s), 0) =~= token_infos(s));
        }
        loop
            invariant_except_break
                done + line_infos(split_lines(s.skip(i as int)), li as int) == token_infos(s),
            invariant
                chars@ == s,
                s == text@,
                i <= chars.len(),
                li <= i,
                tokens_match(toks@, done, *self),
            ensures
                tokens_match(toks@, token_infos(s), *self),
            decreases chars.len() - i,
        {
            let le = line_end(&chars, i);
            let ghost rest = s.skip(i as int);
            let ghost ll = line_len(rest) as int;
            let ghost line = s.subrange(i as int, le as int);
            let ghost tail_infos = if le < chars.len() {
                line_infos(split_lines(s.skip(le as int + 1)), li as int + 1)
            } else {
                Seq::<(int, Seq<char>)>::empty()
            };
            proof {
                lemma_line_len(rest);
                lemma_split_lines_first(rest);
                lemma_split_lines_nonempty(rest);
                assert(rest.take(ll) =~= line);
                let lines = split_lines(rest);
                if le < chars.len() {
                    let tail = split_lines(rest.skip(ll + 1));
                    assert(lines =~~= seq![line] + tail);
                    assert(lines[0] == line);
                    assert(lines.skip(1) =~~= tail);
                    assert(rest.skip(ll + 1) =~= s.skip(le as int + 1));
                    assert(line_infos(lines, li as int) == with_line(tokens_of(line), li as int)
                        + tail_infos);
                } else {
                    assert(line =~= rest);
                    assert(lines =~~= seq![rest]);
                    assert(lines.skip(1) =~= Seq::<Seq<char>>::empty());
                    assert(line_infos(lines.skip(1), li as int + 1) =~= Seq::<(
                        int,
                        Seq<char>,
                    )>::empty());
                    assert(line_infos(lines, li as int) =~= with_line(tokens_of(line), li as int)
                        + tail_infos);
                }
                assert(done + (with_line(tokens_of(line), li as int) + tail_infos) =~= token_infos(
                    s,
                ));
            }
            let mut j: usize = i;
            while j < le
                invariant
                    chars@ == s,
                    i <= j <= le <= chars.len(),
                    tokens_match(toks@, done, *self),
                    done + (with_line(tokens_of(s.subrange(j as int, le as int)), li as int)
                        + tail_infos) == token_infos(s),
                decreases le - j,
            {
                let ghost r = s.subrange(j as int, le as int);
                if space(chars[j]) {
                    proof {
                        lemma_tokens_skip_space(r);
                        assert(r.skip(1) =~= s.subrange(j as int + 1, le as int));
                    }
                    j = j + 1;
                } else {
                    let e = token_end(&chars, j, le);
                    let ghost tokview = s.subrange(j as int, e as int);
                    proof {
                        lemma_tokens_first(r);
                        lemma_run_len(r);
                        assert(run_len(r) == e - j);
                        assert(r.take(e - j) =~= tokview);
                        assert(r.skip(e - j) =~= s.subrange(e as int, le as int));
                        assert(tokens_of(r) =~~= seq![tokview] + tokens_of(
                            s.subrange(e as int, le as int),
                        ));
                        let t2 = tokens_of(s.subrange(e as int, le as int));
                        assert((seq![tokview] + t2).skip(1) =~~= t2);
                        assert(with_line(tokens_of(r), li as int) =~= seq![(li as int, tokview)]
                            + with_line(t2, li as int));
                    }
                    let tok = copy_range(&chars, j, e);
                    let t = self.plan_token(tok, li);
                    let ghost oldtoks = toks@;
                    toks.push(t);
                    proof {
                        let olddone = done;
                        done = done.push((li as int, tokview));
                        assert(done =~= olddone + seq![(li as int, tokview)]);
                        assert(done + (with_line(tokens_of(s.subrange(e as int, le as int)),
                            li as int) + tail_infos) =~= token_infos(s));
                        assert forall|k: int| 0 <= k < toks@.len() implies token_matches(
                            #[trigger] toks@[k],
                            done[k].0,
                            *self,
                            done[k].1,
                        ) by {
                            if k < oldtoks.len() {
                                assert(toks@[k] == oldtoks[k]);
                                assert(done[k] == olddone[k]);
                            }
                        }
                    }
                    j = e;
                }
            }
            proof {
                assert(s.subrange(le as int, le as int) =~= Seq::<char>::empty());
                assert(tokens_of(Seq::<char>::empty()) =~= Seq::<Seq<char>>::empty());
                assert(with_line(Seq::<Seq<char>>::empty(), li as int) =~= Seq::<(
                    int,
                    Seq<char>,
                )>::empty());
                assert(done + tail_infos =~= token_infos(s));
            }
            if le < chars.len() {
                i = le + 1;
                li = li + 1;
            } else {
                proof {
                    assert(done =~= token_infos(s));
                }
                break ;
            }
        }
        UwUIter { toks }
    }

    /// Replace the hash key with four words drawn from the system
    /// entropy source.  The rate dials and the catalog choice are
    /// untouched; on failure nothing changes and the error says the
    /// entropy source was unavailable.
    pub fn new_seed(&mut self) -> (r: Result<(), UwuError>)
        ensures
            r is Ok ==> final(self).words == old(self).words && final(self).faces == old(
                self,
            ).faces && final(self).actions == old(self).actions && final(self).stutters == old(
                self,
            ).stutters && final(self).catalog == old(self).catalog,
            r is Err ==> *final(self) == *old(self) && r == Err::<(), UwuError>(
                UwuError::EntropyUnavailable,
            ),
    {
        let k0 = match entropy_u64() {
            Ok(v) => v,
            Err(_) => {
                return Err(UwuError::EntropyUnavailable);
            },
        };
        let k1 = match entropy_u64() {
            Ok(v) => v,
            Err(_) => {
                return Err(UwuError::EntropyUnavailable);
            },
        };
        let k2 = match entropy_u64() {
            Ok(v) => v,
            Err(_) => {
                return Err(UwuError::EntropyUnavailable);
            },
        };
        let k3 = match entropy_u64() {
            Ok(v) => v,
            Err(_) => {
                return Err(UwuError::EntropyUnavailable);
            },
        };
        self.key = HashKey { k0, k1, k2, k3 };
        Ok(())
    }
}

} // verus!
