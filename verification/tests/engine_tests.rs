use uwu::RATE_ONE;
use uwu::catalog::CatalogChoice;
use uwu::engine::UwUify;
use uwu::seeder::HashKey;

fn engine(words: u64, faces: u64, actions: u64, stutters: u64) -> UwUify {
    UwUify {
        words,
        faces,
        actions,
        stutters,
        catalog: CatalogChoice::Mixed,
        key: HashKey {
            k0: 69,
            k1: 420,
            k2: 96,
            k3: 84,
        },
    }
}

#[test]
fn empty_input_gives_empty_output() {
    let u = UwUify::default();
    assert_eq!(u.uwuify_sentence(""), "");
}

#[test]
fn spaces_only_give_empty_output() {
    let u = engine(0, 0, 0, 0);
    assert_eq!(u.uwuify_sentence("   \t  "), "");
}

#[test]
fn plain_words_pass_through_with_rates_zero() {
    let u = engine(0, 0, 0, 0);
    assert_eq!(u.uwuify_sentence("red lorry Nelly"), "red lorry Nelly ");
}

#[test]
fn whitespace_runs_collapse_to_single_spaces() {
    let u = engine(0, 0, 0, 0);
    assert_eq!(u.uwuify_sentence("a  \t b"), "a b ");
}

#[test]
fn substitution_rewrites_l_and_r() {
    let u = engine(RATE_ONE, 0, 0, 0);
    assert_eq!(u.uwuify_sentence("lorry"), "wowwy ");
    assert_eq!(u.uwuify_sentence("RaLLy"), "WaWWy ");
}

#[test]
fn substitution_canonical_nelly_case() {
    // The worked regression case: N keeps itself, a y slips in before
    // the vowel that follows it, and each l becomes w.
    let u = engine(RATE_ONE, 0, 0, 0);
    assert_eq!(u.uwuify_sentence("Nelly"), "Nyewwy ");
}

#[test]
fn substitution_n_followed_by_r_and_by_consonant() {
    let u = engine(RATE_ONE, 0, 0, 0);
    // After an n, an r still becomes w; a consonant is copied and consumed.
    assert_eq!(u.uwuify_sentence("nr"), "nw ");
    assert_eq!(u.uwuify_sentence("nt"), "nt ");
    // The consumed character is not examined again: the second n gets
    // no vowel treatment of its own.
    assert_eq!(u.uwuify_sentence("nna"), "nna ");
    assert_eq!(u.uwuify_sentence("nan"), "nyan ");
}

#[test]
fn substitution_trailing_n_is_kept() {
    let u = engine(RATE_ONE, 0, 0, 0);
    assert_eq!(u.uwuify_sentence("on"), "on ");
}

#[test]
fn determinism_same_key_same_output() {
    let u = UwUify::default();
    let text = "The quick brown fox jumps over the lazy dog\nhttp://example.com nana";
    assert_eq!(u.uwuify_sentence(text), u.uwuify_sentence(text));
}

#[test]
fn determinism_on_fed_back_output() {
    // Output is ordinary input: feeding it back keeps every property.
    let u = UwUify::default();
    let text = "really loud noises\n\nnear the lorry";
    let once = u.uwuify_sentence(text);
    let twice_a = u.uwuify_sentence(&once);
    let twice_b = u.uwuify_sentence(&once);
    assert_eq!(twice_a, twice_b);
    assert_eq!(
        once.matches('\n').count(),
        twice_a.matches('\n').count()
    );
}

#[test]
fn face_rate_zero_never_decorates() {
    let u = engine(0, 0, 0, 0);
    let text = "one two three four five six seven eight nine ten";
    assert_eq!(u.uwuify_sentence(text), "one two three four five six seven eight nine ten ");
}

#[test]
fn face_rate_full_decorates_every_token() {
    let mut u = engine(0, RATE_ONE, 0, 0);
    u.catalog = CatalogChoice::Ascii;
    let out = u.uwuify_sentence("token");
    assert!(out.ends_with("token "));
    let prefix = &out[..out.len() - "token ".len()];
    let faces: Vec<String> = (0..uwu::catalog::face_count(CatalogChoice::Ascii))
        .map(|i| uwu::catalog::face(CatalogChoice::Ascii, i).to_string())
        .collect();
    assert!(faces.iter().any(|f| f == prefix), "unexpected face prefix: {:?}", prefix);
}

#[test]
fn action_rate_full_decorates_every_token() {
    let u = engine(0, 0, RATE_ONE, 0);
    let out = u.uwuify_sentence("token");
    assert!(out.ends_with("token "));
    let prefix = &out[..out.len() - "token ".len()];
    let actions: Vec<String> = (0..uwu::catalog::action_count())
        .map(|i| uwu::catalog::action(i).to_string())
        .collect();
    assert!(actions.iter().any(|a| a == prefix), "unexpected action prefix: {:?}", prefix);
}

#[test]
fn stutter_rate_full_stutters_every_token() {
    let u = engine(0, 0, 0, RATE_ONE);
    assert_eq!(u.uwuify_sentence("hello"), "h-hello ");
    // With substitution active the stutter uses the respelled first letter.
    let v = engine(RATE_ONE, 0, 0, RATE_ONE);
    assert_eq!(v.uwuify_sentence("red"), "w-wed ");
}

#[test]
fn word_rate_full_respells_every_plain_token() {
    let u = engine(RATE_ONE, 0, 0, 0);
    assert_eq!(u.uwuify_sentence("roll lane"), "woww wanye ");
}

#[test]
fn link_with_scheme_keeps_its_spelling() {
    let u = engine(RATE_ONE, 0, 0, 0);
    assert_eq!(u.uwuify_sentence("http://example.com/lorry"), "http://example.com/lorry ");
}

#[test]
fn email_keeps_its_spelling() {
    let u = engine(RATE_ONE, 0, 0, 0);
    assert_eq!(u.uwuify_sentence("lorry@example.com"), "lorry@example.com ");
}

#[test]
fn bare_host_link_keeps_its_spelling() {
    let u = engine(RATE_ONE, 0, 0, 0);
    assert_eq!(u.uwuify_sentence("example.org"), "example.org ");
}

#[test]
fn link_still_gets_decorations() {
    let u = engine(RATE_ONE, 0, 0, RATE_ONE);
    // Exempt from respelling, but the stutter still appears.
    assert_eq!(u.uwuify_sentence("http://example.com"), "h-http://example.com ");
}

#[test]
fn line_breaks_are_preserved() {
    let u = engine(0, 0, 0, 0);
    assert_eq!(u.uwuify_sentence("a b\n\nc"), "a b \n\nc ");
    let d = UwUify::default();
    let out = d.uwuify_sentence("a b\n\nc");
    assert_eq!(out.matches('\n').count(), 2);
}

#[test]
fn trailing_newline_is_preserved() {
    let u = engine(0, 0, 0, 0);
    assert_eq!(u.uwuify_sentence("a\n"), "a \n");
}

#[test]
fn carriage_returns_are_treated_as_blank_space() {
    let u = engine(0, 0, 0, 0);
    assert_eq!(u.uwuify_sentence("a\r\nb"), "a \nb ");
}

#[test]
fn distinct_tokens_draw_distinct_faces() {
    // Every token triggers a face; if the per-token seeding collapsed
    // to a constant, all fifty distinct tokens would draw the same one.
    let u = engine(0, RATE_ONE, 0, 0);
    let mut prefixes: Vec<String> = Vec::new();
    for i in 0..50 {
        let word = format!("word{}", i);
        let out = u.uwuify_sentence(&word);
        let suffix = format!("{} ", word);
        let prefix = out
            .strip_suffix(&suffix)
            .expect("output should end with the token and a space");
        prefixes.push(prefix.to_string());
    }
    let first = prefixes[0].clone();
    assert!(prefixes.iter().any(|p| *p != first), "all tokens drew the same face");
}

#[test]
fn newlines_only_pass_through() {
    let u = engine(0, 0, 0, 0);
    assert_eq!(u.uwuify_sentence("\n\n\n"), "\n\n\n");
    let d = UwUify::default();
    assert_eq!(d.uwuify_sentence("\n\n\n"), "\n\n\n");
}

#[test]
fn stutter_uses_the_respelled_first_letter_after_n() {
    let u = engine(RATE_ONE, 0, 0, RATE_ONE);
    assert_eq!(u.uwuify_sentence("Nelly"), "N-Nyewwy ");
}

#[test]
fn reseed_changes_output() {
    let mut u = engine(RATE_ONE, RATE_ONE, RATE_ONE, RATE_ONE);
    let text: Vec<String> = (0..100).map(|i| format!("token{}", i)).collect();
    let text = text.join(" ");
    let before = u.uwuify_sentence(&text);
    let r = u.new_seed();
    assert!(r.is_ok());
    let after = u.uwuify_sentence(&text);
    assert_ne!(before, after);
}

#[test]
fn reseed_keeps_the_dials() {
    let mut u = engine(1, 2, 3, 4);
    u.new_seed().expect("entropy source should be available");
    assert_eq!(u.words, 1);
    assert_eq!(u.faces, 2);
    assert_eq!(u.actions, 3);
    assert_eq!(u.stutters, 4);
    assert_eq!(u.catalog, CatalogChoice::Mixed);
}
