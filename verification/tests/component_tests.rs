use uwu::RATE_ONE;
use uwu::catalog::{self, CatalogChoice};
use uwu::engine::UwUify;
use uwu::rng::RngState;
use uwu::seeder::HashKey;
use uwu::substitute::substitute_chars;

#[test]
fn rng_is_reproducible_from_a_hash() {
    let mut a = RngState::from_hash(42);
    let mut b = RngState::from_hash(42);
    for _ in 0..8 {
        assert_eq!(a.next(), b.next());
    }
}

#[test]
fn rng_distinguishes_seeds() {
    let mut a = RngState::from_hash(42);
    let mut b = RngState::from_hash(43);
    assert_ne!(a.next(), b.next());
}

#[test]
fn rng_advances_its_state() {
    let mut a = RngState::from_hash(7);
    let first = a.next();
    let second = a.next();
    assert_ne!(first, second);
}

#[test]
fn catalog_counts() {
    assert_eq!(catalog::face_count(CatalogChoice::Ascii), 6);
    assert_eq!(catalog::face_count(CatalogChoice::Extended), 6);
    assert_eq!(catalog::face_count(CatalogChoice::Mixed), 12);
    assert_eq!(catalog::action_count(), 12);
}

#[test]
fn mixed_catalog_lists_ascii_faces_first() {
    for i in 0..6 {
        assert_eq!(
            catalog::face(CatalogChoice::Mixed, i),
            catalog::face(CatalogChoice::Ascii, i)
        );
        assert_eq!(
            catalog::face(CatalogChoice::Mixed, i + 6),
            catalog::face(CatalogChoice::Extended, i)
        );
    }
}

#[test]
fn every_catalog_entry_ends_with_a_space() {
    for i in 0..12 {
        assert!(catalog::face(CatalogChoice::Mixed, i).ends_with(' '));
        assert!(catalog::action(i).ends_with(' '));
    }
}

#[test]
fn substitute_chars_nelly() {
    let tok: Vec<char> = "Nelly".chars().collect();
    let out: String = substitute_chars(&tok).into_iter().collect();
    assert_eq!(out, "Nyewwy");
}

#[test]
fn substitute_chars_passes_unrelated_text_through() {
    let tok: Vec<char> = "détour!".chars().collect();
    let out: String = substitute_chars(&tok).into_iter().collect();
    assert_eq!(out, "détouw!");
}

#[test]
fn tokens_carry_their_line_numbers() {
    let u = UwUify {
        words: 0,
        faces: 0,
        actions: 0,
        stutters: 0,
        catalog: CatalogChoice::Mixed,
        key: HashKey {
            k0: 69,
            k1: 420,
            k2: 96,
            k3: 84,
        },
    };
    let mut it = u.uwuify_iter("a b\nc");
    let t = it.next().expect("first token");
    assert_eq!((t.line, t.word.as_str()), (0, "a"));
    assert!(!t.stutter);
    assert!(t.face.is_none());
    assert!(t.action.is_none());
    let t = it.next().expect("second token");
    assert_eq!((t.line, t.word.as_str()), (0, "b"));
    let t = it.next().expect("third token");
    assert_eq!((t.line, t.word.as_str()), (1, "c"));
    assert!(it.next().is_none());
}

#[test]
fn iterated_tokens_follow_the_dials() {
    let u = UwUify {
        words: RATE_ONE,
        faces: RATE_ONE,
        actions: RATE_ONE,
        stutters: RATE_ONE,
        catalog: CatalogChoice::Mixed,
        key: HashKey {
            k0: 69,
            k1: 420,
            k2: 96,
            k3: 84,
        },
    };
    let mut it = u.uwuify_iter("lorry");
    let t = it.next().expect("one token");
    assert_eq!(t.word, "wowwy");
    assert!(t.stutter);
    let face = t.face.expect("face index");
    assert!(face < catalog::face_count(CatalogChoice::Mixed));
    let action = t.action.expect("action index");
    assert!(action < catalog::action_count());
    assert!(it.next().is_none());
}
