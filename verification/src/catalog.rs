//! The fixed catalogs of decorative strings.
//!
//! Faces come in three variants — plain ASCII, extended kaomoji, and the
//! two of them combined — and which variant is used is a configuration
//! choice.  Actions are a single ASCII catalog.  Every entry carries its
//! own trailing space, so a decoration never runs into the token after it.

use vstd::prelude::*;

verus! {

broadcast use vstd::string::group_string_axioms;

/// Which face catalog the engine draws from.
#[derive(Clone, Copy, PartialEq, Eq, Structural, Debug)]
pub enum CatalogChoice {
    Ascii,
    Extended,
    Mixed,
}

/// Number of faces in the ASCII catalog.
pub const ASCII_FACES: usize = 6;

/// Number of faces in the extended catalog.
pub const EXTENDED_FACES: usize = 6;

/// Number of entries in the action catalog.
pub const ACTION_COUNT: usize = 12;

/// Number of faces offered by a catalog choice.
pub open spec fn face_count_spec(c: CatalogChoice) -> usize {
    match c {
        CatalogChoice::Ascii => ASCII_FACES,
        CatalogChoice::Extended => EXTENDED_FACES,
        CatalogChoice::Mixed => (ASCII_FACES + EXTENDED_FACES) as usize,
    }
}

/// The face at a given index of the ASCII catalog.
pub open spec fn ascii_face_view(i: int) -> Seq<char> {
    if i == 0 {
        "OwO "@
    } else if i == 1 {
        "UwU "@
    } else if i == 2 {
        ">w< "@
    } else if i == 3 {
        "^w^ "@
    } else if i == 4 {
        ";;w;; "@
    } else {
        ":3 "@
    }
}

/// The face at a given index of the extended catalog.
pub open spec fn extended_face_view(i: int) -> Seq<char> {
    if i == 0 {
        "(・`ω´・) "@
    } else if i == 1 {
        "(˘ω˘) "@
    } else if i == 2 {
        "(U ﹏ U) "@
    } else if i == 3 {
        "(ꈍᴗꈍ) "@
    } else if i == 4 {
        "(*≧ω≦*) "@
    } else {
        "ʕʘ‿ʘʔ "@
    }
}

/// The face a catalog choice offers at a given index; the mixed catalog
/// lists the ASCII faces first and the extended faces after them.
pub open spec fn face_view(c: CatalogChoice, i: int) -> Seq<char> {
    match c {
        CatalogChoice::Ascii => ascii_face_view(i),
        CatalogChoice::Extended => extended_face_view(i),
        CatalogChoice::Mixed => if i < ASCII_FACES {
            ascii_face_view(i)
        } else {
            extended_face_view(i - ASCII_FACES)
        },
    }
}

/// The action at a given index of the action catalog.
pub open spec fn action_view(i: int) -> Seq<char> {
    if i == 0 {
        "*blushes* "@
    } else if i == 1 {
        "*whispers to self* "@
    } else if i == 2 {
        "*cries* "@
    } else if i == 3 {
        "*screams* "@
    } else if i == 4 {
        "*sweats* "@
    } else if i == 5 {
        "*twerks* "@
    } else if i == 6 {
        "*runs away* "@
    } else if i == 7 {
        "*screeches* "@
    } else if i == 8 {
        "*walks away* "@
    } else if i == 9 {
        "*looks at you* "@
    } else if i == 10 {
        "*huggles tightly* "@
    } else {
        "*boops your nose* "@
    }
}

/// No ASCII face contains a line break.
proof fn lemma_ascii_faces_no_newline()
    ensures
        forall|i: int|
            0 <= i < ASCII_FACES ==> !(#[trigger] ascii_face_view(i)).contains('\n'),
{
    reveal_strlit("OwO ");
    reveal_strlit("UwU ");
    reveal_strlit(">w< ");
    reveal_strlit("^w^ ");
    reveal_strlit(";;w;; ");
    reveal_strlit(":3 ");
    assert(!ascii_face_view(0).contains('\n'));
    assert(!ascii_face_view(1).contains('\n'));
    assert(!ascii_face_view(2).contains('\n'));
    assert(!ascii_face_view(3).contains('\n'));
    assert(!ascii_face_view(4).contains('\n'));
    assert(!ascii_face_view(5).contains('\n'));
}

/// No extended face contains a line break.
proof fn lemma_extended_faces_no_newline()
    ensures
        forall|i: int|
            0 <= i < EXTENDED_FACES ==> !(#[trigger] extended_face_view(i)).contains('\n'),
{
    reveal_strlit("(・`ω´・) ");
    reveal_strlit("(˘ω˘) ");
    reveal_strlit("(U ﹏ U) ");
    reveal_strlit("(ꈍᴗꈍ) ");
    reveal_strlit("(*≧ω≦*) ");
    reveal_strlit("ʕʘ‿ʘʔ ");
    assert(!extended_face_view(0).contains('\n'));
    assert(!extended_face_view(1).contains('\n'));
    assert(!extended_face_view(2).contains('\n'));
    assert(!extended_face_view(3).contains('\n'));
    assert(!extended_face_view(4).contains('\n'));
    assert(!extended_face_view(5).contains('\n'));
}

/// No face of any catalog contains a line break.
pub proof fn lemma_faces_no_newline()
    ensures
        forall|c: CatalogChoice, i: int|
            0 <= i < face_count_spec(c) ==> !(#[trigger] face_view(c, i)).contains('\n'),
{
    lemma_ascii_faces_no_newline();
    lemma_extended_faces_no_newline();
}

/// No action contains a line break.
pub proof fn lemma_actions_no_newline()
    ensures
        forall|i: int| 0 <= i < ACTION_COUNT ==> !(#[trigger] action_view(i)).contains('\n'),
{
    reveal_strlit("*blushes* ");
    reveal_strlit("*whispers to self* ");
    reveal_strlit("*cries* ");
    reveal_strlit("*screams* ");
    reveal_strlit("*sweats* ");
    reveal_strlit("*twerks* ");
    reveal_strlit("*runs away* ");
    reveal_strlit("*screeches* ");
    reveal_strlit("*walks away* ");
    reveal_strlit("*looks at you* ");
    reveal_strlit("*huggles tightly* ");
    reveal_strlit("*boops your nose* ");
    assert(!action_view(0).contains('\n'));
    assert(!action_view(1).contains('\n'));
    assert(!action_view(2).contains('\n'));
    assert(!action_view(3).contains('\n'));
    assert(!action_view(4).contains('\n'));
    assert(!action_view(5).contains('\n'));
    assert(!action_view(6).contains('\n'));
    assert(!action_view(7).contains('\n'));
    assert(!action_view(8).contains('\n'));
    assert(!action_view(9).contains('\n'));
    assert(!action_view(10).contains('\n'));
    assert(!action_view(11).contains('\n'));
}

/// Number of faces offered by a catalog choice.
pub fn face_count(c: CatalogChoice) -> (n: usize)
    ensures
        n == face_count_spec(c),
        n > 0,
{
    match c {
        CatalogChoice::Ascii => ASCII_FACES,
        CatalogChoice::Extended => EXTENDED_FACES,
        CatalogChoice::Mixed => ASCII_FACES + EXTENDED_FACES,
    }
}

/// Number of entries in the action catalog.
pub fn action_count() -> (n: usize)
    ensures
        n == ACTION_COUNT,
        n > 0,
{
    ACTION_COUNT
}

/// The face of the ASCII catalog at index `i`.
fn ascii_face(i: usize) -> (s: &'static str)
    requires
        i < ASCII_FACES,
    ensures
        s@ == ascii_face_view(i as int),
{
    if i == 0 {
        "OwO "
    } else if i == 1 {
        "UwU "
    } else if i == 2 {
        ">w< "
    } else if i == 3 {
        "^w^ "
    } else if i == 4 {
        ";;w;; "
    } else {
        ":3 "
    }
}

/// The face of the extended catalog at index `i`.
fn extended_face(i: usize) -> (s: &'static str)
    requires
        i < EXTENDED_FACES,
    ensures
        s@ == extended_face_view(i as int),
{
    if i == 0 {
        "(・`ω´・) "
    } else if i == 1 {
        "(˘ω˘) "
    } else if i == 2 {
        "(U ﹏ U) "
    } else if i == 3 {
        "(ꈍᴗꈍ) "
    } else if i == 4 {
        "(*≧ω≦*) "
    } else {
        "ʕʘ‿ʘʔ "
    }
}

/// The face a catalog choice offers at index `i`.
pub fn face(c: CatalogChoice, i: usize) -> (s: &'static str)
    requires
        i < face_count_spec(c),
    ensures
        s@ == face_view(c, i as int),
{
    match c {
        CatalogChoice::Ascii => ascii_face(i),
        CatalogChoice::Extended => extended_face(i),
        CatalogChoice::Mixed => if i < ASCII_FACES {
            ascii_face(i)
        } else {
            extended_face(i - ASCII_FACES)
        },
    }
}

/// The action catalog entry at index `i`.
pub fn action(i: usize) -> (s: &'static str)
    requires
        i < ACTION_COUNT,
    ensures
        s@ == action_view(i as int),
{
    if i == 0 {
        "*blushes* "
    } else if i == 1 {
        "*whispers to self* "
    } else if i == 2 {
        "*cries* "
    } else if i == 3 {
        "*screams* "
    } else if i == 4 {
        "*sweats* "
    } else if i == 5 {
        "*twerks* "
    } else if i == 6 {
        "*runs away* "
    } else if i == 7 {
        "*screeches* "
    } else if i == 8 {
        "*walks away* "
    } else if i == 9 {
        "*looks at you* "
    } else if i == 10 {
        "*huggles tightly* "
    } else {
        "*boops your nose* "
    }
}

} // verus!
