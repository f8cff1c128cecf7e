//! Random passwords over a fixed alphabet.

use rand::rngs::OsRng;
use rand::Rng;
use vstd::prelude::*;

verus! {

/// The letters and digits that every generated password may hold.
pub const ALPHANUMERIC: &'static str =
    "ABCDEFGHIJKLMNOPQRSTUVWXYZabcdefghijklmnopqrstuvwxyz0123456789";

/// The symbols that join the alphabet on request.
pub const SPECIAL_CHARACTERS: &'static str = "!@#$%^&*()-_=+[]{};:,.<>?/|~";

/// The alphabet: letters and digits, followed by the symbols where they are
/// asked for.
pub open spec fn character_set(include_special: bool) -> Seq<char> {
    if include_special {
        ALPHANUMERIC@ + SPECIAL_CHARACTERS@
    } else {
        ALPHANUMERIC@
    }
}

/// Every character of `text` belongs to the alphabet.
pub open spec fn drawn_from(text: Seq<char>, include_special: bool) -> bool {
    forall|i: int| 0 <= i < text.len() ==> character_set(include_special).contains(#[trigger] text[i])
}

/// The alphabet has 62 characters without the symbols and 90 with them.
pub proof fn lemma_character_set_sizes()
    ensures
        character_set(false).len() == 62,
        character_set(true).len() == 90,
{
    reveal_strlit("ABCDEFGHIJKLMNOPQRSTUVWXYZabcdefghijklmnopqrstuvwxyz0123456789");
    reveal_strlit("!@#$%^&*()-_=+[]{};:,.<>?/|~");
}

/// No character occurs twice in the alphabet.
pub proof fn lemma_character_set_distinct()
    ensures
        character_set(false).no_duplicates(),
        character_set(true).no_duplicates(),
{
    reveal_strlit("ABCDEFGHIJKLMNOPQRSTUVWXYZabcdefghijklmnopqrstuvwxyz0123456789");
    reveal_strlit("!@#$%^&*()-_=+[]{};:,.<>?/|~");
}

/// Calls `Rng::gen_range` of the rand crate on `OsRng` with the range from 0
/// up to, not including, `bound`. The contract says only that the number lies
/// in that range; an empty range, on which the call panics, is left out. The
/// call also panics where the operating system cannot supply random bytes.
#[verifier::external_body]
fn random_index(bound: usize) -> (index: usize)
    requires
        bound > 0,
    ensures
        index < bound,
{
    OsRng.gen_range(0..bound)
}

/// Calls `String::push`. The contract says that the character is added at the
/// end and that nothing else changes.
#[verifier::external_body]
fn push_char(text: &mut String, c: char)
    ensures
        final(text)@ == old(text)@.push(c),
{
    text.push(c)
}

/// Adds the characters of `text` at the end of `characters`.
fn append_characters(characters: &mut Vec<char>, text: &str)
    ensures
        final(characters)@ == old(characters)@ + text@,
{
    let count = text.unicode_len();
    let mut i: usize = 0;
    while i < count
        invariant
            0 <= i <= count,
            count == text@.len(),
            characters@ == old(characters)@ + text@.subrange(0, i as int),
        decreases count - i,
    {
        characters.push(text.get_char(i));
        i += 1;
    }
    assert(text@.subrange(0, count as int) == text@);
}

/// The alphabet as a vector.
pub fn get_character_set(include_special: bool) -> (characters: Vec<char>)
    ensures
        characters@ == character_set(include_special),
{
    let mut characters: Vec<char> = Vec::new();
    append_characters(&mut characters, ALPHANUMERIC);
    if include_special {
        append_characters(&mut characters, SPECIAL_CHARACTERS);
    }
    characters
}

/// A password of `length` characters, each drawn from the alphabet by the
/// operating system's random source. Characters may repeat.
pub fn random_password(length: usize, include_special: bool) -> (password: String)
    ensures
        password@.len() == length,
        drawn_from(password@, include_special),
{
    let characters = get_character_set(include_special);
    proof {
        lemma_character_set_sizes();
    }
    let mut password = String::new();
    let mut i: usize = 0;
    while i < length
        invariant
            0 <= i <= length,
            password@.len() == i,
            characters@ == character_set(include_special),
            characters@.len() > 0,
            drawn_from(password@, include_special),
        decreases length - i,
    {
        let index = random_index(characters.len());
        push_char(&mut password, characters[index]);
        i += 1;
    }
    password
}

} // verus!
