//! The character classes that passwords are composed of.

use vstd::prelude::*;
use crate::text::chars_of;

verus! {

/// A class of characters that a policy can switch on or off.
#[derive(Clone, Copy, Debug, PartialEq, Eq, Structural)]
pub enum CharClass {
    Uppercase,
    Lowercase,
    Digit,
    Symbol,
    Space,
}

pub open spec fn is_uppercase(c: char) -> bool {
    'A' <= c <= 'Z'
}

pub open spec fn is_lowercase(c: char) -> bool {
    'a' <= c <= 'z'
}

pub open spec fn is_digit(c: char) -> bool {
    '0' <= c <= '9'
}

/// The punctuation marks that may appear in a password. The vertical bar,
/// the backtick and the tilde are left out on purpose: the bar separates the
/// fields of a stored record.
pub open spec fn is_symbol(c: char) -> bool {
    ||| '!' <= c <= '/'
    ||| ':' <= c <= '@'
    ||| '[' <= c <= '_'
    ||| c == '{'
    ||| c == '}'
}

pub open spec fn is_space(c: char) -> bool {
    c == ' '
}

/// Characters that are easily mistaken for one another when read or typed:
/// zero and capital o, one, small l and capital i, five and capital s.
pub open spec fn is_similar(c: char) -> bool {
    c == '0' || c == 'O' || c == '1' || c == 'l' || c == 'I' || c == '5' || c == 'S'
}

/// Whether `c` belongs to `class`.
pub open spec fn in_class(class: CharClass, c: char) -> bool {
    match class {
        CharClass::Uppercase => is_uppercase(c),
        CharClass::Lowercase => is_lowercase(c),
        CharClass::Digit => is_digit(c),
        CharClass::Symbol => is_symbol(c),
        CharClass::Space => is_space(c),
    }
}

/// The class of `c`, if it has one.
pub open spec fn class_of(c: char) -> Option<CharClass> {
    if is_uppercase(c) {
        Some(CharClass::Uppercase)
    } else if is_lowercase(c) {
        Some(CharClass::Lowercase)
    } else if is_digit(c) {
        Some(CharClass::Digit)
    } else if is_symbol(c) {
        Some(CharClass::Symbol)
    } else if is_space(c) {
        Some(CharClass::Space)
    } else {
        None
    }
}

/// Whether some character of `text` belongs to `class`.
pub open spec fn has_class(text: Seq<char>, class: CharClass) -> bool {
    exists|i: int| 0 <= i < text.len() && in_class(class, #[trigger] text[i])
}

/// The class that `c` belongs to, or `None` for a character outside all
/// five classes.
pub fn classify(c: char) -> (class: Option<CharClass>)
    ensures
        class == class_of(c),
{
    if 'A' <= c && c <= 'Z' {
        Some(CharClass::Uppercase)
    } else if 'a' <= c && c <= 'z' {
        Some(CharClass::Lowercase)
    } else if '0' <= c && c <= '9' {
        Some(CharClass::Digit)
    } else if ('!' <= c && c <= '/') || (':' <= c && c <= '@') || ('[' <= c && c <= '_')
        || c == '{' || c == '}' {
        Some(CharClass::Symbol)
    } else if c == ' ' {
        Some(CharClass::Space)
    } else {
        None
    }
}

/// Whether `c` is one of the characters that look alike.
pub fn is_similar_char(c: char) -> (similar: bool)
    ensures
        similar == is_similar(c),
{
    c == '0' || c == 'O' || c == '1' || c == 'l' || c == 'I' || c == '5' || c == 'S'
}

/// Whether `c` belongs to `class`.
pub fn belongs_to(class: CharClass, c: char) -> (inside: bool)
    ensures
        inside == in_class(class, c),
{
    match classify(c) {
        Some(found) => found == class,
        None => false,
    }
}

/// Whether some character of `text` belongs to `class`.
pub fn contains_class(text: &str, class: CharClass) -> (found: bool)
    ensures
        found == has_class(text@, class),
{
    let chars = chars_of(text);
    let mut i: usize = 0;
    while i < chars.len()
        invariant
            i <= chars.len(),
            chars@ == text@,
            forall|k: int| 0 <= k < i ==> !in_class(class, #[trigger] chars@[k]),
        decreases chars.len() - i,
    {
        if belongs_to(class, chars[i]) {
            return true;
        }
        i += 1;
    }
    false
}

/// The classes are pairwise disjoint: a character belongs to the class that
/// `class_of` names and to no other.
pub proof fn lemma_classes_disjoint(class: CharClass, c: char)
    ensures
        in_class(class, c) <==> class_of(c) == Some(class),
{
}

} // verus!
