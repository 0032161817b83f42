//! The rules that a generated password has to follow.

use vstd::prelude::*;
use crate::charset::{
    class_of, classify, contains_class, has_class, in_class, is_similar, is_similar_char,
    CharClass,
};
use crate::text::chars_of;

verus! {

/// What a generated password is made of.
///
/// `length` is the number of characters. Each `include_*` switch admits one
/// character class. With `exclude_similar_characters` the look-alike
/// characters are taken out of every class. With `strict` every class that is
/// switched on must occur in the password at least once.
#[derive(Clone, Copy, Debug, PartialEq, Eq, Structural)]
pub struct GenerationPolicy {
    pub length: usize,
    pub include_lowercase: bool,
    pub include_numbers: bool,
    pub include_uppercase: bool,
    pub include_symbols: bool,
    pub include_spaces: bool,
    pub exclude_similar_characters: bool,
    pub strict: bool,
}

impl GenerationPolicy {
    /// Whether the policy switches `class` on.
    pub open spec fn enables(&self, class: CharClass) -> bool {
        match class {
            CharClass::Uppercase => self.include_uppercase,
            CharClass::Lowercase => self.include_lowercase,
            CharClass::Digit => self.include_numbers,
            CharClass::Symbol => self.include_symbols,
            CharClass::Space => self.include_spaces,
        }
    }

    /// Whether at least one class is switched on.
    pub open spec fn any_class_enabled(&self) -> bool {
        self.include_uppercase || self.include_lowercase || self.include_numbers
            || self.include_symbols || self.include_spaces
    }

    /// How many classes are switched on.
    pub open spec fn enabled_count(&self) -> nat {
        let upper: nat = if self.include_uppercase { 1 } else { 0 };
        let lower: nat = if self.include_lowercase { 1 } else { 0 };
        let digit: nat = if self.include_numbers { 1 } else { 0 };
        let symbol: nat = if self.include_symbols { 1 } else { 0 };
        let space: nat = if self.include_spaces { 1 } else { 0 };
        upper + lower + digit + symbol + space
    }

    /// Whether `c` may appear in a password: it belongs to a class that is
    /// switched on and is not excluded as a look-alike.
    pub open spec fn admits(&self, c: char) -> bool {
        &&& match class_of(c) {
            Some(class) => self.enables(class),
            None => false,
        }
        &&& !(self.exclude_similar_characters && is_similar(c))
    }

    /// Whether every class that is switched on occurs in `text`.
    pub open spec fn covered_by(&self, text: Seq<char>) -> bool {
        forall|class: CharClass| #[trigger] self.enables(class) ==> has_class(text, class)
    }

    /// Whether `text` is a password that the policy allows: of the right
    /// length, made of admitted characters only, and in strict mode showing
    /// every class that is switched on.
    pub open spec fn complies(&self, text: Seq<char>) -> bool {
        &&& text.len() == self.length
        &&& forall|i: int| 0 <= i < text.len() ==> self.admits(#[trigger] text[i])
        &&& self.strict ==> self.covered_by(text)
    }

    /// Whether the policy switches `class` on.
    pub fn is_enabled(&self, class: CharClass) -> (on: bool)
        ensures
            on == self.enables(class),
    {
        match class {
            CharClass::Uppercase => self.include_uppercase,
            CharClass::Lowercase => self.include_lowercase,
            CharClass::Digit => self.include_numbers,
            CharClass::Symbol => self.include_symbols,
            CharClass::Space => self.include_spaces,
        }
    }

    /// How many classes are switched on.
    pub fn count_enabled(&self) -> (count: usize)
        ensures
            count == self.enabled_count(),
            count > 0 <==> self.any_class_enabled(),
    {
        let mut count: usize = 0;
        if self.include_uppercase {
            count += 1;
        }
        if self.include_lowercase {
            count += 1;
        }
        if self.include_numbers {
            count += 1;
        }
        if self.include_symbols {
            count += 1;
        }
        if self.include_spaces {
            count += 1;
        }
        count
    }

    /// Whether `c` may appear in a password made under this policy.
    pub fn admits_char(&self, c: char) -> (admitted: bool)
        ensures
            admitted == self.admits(c),
    {
        match classify(c) {
            Some(class) => self.is_enabled(class) && !(self.exclude_similar_characters
                && is_similar_char(c)),
            None => false,
        }
    }

    /// Whether every class that is switched on occurs in `text`.
    pub fn is_covered_by(&self, text: &str) -> (covered: bool)
        ensures
            covered == self.covered_by(text@),
    {
        let covered = (!self.include_uppercase || contains_class(text, CharClass::Uppercase))
            && (!self.include_lowercase || contains_class(text, CharClass::Lowercase))
            && (!self.include_numbers || contains_class(text, CharClass::Digit))
            && (!self.include_symbols || contains_class(text, CharClass::Symbol))
            && (!self.include_spaces || contains_class(text, CharClass::Space));
        proof {
            if self.covered_by(text@) {
                assert(self.enables(CharClass::Uppercase) ==> has_class(
                    text@,
                    CharClass::Uppercase,
                ));
                assert(self.enables(CharClass::Lowercase) ==> has_class(
                    text@,
                    CharClass::Lowercase,
                ));
                assert(self.enables(CharClass::Digit) ==> has_class(text@, CharClass::Digit));
                assert(self.enables(CharClass::Symbol) ==> has_class(text@, CharClass::Symbol));
                assert(self.enables(CharClass::Space) ==> has_class(text@, CharClass::Space));
            }
        }
        covered
    }

    /// Whether `text` is a password that the policy allows.
    pub fn complies_with(&self, text: &str) -> (allowed: bool)
        ensures
            allowed == self.complies(text@),
    {
        let chars = chars_of(text);
        if chars.len() != self.length {
            return false;
        }
        let mut i: usize = 0;
        while i < chars.len()
            invariant
                i <= chars.len(),
                chars@ == text@,
                forall|k: int| 0 <= k < i ==> self.admits(#[trigger] chars@[k]),
            decreases chars.len() - i,
        {
            if !self.admits_char(chars[i]) {
                return false;
            }
            i += 1;
        }
        !self.strict || self.is_covered_by(text)
    }
}

/// A password that complies with a policy that excludes the look-alike
/// characters holds none of them, and whatever the policy, every character
/// of it belongs to a class that is switched on.
pub proof fn lemma_compliant_characters(policy: GenerationPolicy, text: Seq<char>, i: int)
    requires
        policy.complies(text),
        0 <= i < text.len(),
    ensures
        class_of(text[i]) is Some,
        policy.enables(class_of(text[i])->0),
        policy.exclude_similar_characters ==> !is_similar(text[i]),
{
    assert(policy.admits(text[i]));
}

/// A password that complies with a strict policy shows every class that
/// is switched on.
pub proof fn lemma_strict_shows_every_class(
    policy: GenerationPolicy,
    text: Seq<char>,
    class: CharClass,
)
    requires
        policy.complies(text),
        policy.strict,
        policy.enables(class),
    ensures
        has_class(text, class),
{
}

/// A position of `text` that holds a character of `class`, where there is one.
pub open spec fn position_of(text: Seq<char>, class: CharClass) -> int {
    choose|i: int| 0 <= i < text.len() && in_class(class, #[trigger] text[i])
}

/// A text that shows every class that is switched on has at least as many
/// characters as there are such classes, since no character belongs to two
/// classes.
pub proof fn lemma_coverage_needs_room(policy: GenerationPolicy, text: Seq<char>)
    requires
        policy.covered_by(text),
    ensures
        text.len() >= policy.enabled_count(),
{
    let upper = position_of(text, CharClass::Uppercase);
    let lower = position_of(text, CharClass::Lowercase);
    let digit = position_of(text, CharClass::Digit);
    let symbol = position_of(text, CharClass::Symbol);
    let space = position_of(text, CharClass::Space);
    assert(policy.enables(CharClass::Uppercase) ==> has_class(text, CharClass::Uppercase));
    assert(policy.enables(CharClass::Lowercase) ==> has_class(text, CharClass::Lowercase));
    assert(policy.enables(CharClass::Digit) ==> has_class(text, CharClass::Digit));
    assert(policy.enables(CharClass::Symbol) ==> has_class(text, CharClass::Symbol));
    assert(policy.enables(CharClass::Space) ==> has_class(text, CharClass::Space));
}

} // verus!
