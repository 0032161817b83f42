//! Rating a password's strength.
//!
//! A password is first taken apart by the `passwords` crate, which counts
//! its characters by class and measures how much of it is repetition. The
//! rating is then computed here, in whole points from 0 to 100, from those
//! counts alone.

use vstd::prelude::*;
use vstd::arithmetic::div_mod::{lemma_div_is_ordered, lemma_div_is_ordered_by_denominator};

verus! {

/// A password that is rated below this many points is weak.
pub const WEAK_THRESHOLD: u32 = 80;

/// The highest rating.
pub const MAX_POINTS: u32 = 100;

/// Points for each character, up to `FULL_LENGTH` characters.
pub const POINTS_PER_CHARACTER: u32 = 4;

/// The number of characters up to which each one earns
/// `POINTS_PER_CHARACTER` points; each one beyond earns one point, up to
/// twice this number.
pub const FULL_LENGTH: u32 = 16;

/// Points for each character class that occurs.
pub const POINTS_PER_CLASS: u32 = 9;

/// How heavily repetition weighs: the points taken off are this many times
/// the share of the password that is repetition.
pub const REPETITION_WEIGHT: u32 = 8;

/// What the `passwords` crate finds in a password. Control characters are
/// not counted anywhere.
#[derive(Clone, Copy, Debug, PartialEq, Eq, Structural)]
pub struct PasswordAnalysis {
    /// Characters in all.
    pub length: usize,
    /// Spaces.
    pub spaces: usize,
    /// Digits.
    pub numbers: usize,
    /// Small letters.
    pub lowercase: usize,
    /// Capital letters.
    pub uppercase: usize,
    /// Punctuation marks.
    pub symbols: usize,
    /// Characters of no class above.
    pub others: usize,
    /// Characters in runs of one character repeated.
    pub consecutive: usize,
    /// Characters that occur more than once, outside such runs.
    pub non_consecutive: usize,
    /// Characters in runs that go up or down by a constant step.
    pub progressive: usize,
}

/// The strength of a password, in whole points from 0 to `MAX_POINTS`.
#[derive(Clone, Copy, Debug, PartialEq, Eq, Structural)]
pub struct StrengthScore {
    pub points: u32,
}

/// What `passwords::analyzer::analyze` finds in a password. It depends on
/// the characters of the password alone.
pub uninterp spec fn analysis_of(password: Seq<char>) -> PasswordAnalysis;

/// The points that a password earns by its length.
pub open spec fn length_points(length: int) -> int {
    if length <= FULL_LENGTH {
        POINTS_PER_CHARACTER * length
    } else if length <= 2 * FULL_LENGTH {
        POINTS_PER_CHARACTER * FULL_LENGTH + (length - FULL_LENGTH)
    } else {
        POINTS_PER_CHARACTER * FULL_LENGTH + FULL_LENGTH
    }
}

/// One for a class that occurs, nothing for one that does not.
pub open spec fn shows(count: usize) -> int {
    if count > 0 {
        1
    } else {
        0
    }
}

impl PasswordAnalysis {
    /// How many of the five classes occur: small letters, capital letters,
    /// digits, punctuation marks, spaces.
    pub open spec fn classes_present(&self) -> int {
        shows(self.lowercase) + shows(self.uppercase) + shows(self.numbers) + shows(self.symbols)
            + shows(self.spaces)
    }

    /// How much of the password is repetition: characters in runs count
    /// twice, other repeated characters once.
    pub open spec fn repetition(&self) -> int {
        2 * self.consecutive + 2 * self.progressive + self.non_consecutive
    }

    /// The points taken off for repetition: its share of the password,
    /// times `REPETITION_WEIGHT`, rounded down.
    pub open spec fn penalty(&self) -> int {
        let length: int = if self.length == 0 {
            1
        } else {
            self.length as int
        };
        self.repetition() * REPETITION_WEIGHT / length
    }

    /// The points earned before anything is taken off.
    pub open spec fn merit(&self) -> int {
        length_points(self.length as int) + POINTS_PER_CLASS * self.classes_present()
    }

    /// The rating: the points earned less the points taken off, and neither
    /// below zero nor above `MAX_POINTS`.
    pub open spec fn rating(&self) -> int {
        let merit = self.merit();
        let penalty = self.penalty();
        if penalty >= merit {
            0
        } else if merit - penalty >= MAX_POINTS {
            MAX_POINTS as int
        } else {
            merit - penalty
        }
    }

    /// How many of the five classes occur.
    pub fn count_classes(&self) -> (count: u32)
        ensures
            count == self.classes_present(),
            count <= 5,
    {
        let mut count: u32 = 0;
        if self.lowercase > 0 {
            count += 1;
        }
        if self.uppercase > 0 {
            count += 1;
        }
        if self.numbers > 0 {
            count += 1;
        }
        if self.symbols > 0 {
            count += 1;
        }
        if self.spaces > 0 {
            count += 1;
        }
        count
    }

    /// The rating of a password with this analysis.
    pub fn rate(&self) -> (score: StrengthScore)
        ensures
            score.points == self.rating(),
            score.points <= MAX_POINTS,
    {
        let by_length: u32 = if self.length <= FULL_LENGTH as usize {
            POINTS_PER_CHARACTER * (self.length as u32)
        } else if self.length <= 2 * FULL_LENGTH as usize {
            POINTS_PER_CHARACTER * FULL_LENGTH + (self.length as u32 - FULL_LENGTH)
        } else {
            POINTS_PER_CHARACTER * FULL_LENGTH + FULL_LENGTH
        };
        let merit: u32 = by_length + POINTS_PER_CLASS * self.count_classes();
        let repetition: u128 = 2 * (self.consecutive as u128) + 2 * (self.progressive as u128)
            + (self.non_consecutive as u128);
        let length: u128 = if self.length == 0 {
            1
        } else {
            self.length as u128
        };
        assert(repetition * (REPETITION_WEIGHT as u128) <= 40 * 0xffff_ffff_ffff_ffff)
            by (nonlinear_arith)
            requires
                repetition <= 5 * 0xffff_ffff_ffff_ffff,
                REPETITION_WEIGHT == 8,
        ;
        let weighted: u128 = repetition * (REPETITION_WEIGHT as u128);
        let penalty: u128 = weighted / length;
        let points: u32 = if penalty >= merit as u128 {
            0
        } else if merit - (penalty as u32) >= MAX_POINTS {
            MAX_POINTS
        } else {
            merit - (penalty as u32)
        };
        StrengthScore { points }
    }
}

impl StrengthScore {
    /// Whether the password that was rated is weak.
    pub open spec fn weak(&self) -> bool {
        self.points < WEAK_THRESHOLD
    }

    /// Whether the password that was rated is weak: rated below
    /// `WEAK_THRESHOLD` points.
    pub fn is_weak(&self) -> (weak: bool)
        ensures
            weak == self.weak(),
    {
        self.points < WEAK_THRESHOLD
    }
}

/// Two scores of the same text are the same score.
pub proof fn lemma_same_text_same_score(
    password: Seq<char>,
    first: StrengthScore,
    second: StrengthScore,
)
    requires
        first.points == analysis_of(password).rating(),
        second.points == analysis_of(password).rating(),
    ensures
        first == second,
        first.weak() == second.weak(),
{
}

/// A longer password is never rated lower than a shorter one whose
/// analysis is the same in everything but the length.
pub proof fn lemma_longer_is_never_weaker(shorter: PasswordAnalysis, longer: PasswordAnalysis)
    requires
        shorter.length <= longer.length,
        longer == (PasswordAnalysis { length: longer.length, ..shorter }),
    ensures
        shorter.rating() <= longer.rating(),
{
    let weighted = shorter.repetition() * REPETITION_WEIGHT;
    let short_length: int = if shorter.length == 0 {
        1
    } else {
        shorter.length as int
    };
    let long_length: int = if longer.length == 0 {
        1
    } else {
        longer.length as int
    };
    assert(weighted >= 0) by (nonlinear_arith)
        requires
            weighted == shorter.repetition() * REPETITION_WEIGHT,
            shorter.repetition() >= 0,
    ;
    lemma_div_is_ordered_by_denominator(weighted, short_length, long_length);
    assert(longer.penalty() <= shorter.penalty());
    assert(length_points(shorter.length as int) <= length_points(longer.length as int));
}

/// A password that shows more classes is never rated lower than one of the
/// same length and with the same repetition.
pub proof fn lemma_more_classes_never_weaker(fewer: PasswordAnalysis, more: PasswordAnalysis)
    requires
        fewer.length == more.length,
        fewer.repetition() == more.repetition(),
        fewer.classes_present() <= more.classes_present(),
    ensures
        fewer.rating() <= more.rating(),
{
    assert(POINTS_PER_CLASS * fewer.classes_present() <= POINTS_PER_CLASS
        * more.classes_present()) by (nonlinear_arith)
        requires
            fewer.classes_present() <= more.classes_present(),
    ;
}

/// A password with more repetition is never rated higher than one of the
/// same length that shows as many classes.
pub proof fn lemma_more_repetition_never_stronger(
    plain: PasswordAnalysis,
    repetitive: PasswordAnalysis,
)
    requires
        plain.length == repetitive.length,
        plain.classes_present() == repetitive.classes_present(),
        plain.repetition() <= repetitive.repetition(),
    ensures
        repetitive.rating() <= plain.rating(),
{
    let length: int = if plain.length == 0 {
        1
    } else {
        plain.length as int
    };
    assert(plain.repetition() * REPETITION_WEIGHT <= repetitive.repetition() * REPETITION_WEIGHT)
        by (nonlinear_arith)
        requires
            plain.repetition() <= repetitive.repetition(),
    ;
    lemma_div_is_ordered(
        plain.repetition() * REPETITION_WEIGHT,
        repetitive.repetition() * REPETITION_WEIGHT,
        length,
    );
}

/// A password that shows a single class and has no more than `FULL_LENGTH`
/// characters is weak, however little it repeats.
pub proof fn lemma_short_single_class_is_weak(analysis: PasswordAnalysis)
    requires
        analysis.length <= FULL_LENGTH,
        analysis.classes_present() <= 1,
    ensures
        analysis.rating() < WEAK_THRESHOLD,
{
    let weighted = analysis.repetition() * REPETITION_WEIGHT;
    let length: int = if analysis.length == 0 {
        1
    } else {
        analysis.length as int
    };
    assert(weighted >= 0) by (nonlinear_arith)
        requires
            weighted == analysis.repetition() * REPETITION_WEIGHT,
            analysis.repetition() >= 0,
    ;
    lemma_div_is_ordered(0, weighted, length);
}

/// What the analysis counts characters by.
#[derive(Clone, Copy, Debug, PartialEq, Eq, Structural)]
pub enum Tally {
    /// Every character but the control characters.
    Characters,
    /// The space.
    Spaces,
    /// The digits `0` to `9`.
    Numbers,
    /// The letters `a` to `z`.
    Lowercase,
    /// The letters `A` to `Z`.
    Uppercase,
    /// The punctuation marks of ASCII.
    Symbols,
}

/// Whether `c` is counted under `tally`.
pub open spec fn tallied(c: char, tally: Tally) -> bool {
    let code = c as u32;
    match tally {
        Tally::Characters => !(code < 32 || 127 <= code <= 159),
        Tally::Spaces => code == 32,
        Tally::Numbers => 48 <= code <= 57,
        Tally::Lowercase => 97 <= code <= 122,
        Tally::Uppercase => 65 <= code <= 90,
        Tally::Symbols => 33 <= code <= 47 || 58 <= code <= 64 || 91 <= code <= 96 || 123
            <= code <= 126,
    }
}

/// How many characters of `text` are counted under `tally`.
pub open spec fn tally_of(text: Seq<char>, tally: Tally) -> nat
    decreases text.len(),
{
    if text.len() == 0 {
        0
    } else {
        let earlier = tally_of(text.drop_last(), tally);
        if tallied(text.last(), tally) {
            earlier + 1
        } else {
            earlier
        }
    }
}

/// Whether the length and the five class counts of `analysis` are those of
/// `text`.
pub open spec fn counts_agree(analysis: PasswordAnalysis, text: Seq<char>) -> bool {
    &&& analysis.length == tally_of(text, Tally::Characters)
    &&& analysis.spaces == tally_of(text, Tally::Spaces)
    &&& analysis.numbers == tally_of(text, Tally::Numbers)
    &&& analysis.lowercase == tally_of(text, Tally::Lowercase)
    &&& analysis.uppercase == tally_of(text, Tally::Uppercase)
    &&& analysis.symbols == tally_of(text, Tally::Symbols)
}

/// No tally exceeds the number of characters.
pub proof fn lemma_tally_bounded(text: Seq<char>, tally: Tally)
    ensures
        tally_of(text, tally) <= text.len(),
    decreases text.len(),
{
    if text.len() > 0 {
        lemma_tally_bounded(text.drop_last(), tally);
    }
}

/// A tally under which no character of the text is counted is zero.
pub proof fn lemma_tally_absent(text: Seq<char>, tally: Tally)
    requires
        forall|i: int| 0 <= i < text.len() ==> !tallied(#[trigger] text[i], tally),
    ensures
        tally_of(text, tally) == 0,
    decreases text.len(),
{
    if text.len() > 0 {
        lemma_tally_absent(text.drop_last(), tally);
    }
}

/// A password without characters is rated zero, and so is weak.
pub proof fn lemma_empty_text_scores_nothing(analysis: PasswordAnalysis, text: Seq<char>)
    requires
        counts_agree(analysis, text),
        text.len() == 0,
    ensures
        analysis.rating() == 0,
        analysis.rating() < WEAK_THRESHOLD,
{
    let weighted = analysis.repetition() * REPETITION_WEIGHT;
    assert(weighted >= 0) by (nonlinear_arith)
        requires
            weighted == analysis.repetition() * REPETITION_WEIGHT,
            analysis.repetition() >= 0,
    ;
    lemma_div_is_ordered(0, weighted, 1);
}

/// A password of no more than `FULL_LENGTH` characters, all of them of one
/// class, is weak: sixteen times the same letter, for one.
pub proof fn lemma_one_class_text_is_weak(
    analysis: PasswordAnalysis,
    text: Seq<char>,
    class: Tally,
)
    requires
        counts_agree(analysis, text),
        text.len() <= FULL_LENGTH,
        class != Tally::Characters,
        forall|i: int| 0 <= i < text.len() ==> tallied(#[trigger] text[i], class),
    ensures
        analysis.rating() < WEAK_THRESHOLD,
{
    lemma_tally_bounded(text, Tally::Characters);
    if class != Tally::Spaces {
        lemma_tally_absent(text, Tally::Spaces);
    }
    if class != Tally::Numbers {
        lemma_tally_absent(text, Tally::Numbers);
    }
    if class != Tally::Lowercase {
        lemma_tally_absent(text, Tally::Lowercase);
    }
    if class != Tally::Uppercase {
        lemma_tally_absent(text, Tally::Uppercase);
    }
    if class != Tally::Symbols {
        lemma_tally_absent(text, Tally::Symbols);
    }
    lemma_short_single_class_is_weak(analysis);
}

/// Takes `password` apart with `passwords::analyzer::analyze` and copies
/// what its getters report, field by field. The contract claims that the
/// result is a function of the password's characters, and that its length
/// and its five class counts are what the analysis counts them to be:
/// control characters are skipped, and every other character is counted in
/// the length and, by its code, under at most one class. Of the other
/// fields it claims nothing.
#[verifier::external_body]
fn analyze(password: &str) -> (analysis: PasswordAnalysis)
    ensures
        analysis == analysis_of(password@),
        counts_agree(analysis, password@),
{
    let found = passwords::analyzer::analyze(password);
    PasswordAnalysis {
        length: found.length(),
        spaces: found.spaces_count(),
        numbers: found.numbers_count(),
        lowercase: found.lowercase_letters_count(),
        uppercase: found.uppercase_letters_count(),
        symbols: found.symbols_count(),
        others: found.other_characters_count(),
        consecutive: found.consecutive_count(),
        non_consecutive: found.non_consecutive_count(),
        progressive: found.progressive_count(),
    }
}

/// The strength of `password`: the rating of its analysis, whose length
/// and class counts are those of the text. The same text always gets the
/// same score, and a password without characters gets none.
pub fn score(password: &str) -> (rating: StrengthScore)
    ensures
        rating.points == analysis_of(password@).rating(),
        rating.points <= MAX_POINTS,
        counts_agree(analysis_of(password@), password@),
        password@.len() == 0 ==> rating.points == 0,
{
    let analysis = analyze(password);
    proof {
        if password@.len() == 0 {
            lemma_empty_text_scores_nothing(analysis, password@);
        }
    }
    analysis.rate()
}

/// Whether `password` is weak: rated below `WEAK_THRESHOLD` points. A
/// password without characters is.
pub fn is_password_weak(password: &str) -> (weak: bool)
    ensures
        weak == (analysis_of(password@).rating() < WEAK_THRESHOLD),
        counts_agree(analysis_of(password@), password@),
        password@.len() == 0 ==> weak,
{
    score(password).is_weak()
}

} // verus!
