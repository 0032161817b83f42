//! Composing candidate passwords at random under a policy.

use vstd::prelude::*;
use crate::charset::class_of;
use crate::policy::{lemma_coverage_needs_room, GenerationPolicy};
use crate::text::string_of;

verus! {

/// How often strict mode draws a whole new candidate before it gives up.
pub const RETRY_CAP: usize = 100;

/// Why no password was generated.
#[derive(Clone, Copy, Debug, PartialEq, Eq, Structural)]
pub enum GenerationError {
    /// The policy switches no character class on, so there is nothing to
    /// draw from.
    EmptyPool,
    /// Strict mode drew `RETRY_CAP` candidates and none showed every class
    /// that is switched on.
    StrictModeExhausted,
}

/// The candidate that a list of picks selects from a pool: its `i`-th
/// character is the pool's character at the `i`-th pick.
pub open spec fn composed(pool: Seq<char>, picks: Seq<usize>) -> Seq<char> {
    Seq::new(picks.len(), |i: int| pool[picks[i] as int])
}

/// Whether every pick is a position of a pool of `bound` characters.
pub open spec fn picks_below(picks: Seq<usize>, bound: nat) -> bool {
    forall|i: int| 0 <= i < picks.len() ==> (#[trigger] picks[i]) < bound
}

/// Draws one position below `bound` with `rand`: `Rng::sample` on
/// `thread_rng()` with `Uniform::from(0..bound)`. The range must not be
/// empty, since `Uniform` refuses an empty range; the value drawn lies in it.
#[verifier::external_body]
fn random_below(bound: usize) -> (index: usize)
    requires
        bound > 0,
    ensures
        index < bound,
{
    rand::Rng::sample(&mut rand::thread_rng(), rand::distributions::Uniform::from(0..bound))
}

/// Draws `count` positions below `bound`, each on its own.
fn draw_picks(bound: usize, count: usize) -> (picks: Vec<usize>)
    requires
        bound > 0,
    ensures
        picks@.len() == count,
        picks_below(picks@, bound as nat),
{
    let mut picks: Vec<usize> = Vec::new();
    let mut i: usize = 0;
    while i < count
        invariant
            bound > 0,
            i <= count,
            picks@.len() == i,
            picks_below(picks@, bound as nat),
        decreases count - i,
    {
        let index = random_below(bound);
        picks.push(index);
        i += 1;
    }
    picks
}

/// The characters that `policy` admits, each exactly once, in ascending
/// order of their codes. The pool is empty exactly when no class is
/// switched on.
pub fn character_pool(policy: &GenerationPolicy) -> (pool: Vec<char>)
    ensures
        is_pool_of(*policy, pool@),
        pool@.no_duplicates(),
        pool@.len() == 0 <==> !policy.any_class_enabled(),
{
    let mut pool: Vec<char> = Vec::new();
    let mut code: u8 = 32;
    while code < 127
        invariant
            32 <= code <= 127,
            forall|c: char| pool@.contains(c) <==> (policy.admits(c) && (c as u32) < code),
            forall|i: int| 0 <= i < pool@.len() ==> (#[trigger] pool@[i] as u32) < code,
            forall|i: int, j: int|
                0 <= i < j < pool@.len() ==> (pool@[i] as u32) < (pool@[j] as u32),
        decreases 127 - code,
    {
        let c = code as char;
        if policy.admits_char(c) {
            let ghost before = pool@;
            pool.push(c);
            assert forall|d: char| pool@.contains(d) <==> (policy.admits(d) && (d as u32) < code
                + 1) by {
                if pool@.contains(d) {
                    let k = choose|k: int| 0 <= k < pool@.len() && pool@[k] == d;
                    if k < before.len() {
                        assert(before[k] == d);
                        assert(before.contains(d));
                    }
                }
                if policy.admits(d) && (d as u32) < code + 1 {
                    if (d as u32) < code {
                        assert(before.contains(d));
                        let k = choose|k: int| 0 <= k < before.len() && before[k] == d;
                        assert(pool@[k] == d);
                    } else {
                        assert(d == c);
                        assert(pool@[before.len() as int] == d);
                    }
                }
            }
        }
        code += 1;
    }
    proof {
        assert forall|c: char| pool@.contains(c) <==> policy.admits(c) by {
            if policy.admits(c) {
                assert(class_of(c) is Some);
                assert((c as u32) < 127);
            }
        }
        if policy.any_class_enabled() {
            let witness = if policy.include_uppercase {
                'A'
            } else if policy.include_lowercase {
                'a'
            } else if policy.include_numbers {
                '2'
            } else if policy.include_symbols {
                '!'
            } else {
                ' '
            };
            assert(policy.admits(witness));
            assert(pool@.contains(witness));
        } else {
            if pool@.len() > 0 {
                assert(pool@.contains(pool@[0]));
                assert(policy.admits(pool@[0]));
            }
        }
    }
    pool
}

/// The candidate that `picks` selects from `pool`, or `None` where a pick
/// is no position of the pool.
pub fn compose(pool: &Vec<char>, picks: &Vec<usize>) -> (candidate: Option<String>)
    ensures
        candidate is Some <==> picks_below(picks@, pool@.len()),
        candidate is Some ==> candidate->0@ == composed(pool@, picks@),
{
    let mut chars: Vec<char> = Vec::new();
    let mut i: usize = 0;
    while i < picks.len()
        invariant
            i <= picks.len(),
            chars@.len() == i,
            forall|k: int| 0 <= k < i ==> (#[trigger] picks@[k]) < pool@.len(),
            forall|k: int| 0 <= k < i ==> #[trigger] chars@[k] == pool@[picks@[k] as int],
        decreases picks.len() - i,
    {
        let pick = picks[i];
        if pick >= pool.len() {
            return None;
        }
        chars.push(pool[pick]);
        i += 1;
    }
    let text = string_of(&chars);
    assert(text@ =~= composed(pool@, picks@));
    Some(text)
}

/// What one candidate settles: `Some` of the final outcome, or `None`
/// where another candidate is to be drawn.
///
/// The candidate that `picks` selects from `pool` is the result where it
/// is well formed and, in strict mode, shows every class that is switched
/// on. Otherwise the candidate is thrown away whole: where `attempt`,
/// counted from zero, was the last of `RETRY_CAP`, generation has failed;
/// before that, nothing is settled yet.
pub open spec fn settled(
    policy: GenerationPolicy,
    pool: Seq<char>,
    picks: Seq<usize>,
    attempt: nat,
) -> Option<Result<Seq<char>, GenerationError>> {
    if picks_below(picks, pool.len()) && (!policy.strict || policy.covered_by(
        composed(pool, picks),
    )) {
        Some(Ok(composed(pool, picks)))
    } else if attempt + 1 >= RETRY_CAP {
        Some(Err(GenerationError::StrictModeExhausted))
    } else {
        None
    }
}

/// An outcome of generation with the password taken as its characters.
pub open spec fn outcome_view(outcome: Result<String, GenerationError>) -> Result<
    Seq<char>,
    GenerationError,
> {
    match outcome {
        Ok(candidate) => Ok(candidate@),
        Err(error) => Err(error),
    }
}

/// Whether `pool` is the pool of `policy`: the admitted characters, each
/// once, in ascending order of their codes.
pub open spec fn is_pool_of(policy: GenerationPolicy, pool: Seq<char>) -> bool {
    &&& forall|c: char|
        #![trigger pool.contains(c)]
        #![trigger policy.admits(c)]
        pool.contains(c) <==> policy.admits(c)
    &&& forall|i: int, j: int| 0 <= i < j < pool.len() ==> (pool[i] as u32) < (pool[j] as u32)
}

/// Decides what becomes of the candidate that `picks` selects from `pool`
/// on the attempt numbered `attempt`, counted from zero: the password, the
/// failure of generation, or `None` for another attempt.
pub fn settle(
    policy: &GenerationPolicy,
    pool: &Vec<char>,
    picks: &Vec<usize>,
    attempt: usize,
) -> (verdict: Option<Result<String, GenerationError>>)
    ensures
        match settled(*policy, pool@, picks@, attempt as nat) {
            Some(outcome) => verdict is Some && outcome_view(verdict->0) == outcome,
            None => verdict is None,
        },
{
    if let Some(candidate) = compose(pool, picks) {
        if !policy.strict || policy.is_covered_by(candidate.as_str()) {
            return Some(Ok(candidate));
        }
    }
    if attempt >= RETRY_CAP - 1 {
        Some(Err(GenerationError::StrictModeExhausted))
    } else {
        None
    }
}

/// Generates one password under `policy`.
///
/// The characters are drawn one by one, each uniformly from the pool of
/// admitted characters, and `settle` decides on each candidate. Without
/// strict mode the first candidate is the result. In strict mode a
/// candidate that lacks a class that is switched on is thrown away whole
/// and a new one is drawn, at most `RETRY_CAP` times.
///
/// The result is a password that complies with the policy, or an error:
/// `EmptyPool` exactly when no class is switched on, `StrictModeExhausted`
/// only in strict mode, and always where strict mode asks for more classes
/// than the password has characters. Without strict mode a policy with a
/// class switched on always gets its password. Whatever the result, where
/// a class is switched on it is what `settled` gives for some candidate
/// drawn from the pool on one of the `RETRY_CAP` attempts: a password is
/// the candidate itself, and generation fails only on a candidate that
/// fell short.
pub fn generate(policy: &GenerationPolicy) -> (outcome: Result<String, GenerationError>)
    ensures
        match outcome {
            Ok(candidate) => policy.any_class_enabled() && policy.complies(candidate@),
            Err(GenerationError::EmptyPool) => !policy.any_class_enabled(),
            Err(GenerationError::StrictModeExhausted) => policy.any_class_enabled()
                && policy.strict,
        },
        !policy.any_class_enabled() ==> outcome == Err::<String, GenerationError>(
            GenerationError::EmptyPool,
        ),
        policy.any_class_enabled() && !policy.strict ==> outcome is Ok,
        policy.any_class_enabled() && policy.strict && policy.length < policy.enabled_count()
            ==> outcome == Err::<String, GenerationError>(GenerationError::StrictModeExhausted),
        policy.any_class_enabled() ==> exists|pool: Seq<char>, picks: Seq<usize>, attempt: nat|
            #![trigger settled(*policy, pool, picks, attempt)]
            is_pool_of(*policy, pool) && picks.len() == policy.length && picks_below(
                picks,
                pool.len(),
            ) && attempt < RETRY_CAP && settled(*policy, pool, picks, attempt) == Some(
                outcome_view(outcome),
            ),
{
    let pool = character_pool(policy);
    if pool.len() == 0 {
        return Err(GenerationError::EmptyPool);
    }
    if policy.strict && policy.length < policy.count_enabled() {
        proof {
            let picks = Seq::new(policy.length as nat, |i: int| 0usize);
            let last = (RETRY_CAP - 1) as nat;
            if policy.covered_by(composed(pool@, picks)) {
                lemma_coverage_needs_room(*policy, composed(pool@, picks));
            }
            assert(settled(*policy, pool@, picks, last) == Some(
                Err::<Seq<char>, GenerationError>(GenerationError::StrictModeExhausted),
            ));
        }
        return Err(GenerationError::StrictModeExhausted);
    }
    let mut attempt: usize = 0;
    loop
        invariant
            attempt < RETRY_CAP,
            pool@.len() > 0,
            policy.any_class_enabled(),
            is_pool_of(*policy, pool@),
            !(policy.strict && policy.length < policy.enabled_count()),
        decreases RETRY_CAP - attempt,
    {
        let picks = draw_picks(pool.len(), policy.length);
        match settle(policy, &pool, &picks, attempt) {
            Some(outcome) => {
                proof {
                    assert(settled(*policy, pool@, picks@, attempt as nat) == Some(
                        outcome_view(outcome),
                    ));
                    if outcome is Ok {
                        let text = outcome->Ok_0@;
                        assert forall|i: int| 0 <= i < text.len() implies policy.admits(
                            #[trigger] text[i],
                        ) by {
                            assert(pool@.contains(pool@[picks@[i] as int]));
                        }
                    }
                }
                return outcome;
            },
            None => {
                attempt += 1;
            },
        }
    }
}

} // verus!
