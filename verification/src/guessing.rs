//! The core of the word-guessing game: picking a secret word and folding
//! a guess into the revealed letters.  Reading the word list from disk is
//! the caller's concern; drawing the random index goes through one
//! trusted call.

use vstd::prelude::*;

verus! {

/// Incorrect guesses a player is allowed before the game ends.
pub const NUM_INCORRECT_GUESSES: u32 = 5;

/// The letter shown for a position not yet revealed.
pub const HIDDEN_MARK: char = '-';

/// Relies on rand::Rng::gen_range over the thread-local generator: a
/// uniformly drawn index below `n`.  The draw is random, so nothing more
/// than its range is promised.
#[verifier::external_body]
fn random_below(n: usize) -> (r: usize)
    requires
        n > 0,
    ensures
        r < n,
{
    rand::Rng::gen_range(&mut rand::thread_rng(), 0..n)
}

/// Picks one word of the list at random.  An empty list holds nothing to
/// pick.
pub fn pick_word(words: &Vec<String>) -> (r: Option<String>)
    ensures
        r is Some <==> words@.len() > 0,
        r matches Some(w) ==> exists|i: int| 0 <= i < words@.len() && w@ == #[trigger] words@[i]@,
{
    if words.len() == 0 {
        return None;
    }
    let i = random_below(words.len());
    let w = words[i].clone();
    proof {
        assert(w@ == words@[i as int]@);
    }
    Some(w)
}

/// Whether the game is over: the guesses ran out or every letter is
/// revealed.
pub fn game_over(incorrect: u32, revealed: usize, secret_len: usize) -> (r: bool)
    ensures
        r == (incorrect >= NUM_INCORRECT_GUESSES || revealed == secret_len),
{
    incorrect >= NUM_INCORRECT_GUESSES || revealed == secret_len
}

/// Folds one guessed letter into the revealed letters: the first hidden
/// position holding the guess is revealed, and only that one.  A guess
/// that matches no hidden position changes nothing.
pub fn apply_guess(secret: &Vec<char>, revealed: &mut Vec<char>, guess: char) -> (hit: bool)
    requires
        old(revealed)@.len() == secret@.len(),
    ensures
        final(revealed)@.len() == secret@.len(),
        hit == exists|i: int|
            0 <= i < secret@.len() && old(revealed)@[i] == HIDDEN_MARK && #[trigger] secret@[i]
                == guess,
        hit ==> exists|i: int|
            {
                &&& 0 <= i < secret@.len()
                &&& old(revealed)@[i] == HIDDEN_MARK
                &&& #[trigger] secret@[i] == guess
                &&& forall|j: int|
                    0 <= j < i ==> !(old(revealed)@[j] == HIDDEN_MARK && #[trigger] secret@[j]
                        == guess)
                &&& final(revealed)@ == old(revealed)@.update(i, guess)
            },
        !hit ==> final(revealed)@ == old(revealed)@,
{
    let n = secret.len();
    let mut i: usize = 0;
    while i < n
        invariant
            i <= n,
            n == secret@.len(),
            revealed@ == old(revealed)@,
            revealed@.len() == secret@.len(),
            forall|j: int|
                0 <= j < i ==> !(revealed@[j] == HIDDEN_MARK && #[trigger] secret@[j] == guess),
        decreases n - i,
    {
        if revealed[i] == '-' && secret[i] == guess {
            revealed[i] = guess;
            proof {
                assert(secret@[i as int] == guess);
            }
            return true;
        }
        i += 1;
    }
    false
}

} // verus!
