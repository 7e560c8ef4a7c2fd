//! The best score ever reached, and its passage to and from storage.

use vstd::prelude::*;
use crate::decimal::{decode, encode, parsed, text_of, LoadError};
use crate::scoreboard::Scoreboard;

verus! {

/// The best score ever reached.
#[derive(Clone, Copy, Debug, PartialEq, Eq, Structural)]
pub struct HighScore {
    pub highscore: i128,
}

/// Whether the stored high score has been taken in.
#[derive(Clone, Copy, Debug, PartialEq, Eq, Structural)]
pub struct HighScoreLoaded(pub bool);

/// The greater of two scores.
pub open spec fn best(a: int, b: int) -> int {
    if a >= b {
        a
    } else {
        b
    }
}

/// Raises the high score to the score if the score is greater. The high
/// score never goes down.
pub fn update_highscore(score: &Scoreboard, highscore: &mut HighScore)
    ensures
        final(highscore).highscore == best(old(highscore).highscore as int, score.score as int),
        final(highscore).highscore >= old(highscore).highscore,
{
    if score.score > highscore.highscore {
        highscore.highscore = score.score;
    }
}

/// What taking in the stored text `contents` makes of the high score `high`
/// when `loaded` says whether that was done before: nothing if it was, or if
/// nothing is stored; else the number stored.
pub open spec fn loaded_value(high: i128, loaded: bool, contents: Option<Seq<u8>>) -> Result<
    i128,
    LoadError,
> {
    match contents {
        Some(text) if !loaded => parsed(text),
        _ => Ok(high),
    }
}

/// Takes in the stored high score, once. `contents` is what storage holds,
/// `None` if it holds nothing, which leaves the high score as it is. A text
/// that is no number is an error, and nothing changes.
pub fn load_high_score(
    highscore: &mut HighScore,
    loaded: &mut HighScoreLoaded,
    contents: Option<&[u8]>,
) -> (r: Result<(), LoadError>)
    ensures
        match loaded_value(
            old(highscore).highscore,
            old(loaded).0,
            match contents {
                Some(text) => Some(text@),
                None => None,
            },
        ) {
            Ok(v) => r.is_ok() && final(highscore).highscore == v && final(loaded).0,
            Err(e) => r == Err::<(), LoadError>(e) && *final(highscore) == *old(highscore)
                && *final(loaded) == *old(loaded),
        },
{
    if loaded.0 {
        return Ok(());
    }
    match contents {
        Some(text) => {
            match decode(text) {
                Ok(v) => {
                    highscore.highscore = v;
                },
                Err(e) => {
                    return Err(e);
                },
            }
        },
        None => {},
    }
    loaded.0 = true;
    Ok(())
}

/// What is to be written to storage: the score as text if it is greater
/// than the high score that storage holds, and nothing otherwise.
pub fn save_high_score(stored: &HighScore, score: &Scoreboard) -> (text: Option<Vec<u8>>)
    ensures
        text.is_some() == (score.score > stored.highscore),
        text.is_some() ==> text.unwrap()@ == text_of(score.score as int) && parsed(
            text.unwrap()@,
        ) == Ok::<i128, LoadError>(score.score),
{
    if score.score > stored.highscore {
        Some(encode(score.score))
    } else {
        None
    }
}

/// A score that is written, and then taken in by a game that has not
/// loaded yet, is the high score of that game, whatever it was before.
pub proof fn lemma_saved_score_loads(score: i128, fresh: i128)
    ensures
        loaded_value(fresh, false, Some(text_of(score as int))) == Ok::<i128, LoadError>(score),
{
    crate::decimal::lemma_round_trip(score);
}

} // verus!
