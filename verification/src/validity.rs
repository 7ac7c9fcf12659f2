//! The validity evaluator: whether a certificate is valid at an instant,
//! and the "N day(s)" text reported while it has not yet expired.

use vstd::prelude::*;
use vstd::arithmetic::div_mod::{lemma_div_is_ordered, lemma_div_pos_is_pos};
use crate::model::{days_until, expiration_text, valid_at};
use crate::text::day_string;

verus! {

/// Compute the validity flag and the time-to-expiration text for a
/// validity window `[not_before, not_after]` at the instant `now`.  The
/// flag is true exactly when `now` lies within the window; the text is a
/// whole-day count while `not_after` is strictly in the future, and empty
/// otherwise.
pub fn evaluate(not_before: i64, not_after: i64, now: i64) -> (r: (bool, String))
    ensures
        r.0 == valid_at(not_before as int, not_after as int, now as int),
        r.1@ == expiration_text(not_after as int, now as int),
{
    let is_valid = not_before <= now && now <= not_after;
    if not_after > now {
        let diff: u128 = (not_after as i128 - now as i128) as u128;
        proof {
            assert(diff == not_after - now);
            lemma_div_pos_is_pos(diff as int, 86400);
            lemma_div_is_ordered(diff as int, 0xffff_ffff_ffff_ffff, 86400);
        }
        let days: u64 = (diff / 86400) as u64;
        proof {
            assert(days == days_until(not_after as int, now as int));
        }
        (is_valid, day_string(days))
    } else {
        (is_valid, String::new())
    }
}

} // verus!
