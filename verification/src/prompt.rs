//! The decision behind a yes/no console prompt.

use vstd::prelude::*;

verus! {

/// Whether a trimmed, lowercased prompt answer counts as a "yes".
/// Exactly the answers `y` and `yes` are affirmative; anything else,
/// the empty answer included, is a refusal.
pub fn is_affirmative(answer: &String) -> (r: bool)
    ensures
        r == (answer@ == "y"@ || answer@ == "yes"@),
{
    let y = String::from_str("y");
    let yes = String::from_str("yes");
    answer.eq(&y) || answer.eq(&yes)
}

} // verus!
