//! Random password composition from user-selected character classes.
//!
//! The composer assembles a combined alphabet from the enabled classes
//! (uppercase, lowercase, numbers, symbols), guarantees that every enabled
//! class contributes at least one character, fills the remaining positions
//! uniformly from the combined alphabet, and shuffles the result.

use vstd::prelude::*;

pub mod app_state;
pub mod composer;

pub use app_state::AppState;
pub use composer::Characters;
pub use composer::ComplexPasswordGenerator;
pub use composer::ComposeError;
pub use composer::PasswordGenerator;

verus! {

/// A sequence contains at least one character drawn from `alpha`.
pub open spec fn contains_char_from(s: Seq<char>, alpha: Seq<char>) -> bool {
    exists|i: int| 0 <= i < s.len() && alpha.contains(s[i])
}

} // verus!
