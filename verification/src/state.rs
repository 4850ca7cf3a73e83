//! The restart flag of a conversation.
//!
//! The flag is kept by a key-value store under the conversation's identifier.
//! The library sees what the store holds there as an `Option<bool>`: `None`
//! where nothing, or nothing that is a boolean, is stored.

use vstd::prelude::*;

verus! {

/// The flag that a stored value stands for: false where nothing is stored.
pub open spec fn restart_spec(stored: Option<bool>) -> bool {
    match stored {
        Some(flag) => flag,
        None => false,
    }
}

/// Reads the restart flag out of what the store holds for a conversation.
pub fn get_restart(stored: Option<bool>) -> (restart: bool)
    ensures
        restart == restart_spec(stored),
        stored is None ==> !restart,
{
    match stored {
        Some(flag) => flag,
        None => false,
    }
}

/// What the store holds for a conversation once `value` was persisted.
pub fn set_restart(value: bool) -> (stored: Option<bool>)
    ensures
        stored == Some(value),
        restart_spec(stored) == value,
{
    Some(value)
}

/// What the store holds once a restarted turn has succeeded: the flag, cleared.
pub fn clear_after_success() -> (stored: Option<bool>)
    ensures
        stored == Some(false),
        !restart_spec(stored),
{
    set_restart(false)
}

} // verus!
