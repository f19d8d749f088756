//! What the slash-command registry offers the autocomplete popup.

use vstd::prelude::*;

verus! {

/// A command — or, in `@file` mode, a file — the autocomplete popup offers.
#[derive(Debug, Clone, PartialEq, Eq)]
pub struct CommandSuggestion {
    pub name: String,
    pub description: String,
    pub usage: String,
}

} // verus!
