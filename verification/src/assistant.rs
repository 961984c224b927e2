//! The coding assistant that runs the sessions.

use vstd::prelude::*;

verus! {

/// The names of the coding assistant.
#[derive(Debug, Clone)]
pub struct Assistant {
    /// Its program. With a dot before it, the directory in which it keeps what it remembers.
    pub program: String,
    /// What it is called in short.
    pub name: String,
    /// What it is called in full.
    pub title: String,
}

} // verus!
