//! One implementation under test: its name (derived from its directory), its
//! location, and its validated manifest.

use vstd::prelude::*;

use crate::config::{spec_supported_games, ImplementationConfig, TaskType};
use crate::game::Game;

verus! {

/// An implementation under test. Constructed once from its manifest and
/// immutable thereafter.
#[derive(Debug, Clone)]
pub struct Implementation {
    /// The name of the implementation's directory.
    pub name: String,
    /// The implementation's directory, as a path string.
    pub path: String,
    /// The validated manifest.
    pub config: ImplementationConfig,
}

impl Implementation {
    /// True when the implementation declares at least one game for `task`.
    pub fn supports_task(&self, task: TaskType) -> (r: bool)
        ensures
            r == (spec_supported_games(&self.config, task).len() > 0),
    {
        let games = self.config.supported_games_for_task(task);
        games.len() > 0
    }

    /// The games this implementation declares for `task`; an empty list means
    /// the task is unsupported.
    pub fn games_for_task(&self, task: TaskType) -> (r: Vec<Game>)
        ensures
            r@ == spec_supported_games(&self.config, task),
    {
        self.config.supported_games_for_task(task)
    }
}

} // verus!
