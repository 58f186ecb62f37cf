//! The options of a run.

use vstd::prelude::*;

verus! {

/// What the user asked for. A run reads it and never changes it.
#[derive(Clone, Debug, PartialEq, Eq)]
pub struct Settings {
    /// Skip what cannot be listed or inspected instead of stopping.
    pub force: bool,
    /// Descend into the directories named in `paths`.
    pub recursive: bool,
    /// Say why a file was left alone.
    pub verbose: bool,
    /// The paths to work on, in the order given.
    pub paths: Vec<String>,
}

/// The mathematical value of [`Settings`].
pub struct SettingsView {
    pub force: bool,
    pub recursive: bool,
    pub verbose: bool,
    pub paths: Seq<Seq<char>>,
}

impl View for Settings {
    type V = SettingsView;

    open spec fn view(&self) -> SettingsView {
        SettingsView {
            force: self.force,
            recursive: self.recursive,
            verbose: self.verbose,
            paths: self.paths@.map_values(|path: String| path@),
        }
    }
}

} // verus!
