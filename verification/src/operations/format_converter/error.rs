use vstd::prelude::*;

verus! {

/// An icon state whose delays do not fit the delays of the animation.
#[derive(Debug, PartialEq, Eq)]
pub struct InconsistentDelay {
    pub state: String,
    pub delays: Vec<u32>,
}

/// An icon state that has another number of directions than the rest.
#[derive(Debug, PartialEq, Eq)]
pub struct InconsistentDirs {
    pub state: String,
    pub dirs: u8,
}

/// Why an icon could not be packed back into an atlas.
#[derive(Debug, PartialEq, Eq)]
pub enum RestrorationError {
    /// Some states carry another prefix than the first one; their names,
    /// joined by ", ".
    InconsistentPrefixes(String),
    /// Some states would be lost; their suffixes, each in round brackets,
    /// joined by ", ".
    DroppedStates(String),
    InconsistentDelays { expected: Vec<u32>, problems: Vec<InconsistentDelay> },
    InconsistentDirs { expected: u8, problems: Vec<InconsistentDirs> },
}

} // verus!
