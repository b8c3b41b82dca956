//! The states of the program and the order of a frame's system sets.

use vstd::prelude::*;

verus! {

#[derive(Clone, Copy, PartialEq, Eq, Structural, Debug, Hash)]
pub enum MainState {
    Loading,
    InGame,
}

#[derive(Clone, Copy, PartialEq, Eq, Structural, Debug, Hash)]
pub enum InGameState {
    Paused,
    Running,
}

/// The sets that a frame's systems fall into.
#[derive(Clone, Copy, PartialEq, Eq, Structural, Debug, Hash)]
pub enum FrameSystemsSet {
    World,
    Input,
    Player,
    Physics,
}

impl Default for MainState {
    /// The program starts by loading.
    fn default() -> (state: MainState)
        ensures
            state == MainState::Loading,
    {
        MainState::Loading
    }
}

impl Default for InGameState {
    /// The game starts running.
    fn default() -> (state: InGameState)
        ensures
            state == InGameState::Running,
    {
        InGameState::Running
    }
}

impl MainState {
    /// The state that follows once loading is done.
    pub fn after_loading() -> (state: MainState)
        ensures
            state == MainState::InGame,
    {
        MainState::InGame
    }
}

impl FrameSystemsSet {
    /// The place of the set within a frame: world, input, player, physics.
    pub open spec fn rank(self) -> nat {
        match self {
            FrameSystemsSet::World => 0,
            FrameSystemsSet::Input => 1,
            FrameSystemsSet::Player => 2,
            FrameSystemsSet::Physics => 3,
        }
    }

    pub fn position(&self) -> (p: u8)
        ensures
            p == self.rank(),
    {
        match self {
            FrameSystemsSet::World => 0,
            FrameSystemsSet::Input => 1,
            FrameSystemsSet::Player => 2,
            FrameSystemsSet::Physics => 3,
        }
    }

    /// Whether the systems of `self` run before those of `other`.
    pub fn runs_before(&self, other: &FrameSystemsSet) -> (r: bool)
        ensures
            r == (self.rank() < other.rank()),
    {
        self.position() < other.position()
    }

    /// The set that runs right after `self`, if one does.
    pub fn successor(&self) -> (next: Option<FrameSystemsSet>)
        ensures
            match next {
                Some(set) => set.rank() == self.rank() + 1,
                None => *self == FrameSystemsSet::Physics,
            },
    {
        match self {
            FrameSystemsSet::World => Some(FrameSystemsSet::Input),
            FrameSystemsSet::Input => Some(FrameSystemsSet::Player),
            FrameSystemsSet::Player => Some(FrameSystemsSet::Physics),
            FrameSystemsSet::Physics => None,
        }
    }
}

/// Whether the frame's system sets run: only in a game that is not paused.
pub fn systems_run(main: MainState, in_game: InGameState) -> (r: bool)
    ensures
        r == (main == MainState::InGame && in_game == InGameState::Running),
{
    main == MainState::InGame && in_game == InGameState::Running
}

} // verus!
