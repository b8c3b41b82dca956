//! Which parts the game is assembled from, and in which order.

use vstd::prelude::*;

verus! {

/// A part of the game's logic.
#[derive(Clone, Copy, PartialEq, Eq, Structural, Debug)]
pub enum GamePlugin {
    States,
    Physics,
    Networking,
    Ship,
    LogDiagnostics,
}

/// A part of the game's presentation.
#[derive(Clone, Copy, PartialEq, Eq, Structural, Debug)]
pub enum VisualPlugin {
    RenderingSetup,
    Ship,
    Input,
    EditorInspector,
}

/// The networking part of the game's logic.
#[derive(Clone, Copy, PartialEq, Eq, Structural, Debug)]
pub struct NetworkingPlugin;

/// The parts of the game's logic.
#[derive(Clone, Copy, PartialEq, Eq, Structural, Debug)]
pub struct GamePluginGroup;

/// The parts of the game's presentation.
#[derive(Clone, Copy, PartialEq, Eq, Structural, Debug)]
pub struct VisualPlugins;

impl NetworkingPlugin {
    /// The part of the game's logic that this is.
    pub fn part(&self) -> (part: GamePlugin)
        ensures
            part == GamePlugin::Networking,
    {
        GamePlugin::Networking
    }
}

impl GamePluginGroup {
    /// The members, in the order in which they are added.
    pub open spec fn members() -> Seq<GamePlugin> {
        seq![
            GamePlugin::States,
            GamePlugin::Physics,
            GamePlugin::Networking,
            GamePlugin::Ship,
            GamePlugin::LogDiagnostics,
        ]
    }

    pub fn build(&self) -> (plugins: Vec<GamePlugin>)
        ensures
            plugins@ == Self::members(),
    {
        let mut plugins: Vec<GamePlugin> = Vec::new();
        plugins.push(GamePlugin::States);
        plugins.push(GamePlugin::Physics);
        plugins.push(NetworkingPlugin.part());
        plugins.push(GamePlugin::Ship);
        plugins.push(GamePlugin::LogDiagnostics);
        assert(plugins@ =~= Self::members());
        plugins
    }
}

impl VisualPlugins {
    /// The members, in the order in which they are added.
    pub open spec fn members() -> Seq<VisualPlugin> {
        seq![
            VisualPlugin::RenderingSetup,
            VisualPlugin::Ship,
            VisualPlugin::Input,
            VisualPlugin::EditorInspector,
        ]
    }

    pub fn build(&self) -> (plugins: Vec<VisualPlugin>)
        ensures
            plugins@ == Self::members(),
    {
        let mut plugins: Vec<VisualPlugin> = Vec::new();
        plugins.push(VisualPlugin::RenderingSetup);
        plugins.push(VisualPlugin::Ship);
        plugins.push(VisualPlugin::Input);
        plugins.push(VisualPlugin::EditorInspector);
        assert(plugins@ =~= Self::members());
        plugins
    }
}

} // verus!
