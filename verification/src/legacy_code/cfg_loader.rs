use vstd::prelude::*;

verus! {

/// The size of the game window in pixels.
pub struct WindowDimensions {
    pub w: u32,
    pub h: u32,
}

/// The settings of the game window.
pub struct WindowSettings {
    pub title: String,
    pub dimensions: WindowDimensions,
    pub theme: String,
}

/// The resources the game loads at start: the default fragment and vertex
/// shader, the model and its texture.
pub struct GameSettings {
    pub default_fs: String,
    pub default_vs: String,
    pub model: String,
    pub texture: String,
}

/// All settings of the game, as its settings file holds them.
pub struct Settings {
    pub window: WindowSettings,
    pub game: GameSettings,
}

} // verus!
