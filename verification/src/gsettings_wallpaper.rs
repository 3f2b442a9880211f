//! Cinnamon's own wallpaper settings. Nothing here touches them: the user's
//! settings stay as they are, whatever is applied.

use vstd::prelude::*;

verus! {

/// The manager of Cinnamon's wallpaper settings. It holds no state.
#[derive(Debug, Clone, Copy, PartialEq, Eq, Structural)]
pub struct CinnamonWallpaperSettings {
}

impl CinnamonWallpaperSettings {
    /// Creates a new wallpaper settings manager.
    pub fn new() -> (s: Self)
        ensures
            s == (CinnamonWallpaperSettings {  }),
    {
        CinnamonWallpaperSettings {  }
    }

    /// Called before a video wallpaper is applied. It always succeeds and leaves
    /// the settings untouched.
    pub fn save_current_wallpaper(&self) -> (r: Result<(), String>)
        ensures
            r == Ok::<(), String>(()),
    {
        Ok(())
    }

    /// Called when a video wallpaper takes over, with or without a solid
    /// background. It always succeeds and leaves the settings untouched.
    pub fn disable_native_wallpaper_with_solid(&self, use_solid: bool) -> (r: Result<(), String>)
        ensures
            r == Ok::<(), String>(()),
    {
        Ok(())
    }
}

} // verus!
