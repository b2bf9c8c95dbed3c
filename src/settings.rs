use vstd::prelude::*;

verus! {

/// How a wallpaper image is fitted onto an output.
#[derive(Clone, Copy, Debug, PartialEq, Eq, Structural)]
pub enum FillMode {
    Stretch,
    Fit,
    Fill,
    Center,
    Tile,
}

/// The wallpaper to render on one output, with its rendering options.
#[derive(Debug)]
pub struct WallpaperSettings {
    pub path: String,
    pub mode: FillMode,
}

/// The mathematical value of a settings record: image path and fill mode.
pub type SettingsView = (Seq<char>, FillMode);

impl View for WallpaperSettings {
    type V = SettingsView;

    open spec fn view(&self) -> SettingsView {
        (self.path@, self.mode)
    }
}

impl WallpaperSettings {
    pub fn new(path: String, mode: FillMode) -> (r: WallpaperSettings)
        ensures
            r@ == (path@, mode),
    {
        WallpaperSettings { path, mode }
    }

    /// A copy of the record, equal to it field by field.
    pub fn duplicate(&self) -> (r: WallpaperSettings)
        ensures
            r == *self,
            r@ == self@,
    {
        WallpaperSettings { path: self.path.clone(), mode: self.mode }
    }

    /// Whole-record equality.
    pub fn same_as(&self, other: &WallpaperSettings) -> (r: bool)
        ensures
            r == (self@ == other@),
    {
        self.path == other.path && self.mode == other.mode
    }
}

} // verus!
