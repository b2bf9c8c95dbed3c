use vstd::prelude::*;

use crate::settings::WallpaperSettings;

verus! {

/// Pixel width and height.
#[derive(Clone, Copy, Debug, PartialEq, Eq, Structural)]
pub struct Dimensions {
    pub width: u32,
    pub height: u32,
}

/// What the compositor's configure event asks of the renderer.
#[derive(Clone, Copy, Debug, PartialEq, Eq, Structural)]
pub enum ConfigureAction {
    /// The size is unchanged: the surface is configured and may render.
    Ready,
    /// The render target must be resized to these dimensions first; report
    /// the outcome with `resize_finished`.
    Resize(Dimensions),
}

/// The geometry and readiness of one surface.
#[derive(Clone, Copy, Debug, PartialEq, Eq, Structural)]
pub struct SurfaceState {
    pub dimensions: Dimensions,
    pub scale: i32,
    pub transform: u32,
    /// The compositor has acknowledged a size and the render target has it.
    pub configured: bool,
    /// A resize that was asked for and has not finished yet.
    pub pending: Option<Dimensions>,
}

/// A freshly created surface: size unknown, not configured.
pub open spec fn initial_state(scale: i32) -> SurfaceState {
    SurfaceState { dimensions: Dimensions { width: 0, height: 0 }, scale, transform: 0, configured: false, pending: None }
}

/// A scale-factor change: the new state, and whether the render target must
/// be rescaled and resized.
pub open spec fn scale_step(s: SurfaceState, factor: i32) -> (SurfaceState, bool) {
    if s.scale == factor {
        (s, false)
    } else {
        (SurfaceState { scale: factor, ..s }, true)
    }
}

/// A transform change never asks for a resize.
pub open spec fn transform_step(s: SurfaceState, transform: u32) -> SurfaceState {
    SurfaceState { transform, ..s }
}

/// A configure event proposing `size`.
pub open spec fn configure_step(s: SurfaceState, size: Dimensions) -> (
    SurfaceState,
    ConfigureAction,
) {
    if s.dimensions == size {
        (SurfaceState { configured: true, pending: None, ..s }, ConfigureAction::Ready)
    } else {
        (SurfaceState { pending: Some(size), ..s }, ConfigureAction::Resize(size))
    }
}

/// The end of a resize that a configure event asked for. On failure the
/// surface keeps its previous state, and the next configure event tries again.
pub open spec fn resize_step(s: SurfaceState, ok: bool) -> SurfaceState {
    match s.pending {
        Some(size) => if ok {
            SurfaceState { dimensions: size, configured: true, pending: None, ..s }
        } else {
            SurfaceState { pending: None, ..s }
        },
        None => s,
    }
}

/// Rendering is allowed only once configured and with no resize under way.
pub open spec fn may_render(s: SurfaceState) -> bool {
    s.configured && s.pending is None
}

impl SurfaceState {
    pub fn new(scale: i32) -> (r: SurfaceState)
        ensures
            r == initial_state(scale),
    {
        SurfaceState { dimensions: Dimensions { width: 0, height: 0 }, scale, transform: 0, configured: false, pending: None }
    }

    /// Returns whether the render target must take the new scale and resize.
    pub fn scale_factor_changed(&mut self, factor: i32) -> (r: bool)
        ensures
            (*final(self), r) == scale_step(*old(self), factor),
    {
        if self.scale != factor {
            self.scale = factor;
            true
        } else {
            false
        }
    }

    pub fn transform_changed(&mut self, transform: u32)
        ensures
            *final(self) == transform_step(*old(self), transform),
    {
        self.transform = transform;
    }

    pub fn configure(&mut self, size: Dimensions) -> (r: ConfigureAction)
        ensures
            (*final(self), r) == configure_step(*old(self), size),
    {
        if self.dimensions == size {
            self.configured = true;
            self.pending = None;
            ConfigureAction::Ready
        } else {
            self.pending = Some(size);
            ConfigureAction::Resize(size)
        }
    }

    pub fn resize_finished(&mut self, ok: bool)
        ensures
            *final(self) == resize_step(*old(self), ok),
    {
        match self.pending {
            Some(size) => {
                if ok {
                    self.dimensions = size;
                    self.configured = true;
                }
                self.pending = None;
            },
            None => {},
        }
    }

    pub fn can_render(&self) -> (r: bool)
        ensures
            r == may_render(*self),
    {
        self.configured && self.pending.is_none()
    }
}

/// The rendering target of one live output.
#[derive(Debug)]
pub struct Surface {
    /// The output's name, the key into the wallpaper configuration.
    pub name: String,
    /// The compositor's identity of the output.
    pub output: u64,
    /// The handle of the layer surface drawn for the output.
    pub layer: u64,
    pub state: SurfaceState,
    /// The settings resolved for the output's name.
    pub settings: WallpaperSettings,
}

impl Surface {
    pub fn new(name: String, output: u64, layer: u64, scale: i32, settings: WallpaperSettings) -> (r:
        Surface)
        ensures
            r.name == name,
            r.output == output,
            r.layer == layer,
            r.state == initial_state(scale),
            r.settings == settings,
    {
        Surface { name, output, layer, state: SurfaceState::new(scale), settings }
    }

    /// The same surface with another state.
    pub fn with_state(&self, state: SurfaceState) -> (r: Surface)
        ensures
            r == (Surface { state, ..*self }),
    {
        Surface {
            name: self.name.clone(),
            output: self.output,
            layer: self.layer,
            state,
            settings: self.settings.duplicate(),
        }
    }
}

} // verus!
