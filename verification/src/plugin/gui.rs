//! Plugin GUI capabilities and input descriptions.

use vstd::prelude::*;

verus! {

/// GUI backend types.
#[derive(Debug, Clone, Copy, PartialEq, Eq)]
pub enum GuiBackend {
    /// No GUI
    NoBackend,
    /// Native platform GUI
    Native,
    /// Cross-platform toolkit (e.g., GLFW, SDL)
    CrossPlatform,
    /// Web-based GUI
    Web,
}

/// GUI threading model.
#[derive(Debug, Clone, Copy, PartialEq, Eq)]
pub enum GuiThreadingModel {
    /// GUI must run on main thread
    MainThread,
    /// GUI can run on any thread
    AnyThread,
    /// GUI has its own thread management
    DedicatedThread,
}

/// GUI capabilities of a plugin.
#[derive(Debug, Clone)]
pub struct GuiCapabilities {
    pub backend: GuiBackend,
    pub threading_model: GuiThreadingModel,
    pub is_resizable: bool,
    pub supports_scaling: bool,
    pub supports_transparency: bool,
    pub minimum_size: Option<(u32, u32)>,
    pub maximum_size: Option<(u32, u32)>,
}

impl GuiCapabilities {
    /// Capabilities of a GUI on `backend`: main thread, fixed size, no
    /// scaling, no transparency, no size limits.
    pub fn new(backend: GuiBackend) -> (r: Self)
        ensures
            r.backend == backend,
            r.threading_model == GuiThreadingModel::MainThread,
            !r.is_resizable,
            !r.supports_scaling,
            !r.supports_transparency,
            r.minimum_size is None,
            r.maximum_size is None,
    {
        Self {
            backend,
            threading_model: GuiThreadingModel::MainThread,
            is_resizable: false,
            supports_scaling: false,
            supports_transparency: false,
            minimum_size: None,
            maximum_size: None,
        }
    }

    pub fn with_threading_model(self, model: GuiThreadingModel) -> (r: Self)
        ensures
            r == (GuiCapabilities { threading_model: model, ..self }),
    {
        let mut s = self;
        s.threading_model = model;
        s
    }

    pub fn with_resizable(self, resizable: bool) -> (r: Self)
        ensures
            r == (GuiCapabilities { is_resizable: resizable, ..self }),
    {
        let mut s = self;
        s.is_resizable = resizable;
        s
    }

    pub fn with_scaling(self, supports: bool) -> (r: Self)
        ensures
            r == (GuiCapabilities { supports_scaling: supports, ..self }),
    {
        let mut s = self;
        s.supports_scaling = supports;
        s
    }

    pub fn with_transparency(self, supports: bool) -> (r: Self)
        ensures
            r == (GuiCapabilities { supports_transparency: supports, ..self }),
    {
        let mut s = self;
        s.supports_transparency = supports;
        s
    }

    pub fn with_minimum_size(self, width: u32, height: u32) -> (r: Self)
        ensures
            r == (GuiCapabilities { minimum_size: Some((width, height)), ..self }),
    {
        let mut s = self;
        s.minimum_size = Some((width, height));
        s
    }

    pub fn with_maximum_size(self, width: u32, height: u32) -> (r: Self)
        ensures
            r == (GuiCapabilities { maximum_size: Some((width, height)), ..self }),
    {
        let mut s = self;
        s.maximum_size = Some((width, height));
        s
    }
}

/// Mouse buttons.
#[derive(Debug, Clone, Copy, PartialEq, Eq)]
pub enum MouseButton {
    Left,
    Right,
    Middle,
    X1,
    X2,
}

/// Keyboard modifier state.
#[derive(Debug, Clone, Copy, PartialEq, Eq)]
pub struct KeyModifiers {
    pub shift: bool,
    pub ctrl: bool,
    pub alt: bool,
    pub meta: bool,
}

impl KeyModifiers {
    /// No modifier held.
    pub fn new() -> (r: Self)
        ensures
            r == (KeyModifiers { shift: false, ctrl: false, alt: false, meta: false }),
    {
        Self { shift: false, ctrl: false, alt: false, meta: false }
    }

    pub fn with_shift(self) -> (r: Self)
        ensures
            r == (KeyModifiers { shift: true, ..self }),
    {
        let mut s = self;
        s.shift = true;
        s
    }

    pub fn with_ctrl(self) -> (r: Self)
        ensures
            r == (KeyModifiers { ctrl: true, ..self }),
    {
        let mut s = self;
        s.ctrl = true;
        s
    }

    pub fn with_alt(self) -> (r: Self)
        ensures
            r == (KeyModifiers { alt: true, ..self }),
    {
        let mut s = self;
        s.alt = true;
        s
    }

    pub fn with_meta(self) -> (r: Self)
        ensures
            r == (KeyModifiers { meta: true, ..self }),
    {
        let mut s = self;
        s.meta = true;
        s
    }
}

/// Rendering APIs.
#[derive(Debug, Clone, Copy, PartialEq, Eq)]
pub enum GuiRenderApi {
    OpenGL,
    Vulkan,
    Metal,
    Direct3D11,
    Direct3D12,
    Software,
}

} // verus!
