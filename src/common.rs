//! Small value types shared by the scene, the camera and the control panel.
use vstd::prelude::*;

verus! {

/// Whether keyboard and mouse drive the camera or the control panel.
#[derive(Debug, Clone, Copy, PartialEq, Eq, Structural)]
pub enum AppInteractionMode {
    CameraControl,
    GuiInteraction,
}

impl Default for AppInteractionMode {
    fn default() -> (r: AppInteractionMode)
        ensures
            r == AppInteractionMode::CameraControl,
    {
        AppInteractionMode::CameraControl
    }
}

impl AppInteractionMode {
    /// The other mode: the escape key switches between the two.
    pub fn toggled(self) -> (r: AppInteractionMode)
        ensures
            r != self,
    {
        match self {
            AppInteractionMode::CameraControl => AppInteractionMode::GuiInteraction,
            AppInteractionMode::GuiInteraction => AppInteractionMode::CameraControl,
        }
    }
}

/// The base model placed at every segment of the structure.
#[derive(Debug, Clone, Copy, PartialEq, Eq, Structural)]
pub enum ModelSelection {
    Cylinder,
    Branch,
    Leaf,
    Twig,
    Monkey,
}

impl Default for ModelSelection {
    fn default() -> (r: ModelSelection)
        ensures
            r == ModelSelection::Cylinder,
    {
        ModelSelection::Cylinder
    }
}

/// A direction in which the camera flies.
#[derive(Debug, Clone, Copy, PartialEq, Eq, Structural)]
pub enum MovementDirection {
    Forward,
    Backward,
    Left,
    Right,
    Up,
    Down,
}

/// How surfaces are lit.
#[derive(Debug, Clone, Copy, PartialEq, Eq, Structural)]
pub enum ShadingMode {
    Flat,
    Gouraud,
    Phong,
}

/// The code by which the shaders know a shading mode.
pub open spec fn shading_code(mode: ShadingMode) -> i32 {
    match mode {
        ShadingMode::Flat => 0,
        ShadingMode::Gouraud => 1,
        ShadingMode::Phong => 2,
    }
}

impl From<ShadingMode> for i32 {
    fn from(mode: ShadingMode) -> (r: i32) {
        match mode {
            ShadingMode::Flat => 0,
            ShadingMode::Gouraud => 1,
            ShadingMode::Phong => 2,
        }
    }
}

impl vstd::std_specs::convert::FromSpecImpl<ShadingMode> for i32 {
    open spec fn obeys_from_spec() -> bool {
        true
    }

    open spec fn from_spec(mode: ShadingMode) -> i32 {
        shading_code(mode)
    }
}

/// Where a model's color comes from: its material, or a blend of two colors
/// by height.
#[derive(Debug, Clone, Copy, PartialEq, Eq, Structural)]
pub enum ColorMode {
    Material,
    Interpolated,
}

/// The code by which the shaders know a color mode.
pub open spec fn color_code(mode: ColorMode) -> i32 {
    match mode {
        ColorMode::Material => 0,
        ColorMode::Interpolated => 1,
    }
}

impl From<ColorMode> for i32 {
    fn from(mode: ColorMode) -> (r: i32) {
        match mode {
            ColorMode::Material => 0,
            ColorMode::Interpolated => 1,
        }
    }
}

impl vstd::std_specs::convert::FromSpecImpl<ColorMode> for i32 {
    open spec fn obeys_from_spec() -> bool {
        true
    }

    open spec fn from_spec(mode: ColorMode) -> i32 {
        color_code(mode)
    }
}

} // verus!
