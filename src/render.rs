//! Render quality presets handed to the external renderer.

use vstd::prelude::*;

verus! {

/// Render quality settings.
#[derive(Clone, Copy, Debug, PartialEq, Eq, Structural)]
pub enum RenderQuality {
    Low,
    Medium,
    High,
    Ultra,
}

impl RenderQuality {
    /// MSAA sample count for this quality.
    pub fn msaa_samples(&self) -> (r: u32)
        ensures
            r == match *self {
                RenderQuality::Low => 1u32,
                RenderQuality::Medium => 2,
                RenderQuality::High => 4,
                RenderQuality::Ultra => 8,
            },
    {
        match self {
            RenderQuality::Low => 1,
            RenderQuality::Medium => 2,
            RenderQuality::High => 4,
            RenderQuality::Ultra => 8,
        }
    }

    /// Anisotropic filtering level for this quality.
    pub fn anisotropy(&self) -> (r: u16)
        ensures
            r == match *self {
                RenderQuality::Low => 1u16,
                RenderQuality::Medium => 2,
                RenderQuality::High => 4,
                RenderQuality::Ultra => 16,
            },
    {
        match self {
            RenderQuality::Low => 1,
            RenderQuality::Medium => 2,
            RenderQuality::High => 4,
            RenderQuality::Ultra => 16,
        }
    }
}

impl Default for RenderQuality {
    fn default() -> (r: Self)
        ensures
            r == RenderQuality::High,
    {
        RenderQuality::High
    }
}

} // verus!
