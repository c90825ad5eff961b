//! Queue family selection state for device setup.

use vstd::prelude::*;

verus! {

/// Queue family indices for graphics and presentation.
#[derive(Clone, Debug)]
pub struct QueueFamilyIndices {
    /// Graphics queue family index.
    pub graphics_family: Option<u32>,
    /// Presentation queue family index.
    pub present_family: Option<u32>,
}

impl QueueFamilyIndices {
    /// Whether all required queue families are found.
    pub fn is_complete(&self) -> (r: bool)
        ensures
            r == (self.graphics_family is Some && self.present_family is Some),
    {
        self.graphics_family.is_some() && self.present_family.is_some()
    }
}

impl Default for QueueFamilyIndices {
    /// No queue family found yet.
    fn default() -> (r: QueueFamilyIndices)
        ensures
            r.graphics_family is None,
            r.present_family is None,
    {
        QueueFamilyIndices { graphics_family: None, present_family: None }
    }
}

} // verus!
