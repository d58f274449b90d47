//! Plain data of the widgets: image dimensions, toggle events and
//! navigation-stack markers.
use vstd::prelude::*;

verus! {

/// Holds information about image dimensions for layout calculations.
#[derive(Clone, Copy, Debug, PartialEq, Eq, Structural)]
pub struct ImageLayoutData {
    /// Natural width of the image in pixels
    natural_width: u32,
    /// Natural height of the image in pixels
    natural_height: u32,
}

impl ImageLayoutData {
    /// Create new image layout data
    pub fn new(width: u32, height: u32) -> (r: Self)
        ensures
            r.width() == width,
            r.height() == height,
    {
        Self { natural_width: width, natural_height: height }
    }

    pub closed spec fn width(self) -> u32 {
        self.natural_width
    }

    pub closed spec fn height(self) -> u32 {
        self.natural_height
    }

    /// Natural width of the image in pixels.
    pub fn natural_width(&self) -> (r: u32)
        ensures
            r == self.width(),
    {
        self.natural_width
    }

    /// Natural height of the image in pixels.
    pub fn natural_height(&self) -> (r: u32)
        ensures
            r == self.height(),
    {
        self.natural_height
    }
}

/// Event fired when the toggle state changes
#[derive(Clone, Copy, Debug, PartialEq, Eq, Structural)]
pub struct ToggleChanged(pub bool);

impl ToggleChanged {
    /// The new state of the toggle.
    pub fn extract_inner(&self) -> (r: &bool)
        ensures
            *r == self.0,
    {
        &self.0
    }
}

/// Marker type for navigation stacks that use the item itself as the key.
#[derive(Clone, Copy, Debug)]
pub struct AutoNavigationKey;

/// Marker type for navigation stacks that use the item itself as the
/// destination view.
#[derive(Clone, Copy, Debug)]
pub struct AutoNavigationView;

/// Message that asks a navigation stack to re-read its current path
/// source.
#[derive(Clone, Copy, Debug)]
pub struct RefreshNavigationStackPath;

} // verus!
