//! Performance overlay state: visibility, screen corner, and the cached
//! text lines a renderer displays.

use vstd::prelude::*;

verus! {

/// The screen corner the overlay is anchored to.
#[derive(Debug, Clone, Copy, PartialEq, Eq, Structural)]
pub enum OverlayPosition {
    TopLeft,
    TopRight,
    BottomLeft,
    BottomRight,
}

/// Performance overlay that displays frame statistics.
pub struct PerformanceOverlay {
    /// Whether the overlay is visible.
    pub visible: bool,
    /// Which corner the overlay sits in.
    pub position: OverlayPosition,
    /// Cached display text lines.
    pub lines: Vec<String>,
}

impl PerformanceOverlay {
    /// A new overlay in the top-left corner with no cached lines.
    pub fn new(enable: bool) -> (o: PerformanceOverlay)
        ensures
            o.visible == enable,
            o.position == OverlayPosition::TopLeft,
            o.lines@.len() == 0,
    {
        PerformanceOverlay { visible: enable, position: OverlayPosition::TopLeft, lines: Vec::new() }
    }

    /// Flips visibility; nothing else changes.
    pub fn toggle(&mut self)
        ensures
            final(self).visible == !old(self).visible,
            final(self).position == old(self).position,
            final(self).lines == old(self).lines,
    {
        self.visible = !self.visible;
    }

    /// Whether the overlay is visible.
    pub fn is_visible(&self) -> (v: bool)
        ensures
            v == self.visible,
    {
        self.visible
    }

    /// Sets visibility; nothing else changes.
    pub fn set_visible(&mut self, visible: bool)
        ensures
            final(self).visible == visible,
            final(self).position == old(self).position,
            final(self).lines == old(self).lines,
    {
        self.visible = visible;
    }

    /// Sets the corner; nothing else changes.
    pub fn set_position(&mut self, position: OverlayPosition)
        ensures
            final(self).position == position,
            final(self).visible == old(self).visible,
            final(self).lines == old(self).lines,
    {
        self.position = position;
    }

    /// Which corner the overlay sits in.
    pub fn position(&self) -> (p: OverlayPosition)
        ensures
            p == self.position,
    {
        self.position
    }

    /// The cached lines to display.
    pub fn get_lines(&self) -> (r: &Vec<String>)
        ensures
            r == &self.lines,
    {
        &self.lines
    }
}

impl Default for PerformanceOverlay {
    /// Hidden, top-left, no cached lines.
    fn default() -> (o: PerformanceOverlay)
        ensures
            o.visible == false,
            o.position == OverlayPosition::TopLeft,
            o.lines@.len() == 0,
    {
        PerformanceOverlay::new(false)
    }
}

} // verus!
