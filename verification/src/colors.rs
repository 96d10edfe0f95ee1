//! Render color configuration: an RGB triple for each role and a switch to
//! turn styling off entirely.

use vstd::prelude::*;

verus! {

/// Colors for the background, foreground and borders, and whether styling
/// is active at all.
pub struct ColorConfig {
    pub background: (u8, u8, u8),
    pub foreground: (u8, u8, u8),
    pub border: (u8, u8, u8),
    pub active: bool,
}

impl ColorConfig {
    /// The default scheme: white on black, black borders, styling on.
    pub fn new() -> (c: ColorConfig)
        ensures
            c.background == (0u8, 0u8, 0u8),
            c.foreground == (255u8, 255u8, 255u8),
            c.border == (0u8, 0u8, 0u8),
            c.active == true,
    {
        ColorConfig { background: (0, 0, 0), foreground: (255, 255, 255), border: (0, 0, 0), active: true }
    }

    /// Turns styling off.
    pub fn disable_style(&mut self)
        ensures
            final (self).active == false,
            final (self).background == old(self).background,
            final (self).foreground == old(self).foreground,
            final (self).border == old(self).border,
    {
        self.active = false;
    }

    /// Turns styling on.
    pub fn enable_style(&mut self)
        ensures
            final (self).active == true,
            final (self).background == old(self).background,
            final (self).foreground == old(self).foreground,
            final (self).border == old(self).border,
    {
        self.active = true;
    }

    /// Flips the styling switch.
    pub fn toggle_style(&mut self)
        ensures
            final (self).active == !old(self).active,
            final (self).background == old(self).background,
            final (self).foreground == old(self).foreground,
            final (self).border == old(self).border,
    {
        self.active = !self.active;
    }
}

} // verus!
