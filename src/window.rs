use vstd::prelude::*;

verus! {

/// Whether the main window is currently hidden (on platforms where the
/// user interface, not the window manager, hides it).
#[derive(Clone, Copy, Debug, PartialEq, Eq, Structural)]
pub struct WindowVisibility(pub bool);

impl WindowVisibility {
    /// Flips the hidden state and returns the new one.
    pub fn toggle(&mut self) -> (hidden: bool)
        ensures
            final(self).0 == !old(self).0,
            hidden == final(self).0,
    {
        self.0 = !self.0;
        self.0
    }
}

} // verus!
