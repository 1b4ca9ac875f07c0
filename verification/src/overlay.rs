use vstd::prelude::*;

verus! {

/// The slider's visibility after a toggle.
pub open spec fn toggled(shown: bool) -> bool {
    !shown
}

/// The controls drawn over the page: a close button, a settings button that
/// shows or hides the opacity slider, and the slider. `S` is the toolkit's
/// input state and `P` the painter; the library keeps them for the renderer
/// and decides what the controls do.
pub struct OverlayUI<S, P> {
    pub egui_state: S,
    pub painter: P,
    pub show_slider: bool,
}

impl<S, P> OverlayUI<S, P> {
    /// An overlay on the given input state and painter, with the slider
    /// hidden.
    pub fn new(egui_state: S, painter: P) -> (overlay: Self)
        ensures
            overlay.egui_state == egui_state,
            overlay.painter == painter,
            !overlay.show_slider,
    {
        OverlayUI { egui_state, painter, show_slider: false }
    }

    /// Shows the slider if it is hidden, hides it if it is shown.
    pub fn toggle_slider(&mut self)
        ensures
            final(self).show_slider == toggled(old(self).show_slider),
            final(self).show_slider != old(self).show_slider,
            final(self).egui_state == old(self).egui_state,
            final(self).painter == old(self).painter,
    {
        self.show_slider = !self.show_slider;
    }

    /// Applies the clicks of one frame: the close button asks to close the
    /// window (a request is never withdrawn), and the settings button toggles
    /// the slider. The slider of this frame is drawn by the state before the
    /// call.
    pub fn apply_clicks(&mut self, close_clicked: bool, gear_clicked: bool, close_requested: &mut bool)
        ensures
            *final(close_requested) == (*old(close_requested) || close_clicked),
            final(self).show_slider == (old(self).show_slider != gear_clicked),
            final(self).show_slider == if gear_clicked {
                toggled(old(self).show_slider)
            } else {
                old(self).show_slider
            },
            final(self).egui_state == old(self).egui_state,
            final(self).painter == old(self).painter,
    {
        if close_clicked {
            *close_requested = true;
        }
        if gear_clicked {
            self.toggle_slider();
        }
    }
}

/// Toggling the slider twice leaves it as it was.
pub proof fn lemma_toggle_twice(shown: bool)
    ensures
        toggled(toggled(shown)) == shown,
{
}

/// A toggle always changes the slider's visibility.
pub proof fn law_toggle_changes(shown: bool)
    ensures
        toggled(shown) != shown,
{
}

} // verus!
