use vstd::prelude::*;

verus! {

/// What the window manager asks of a browser engine.
pub trait BrowserEngine: Send {
    fn load_url(&mut self, url: &str);

    fn go_back(&mut self);

    fn go_forward(&mut self);

    fn reload(&mut self);

    fn stop(&mut self);

    fn resize(&mut self, width: u32, height: u32);
}

} // verus!
