//! Output capability traits and the manager that aggregates them for one
//! boot session.

use vstd::prelude::*;

verus! {

/// Capability set a video-output backend offers: querying and selecting a
/// video mode and writing framebuffer data. The exact operations are
/// firmware-protocol-dependent; every backend supplies its own behaviour,
/// there is no default.
pub trait VideoManager {
    /// Number of video modes the backend can present.
    fn mode_count(&self) -> usize;

    /// Width and height, in pixels, of the mode with the given index.
    fn mode_resolution(&self, mode: usize) -> (u32, u32);
}

/// Capability set of a text console: writing text and controlling the
/// cursor and attributes. Every backend supplies its own behaviour.
pub trait ConsoleOut {
    /// Write a piece of text to the console.
    fn write_text(&self, text: &str);

    /// Number of text columns of the current console geometry.
    fn columns(&self) -> usize;
}

/// Single aggregation point for the output capabilities of the current boot
/// session. It holds borrowed references only — one video backend, one
/// console backend — and never takes ownership, never allocates, and never
/// outlives the borrows it was built from.
pub struct PlatformManager<'a, V: VideoManager, C: ConsoleOut> {
    pub video_manager: &'a V,
    pub console_manager: &'a C,
}

impl<'a, V: VideoManager, C: ConsoleOut> PlatformManager<'a, V, C> {
    /// Pure aggregation: construction cannot fail, and the manager holds
    /// exactly the two references supplied.
    pub fn new(video_manager: &'a V, console_manager: &'a C) -> (r: Self)
        ensures
            r.video_manager == video_manager,
            r.console_manager == console_manager,
    {
        PlatformManager { video_manager, console_manager }
    }

    /// The video capability supplied at construction, unchanged.
    pub fn video(&self) -> (r: &'a V)
        ensures
            r == self.video_manager,
    {
        self.video_manager
    }

    /// The console capability supplied at construction, unchanged.
    pub fn console(&self) -> (r: &'a C)
        ensures
            r == self.console_manager,
    {
        self.console_manager
    }
}

} // verus!
