//! The state behind the game's menus: the escape menu and the frame-rate
//! counter.

use vstd::prelude::*;

verus! {

/// The escape menu: whether it is open, and whether the player asked to quit.
pub struct Escape {
    pub is_open: bool,
    pub quit: bool,
}

impl Escape {
    /// A closed menu; no quit asked.
    pub fn closed() -> (r: Escape)
        ensures
            !r.is_open,
            !r.quit,
    {
        Escape { is_open: false, quit: false }
    }

    /// The escape key: opens the menu, or, when it is already open, asks to quit.
    pub fn press_escape(&mut self)
        ensures
            final(self).is_open,
            final(self).quit == (old(self).quit || old(self).is_open),
    {
        if self.is_open {
            self.quit = true;
        }
        self.is_open = true;
    }

    /// The menu's button: asks to quit.
    pub fn press_button(&mut self)
        ensures
            final(self).is_open == old(self).is_open,
            final(self).quit,
    {
        self.quit = true;
    }
}

/// Counts frames to show how many were drawn in the last whole second.
pub struct FpsCounter {
    pub short_time: i32,
    pub frames: u32,
    pub fps: u32,
}

impl FpsCounter {
    /// No frame counted yet.
    pub fn new() -> (r: FpsCounter)
        ensures
            r.short_time == 0,
            r.frames == 0,
            r.fps == 0,
    {
        FpsCounter { short_time: 0, frames: 0, fps: 0 }
    }

    /// Counts a frame drawn when the clock reads `whole_seconds` (the elapsed
    /// time, truncated): when a new second has begun, the frames counted
    /// (this one included) become the rate shown and counting restarts.
    pub fn update(&mut self, whole_seconds: i32)
        requires
            old(self).frames < u32::MAX,
        ensures
            whole_seconds != old(self).short_time ==> final(self).fps == old(self).frames + 1
                && final(self).frames == 0 && final(self).short_time == whole_seconds,
            whole_seconds == old(self).short_time ==> final(self).fps == old(self).fps && final(self).frames
                == old(self).frames + 1 && final(self).short_time == old(self).short_time,
    {
        self.frames = self.frames + 1;
        if whole_seconds != self.short_time {
            self.fps = self.frames;
            self.frames = 0;
            self.short_time = whole_seconds;
        }
    }
}

} // verus!
