use vstd::prelude::*;
use std::sync::Arc;
use std::sync::Mutex;
use crate::capture::{capture_path, encoded, SaveError, SavedPlot, Screenshot, Timestamp};
use crate::measurements::{contents, Measurements};
use crate::sample::Sample;
use crate::shared::{another_handle, consistent, snapshot_shared};

verus! {

/// The state of the monitor between two frames: the shared store, the
/// values that the plot must always show, and the latch that asks for the
/// next frame to be saved.
#[verifier::reject_recursive_types(T)]
#[derive(Debug)]
pub struct App<T> {
    measurements: Arc<Mutex<Measurements<T>>>,
    include_y: Option<Vec<T>>,
    savable: bool,
    save_current_plot: bool,
}

impl<T> App<T> {
    /// The shared store that the monitor draws from.
    pub closed spec fn store(self) -> Arc<Mutex<Measurements<T>>> {
        self.measurements
    }

    /// The values that the plot must always show, if any were given.
    pub closed spec fn forced_y(self) -> Option<Seq<T>> {
        match self.include_y {
            Some(ys) => Some(ys@),
            None => None,
        }
    }

    /// Frames can be saved at all.
    pub closed spec fn can_save(self) -> bool {
        self.savable
    }

    /// The next completed frame is to be saved.
    pub closed spec fn capture_pending(self) -> bool {
        self.save_current_plot
    }
}

impl<T: Copy> App<T> {
    /// A monitor over a new, empty store with a window of `window_size`
    /// milliseconds. No capture is pending.
    pub fn new(window_size: i64, include_y: Option<Vec<T>>, savable: bool) -> (app: Self)
        ensures
            app.forced_y() == match include_y {
                Some(ys) => Some(ys@),
                None => None,
            },
            app.can_save() == savable,
            !app.capture_pending(),
    {
        App {
            measurements: Arc::new(Mutex::new(Measurements::new(window_size))),
            include_y,
            savable,
            save_current_plot: false,
        }
    }

    /// One more handle to the shared store, for the thread that appends.
    pub fn measurements(&self) -> (shared: Arc<Mutex<Measurements<T>>>)
        ensures
            shared == self.store(),
    {
        another_handle(&self.measurements)
    }

    /// The values that the plot must always show, if any were given.
    pub fn include_y(&self) -> (ys: &Option<Vec<T>>)
        ensures
            self.forced_y() == match *ys {
                Some(values) => Some(values@),
                None => None,
            },
    {
        &self.include_y
    }

    /// Whether frames can be saved, that is whether the save shortcut is
    /// to be watched for.
    pub fn savable(&self) -> (savable: bool)
        ensures
            savable == self.can_save(),
    {
        self.savable
    }

    /// What the plot shows on this tick: a copy of every channel, taken
    /// under the lock, or `None` where the lock is poisoned.
    pub fn lines(&self) -> (snapshot: Option<Vec<Vec<Sample<T>>>>)
        ensures
            snapshot matches Some(channels) ==> consistent(contents(channels)),
    {
        snapshot_shared(&self.measurements)
    }

    /// The save shortcut was pressed. Where frames can be saved, the next
    /// completed frame is marked for saving, and the result says that a
    /// screenshot of it must be requested. Elsewhere nothing changes.
    pub fn shortcut_pressed(&mut self) -> (request_screenshot: bool)
        ensures
            request_screenshot == old(self).can_save(),
            final(self).capture_pending() == (old(self).capture_pending() || old(self).can_save()),
            final(self).can_save() == old(self).can_save(),
            final(self).forced_y() == old(self).forced_y(),
            final(self).store() == old(self).store(),
    {
        if self.savable {
            self.save_current_plot = true;
        }
        self.savable
    }

    /// A frame was completed, with or without a screenshot. A pending
    /// capture is consumed by it: the result says whether the screenshot is
    /// to be saved, and nothing is pending afterwards.
    pub fn frame_completed(&mut self, screenshot_ready: bool) -> (save: bool)
        ensures
            save == (old(self).capture_pending() && screenshot_ready),
            !final(self).capture_pending(),
            final(self).can_save() == old(self).can_save(),
            final(self).forced_y() == old(self).forced_y(),
            final(self).store() == old(self).store(),
    {
        let pending = self.save_current_plot;
        self.save_current_plot = false;
        pending && screenshot_ready
    }

    /// Turns a captured frame into the file to write: its path, named after
    /// the time of the capture, and its bytes, the frame as a PNG image.
    pub fn save_current_plot(&self, frame: &Screenshot, taken: &Timestamp) -> (saved: Result<
        SavedPlot,
        SaveError,
    >)
        ensures
            match encoded(frame.width as nat, frame.height as nat, frame.rgba@) {
                Ok(bytes) => saved matches Ok(plot) && plot.png@ == bytes && plot.path@
                    == capture_path(*taken),
                Err(fault) => saved matches Err(reason) && reason == fault,
            },
    {
        match frame.encode() {
            Ok(png) => Ok(SavedPlot { path: taken.path(), png }),
            Err(fault) => Err(fault),
        }
    }
}

} // verus!
