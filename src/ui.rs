//! What the user interface shows of a conversion.
use vstd::prelude::*;
use vstd::string::StringExecFns;
use crate::driver::ProgressEvent;

verus! {

/// The status line and progress bar, changed only by applying events.
pub struct UiState {
    pub status: String,
    /// In hundredths of a percent.
    pub progress: u32,
}

impl UiState {
    /// An empty status and no progress.
    pub fn new() -> (r: UiState)
        ensures
            r.status@ == Seq::<char>::empty(),
            r.progress == 0,
    {
        UiState { status: String::new(), progress: 0 }
    }

    /// Shown when the user starts a conversion: progress back to zero.
    pub fn begin(&mut self)
        ensures
            final(self).status@ == "Starting conversion..."@,
            final(self).progress == 0,
    {
        self.status = String::from_str("Starting conversion...");
        self.progress = 0;
    }

    /// Applies one event: a status replaces the status text, a progress the
    /// progress; the other stays as it was.
    pub fn apply(&mut self, event: ProgressEvent)
        ensures
            match event {
                ProgressEvent::StatusChanged(s) => {
                    &&& final(self).status@ == s@
                    &&& final(self).progress == old(self).progress
                },
                ProgressEvent::ProgressChanged(p) => {
                    &&& final(self).progress == p
                    &&& final(self).status@ == old(self).status@
                },
            },
    {
        match event {
            ProgressEvent::StatusChanged(s) => {
                self.status = s;
            },
            ProgressEvent::ProgressChanged(p) => {
                self.progress = p;
            },
        }
    }
}

} // verus!
