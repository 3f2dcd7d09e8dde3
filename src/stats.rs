//! Run counters, fed by the events that traversal and workers emit.

use vstd::prelude::*;
use crate::engine::CopyDecision;

verus! {

/// `a + b`, held at `u64::MAX` instead of wrapping.
pub open spec fn sat_add(a: u64, b: u64) -> u64 {
    if a + b <= u64::MAX {
        (a + b) as u64
    } else {
        u64::MAX
    }
}

fn add_sat(a: u64, b: u64) -> (r: u64)
    ensures
        r == sat_add(a, b),
{
    if a <= u64::MAX - b {
        a + b
    } else {
        u64::MAX
    }
}

/// A progress event of a run.
#[derive(Debug, Clone, Copy, PartialEq, Eq, Structural)]
pub enum ScanEvent {
    /// Traversal entered a directory.
    DirVisited,
    /// Traversal kept a file.
    FileFound,
    /// A worker finished with a file of the given length.
    FileProcessed(CopyDecision, u64),
}

/// The run's counters.
#[derive(Debug, Clone, Copy, PartialEq, Eq, Structural)]
pub struct RunStats {
    pub dirs_scanned: u64,
    pub files_scanned: u64,
    pub files_processed: u64,
    pub duplicates: u64,
    pub duplicate_bytes: u64,
    pub bytes_created: u64,
}

impl RunStats {
    /// The counters after one more event.
    pub open spec fn after(self, ev: ScanEvent) -> RunStats {
        match ev {
            ScanEvent::DirVisited => RunStats { dirs_scanned: sat_add(self.dirs_scanned, 1), ..self },
            ScanEvent::FileFound => RunStats { files_scanned: sat_add(self.files_scanned, 1), ..self },
            ScanEvent::FileProcessed(d, len) => RunStats {
                files_processed: sat_add(self.files_processed, 1),
                duplicates: if d.counts_as_duplicate() {
                    sat_add(self.duplicates, 1)
                } else {
                    self.duplicates
                },
                duplicate_bytes: if d.counts_as_duplicate() {
                    sat_add(self.duplicate_bytes, len)
                } else {
                    self.duplicate_bytes
                },
                bytes_created: if d.counts_as_new() {
                    sat_add(self.bytes_created, len)
                } else {
                    self.bytes_created
                },
                ..self
            },
        }
    }

    /// All counters at zero.
    pub fn new() -> (r: RunStats)
        ensures
            r == (RunStats {
                dirs_scanned: 0,
                files_scanned: 0,
                files_processed: 0,
                duplicates: 0,
                duplicate_bytes: 0,
                bytes_created: 0,
            }),
    {
        RunStats {
            dirs_scanned: 0,
            files_scanned: 0,
            files_processed: 0,
            duplicates: 0,
            duplicate_bytes: 0,
            bytes_created: 0,
        }
    }

    /// Counts one event.
    pub fn record(&mut self, ev: ScanEvent)
        ensures
            *final(self) == old(self).after(ev),
    {
        match ev {
            ScanEvent::DirVisited => {
                self.dirs_scanned = add_sat(self.dirs_scanned, 1);
            },
            ScanEvent::FileFound => {
                self.files_scanned = add_sat(self.files_scanned, 1);
            },
            ScanEvent::FileProcessed(d, len) => {
                self.files_processed = add_sat(self.files_processed, 1);
                match d {
                    CopyDecision::SkipExisting | CopyDecision::SkipDuplicate => {
                        self.duplicates = add_sat(self.duplicates, 1);
                        self.duplicate_bytes = add_sat(self.duplicate_bytes, len);
                    },
                    _ => {
                        self.bytes_created = add_sat(self.bytes_created, len);
                    },
                }
            },
        }
    }
}

} // verus!
