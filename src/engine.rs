//! Per-file decisions of a run: fingerprint, index claim, destination, what to
//! do on disk, and the run's counters.

use vstd::prelude::*;
use crate::filter::{base_name, NameFilter};
use crate::fingerprint::{fingerprint, fingerprint_of};
use crate::index::{claim_step, Claim, DedupIndex, IndexError};
use crate::paths::{destination, destination_path, find_last, lemma_last_index_range, slice_of};
use crate::text::{chars_of, string_from_chars};

verus! {

/// The settings of one run, shared read-only by every worker.
pub struct RunConfig {
    pub src_dir: String,
    pub dst_dir: String,
    pub dry_run: bool,
    pub overwrite: bool,
    pub keep_copy: bool,
    pub name_prefix_checksum: bool,
}

impl RunConfig {
    /// The destination of the source file `path` when its fingerprint is `h`.
    pub open spec fn destination_of(&self, path: Seq<char>, h: u128) -> Seq<char> {
        destination(
            self.dst_dir@,
            self.src_dir@,
            path,
            if self.name_prefix_checksum {
                Some(h)
            } else {
                None
            },
        )
    }
}

/// What a file's content and destination mean for it.
pub struct Classified {
    /// The fingerprint of the file's content.
    pub fingerprint: u128,
    /// The content had not been seen before; this file is its first copy.
    pub is_new: bool,
    /// Where the file goes under the destination root.
    pub destination: String,
}

/// Claims the fingerprint `h` of the source file `path` in the index and
/// computes the file's destination.
pub fn claim_and_place(index: &mut DedupIndex, cfg: &RunConfig, path: &String, h: u128) -> (r:
    Result<Classified, IndexError>)
    ensures
        r matches Ok(c) ==> {
            &&& c.fingerprint == h
            &&& c.destination@ == cfg.destination_of(path@, h)
            &&& claim_step(old(index).entries(), h, path@, c.is_new, final(index).entries())
        },
{
    match index.insert_if_absent(h, path) {
        Ok(claim) => {
            let prefix = if cfg.name_prefix_checksum {
                Some(h)
            } else {
                None
            };
            let dest = destination_path(cfg.dst_dir.as_str(), cfg.src_dir.as_str(), path.as_str(), prefix);
            let is_new = match claim {
                Claim::Inserted => true,
                Claim::AlreadyPresent => false,
            };
            Ok(Classified { fingerprint: h, is_new, destination: dest })
        },
        Err(e) => Err(e),
    }
}

/// Fingerprints the content of the source file `path`, claims it in the index
/// and computes its destination.
pub fn classify(index: &mut DedupIndex, cfg: &RunConfig, path: &String, data: &[u8]) -> (r: Result<
    Classified,
    IndexError,
>)
    ensures
        r matches Ok(c) ==> {
            &&& c.fingerprint as nat == fingerprint_of(data@)
            &&& c.destination@ == cfg.destination_of(path@, c.fingerprint)
            &&& claim_step(
                old(index).entries(),
                c.fingerprint,
                path@,
                c.is_new,
                final(index).entries(),
            )
        },
{
    let h = fingerprint(data);
    claim_and_place(index, cfg, path, h)
}

/// What is done on disk for one file.
#[derive(Debug, Clone, Copy, PartialEq, Eq, Structural)]
pub enum CopyDecision {
    /// Write the content to the destination, replacing what may be there.
    Copy,
    /// Rename the existing destination aside, then write the content.
    BackupThenCopy,
    /// The destination exists and no policy allows replacing it.
    SkipExisting,
    /// The content was seen before.
    SkipDuplicate,
    /// A dry run that would have written the content.
    DryRunRecorded,
}

impl CopyDecision {
    /// The decision changes the destination tree.
    pub open spec fn mutates(self) -> bool {
        self == CopyDecision::Copy || self == CopyDecision::BackupThenCopy
    }

    /// The decision counts the file as new content written (or, in a dry run,
    /// as content that would be written).
    pub open spec fn counts_as_new(self) -> bool {
        self == CopyDecision::Copy || self == CopyDecision::BackupThenCopy || self
            == CopyDecision::DryRunRecorded
    }

    /// The decision counts the file as a duplicate.
    pub open spec fn counts_as_duplicate(self) -> bool {
        self == CopyDecision::SkipExisting || self == CopyDecision::SkipDuplicate
    }
}

/// The decision for a file: duplicates are skipped; an occupied destination
/// is backed up under keep-copy, replaced under overwrite, and otherwise left
/// alone; a dry run records what would be written without writing it.
pub open spec fn decision(
    is_new: bool,
    dest_exists: bool,
    dry_run: bool,
    overwrite: bool,
    keep_copy: bool,
) -> CopyDecision {
    if !is_new {
        CopyDecision::SkipDuplicate
    } else if dest_exists && !keep_copy && !overwrite {
        CopyDecision::SkipExisting
    } else if dry_run {
        CopyDecision::DryRunRecorded
    } else if dest_exists && keep_copy {
        CopyDecision::BackupThenCopy
    } else {
        CopyDecision::Copy
    }
}

/// Decides what to do on disk for a classified file whose destination does or
/// does not exist yet.
pub fn decide(cfg: &RunConfig, is_new: bool, dest_exists: bool) -> (r: CopyDecision)
    ensures
        r == decision(is_new, dest_exists, cfg.dry_run, cfg.overwrite, cfg.keep_copy),
{
    if !is_new {
        CopyDecision::SkipDuplicate
    } else if dest_exists && !cfg.keep_copy && !cfg.overwrite {
        CopyDecision::SkipExisting
    } else if cfg.dry_run {
        CopyDecision::DryRunRecorded
    } else if dest_exists && cfg.keep_copy {
        CopyDecision::BackupThenCopy
    } else {
        CopyDecision::Copy
    }
}

/// The base name of `path`.
pub fn file_name_of(path: &str) -> (r: String)
    ensures
        r@ == base_name(path@),
{
    let p = chars_of(path);
    let n = p.len();
    proof {
        lemma_last_index_range(p@, '/');
    }
    let start: usize = match find_last(&p, '/') {
        Some(k) => k + 1,
        None => 0,
    };
    let out = slice_of(&p, start, n);
    string_from_chars(&out)
}

/// Whether traversal keeps the file at `path`: every file without a filter,
/// else those whose base name the filter accepts.
pub open spec fn selected(filter: Option<&NameFilter>, path: Seq<char>) -> bool {
    match filter {
        None => true,
        Some(f) => f.accepts_name(base_name(path)),
    }
}

/// Decides whether traversal keeps the file at `path`.
pub fn select(filter: Option<&NameFilter>, path: &str) -> (r: bool)
    ensures
        r == selected(filter, path@),
{
    match filter {
        None => true,
        Some(f) => f.accepts(file_name_of(path).as_str()),
    }
}

} // verus!
