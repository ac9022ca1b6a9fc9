//! Totals, options and reports: what a scan counts and how it treats errors.

use vstd::prelude::*;

use crate::human::{human_bytes, human_bytes_text};

verus! {

/// Aggregate disk usage for a directory tree.
#[derive(Debug, Clone, Copy, PartialEq, Eq, Structural)]
pub struct DiskUsage {
    pub bytes: u64,
    pub files: u64,
    pub dirs: u64,
}

impl Default for DiskUsage {
    fn default() -> (r: Self)
        ensures
            r == DiskUsage::zero(),
    {
        DiskUsage { bytes: 0, files: 0, dirs: 0 }
    }
}

impl DiskUsage {
    /// Nothing counted yet.
    pub open spec fn zero() -> DiskUsage {
        DiskUsage { bytes: 0, files: 0, dirs: 0 }
    }

    /// Whether one more file of `bytes` bytes can be counted without a
    /// counter overflowing.
    pub open spec fn can_add_file(self, bytes: u64) -> bool {
        self.bytes + bytes <= u64::MAX && self.files < u64::MAX
    }

    /// The usage after counting one more file of `bytes` bytes.
    pub open spec fn with_file(self, bytes: u64) -> DiskUsage {
        DiskUsage { bytes: (self.bytes + bytes) as u64, files: (self.files + 1) as u64, ..self }
    }

    /// Whether one more directory can be counted without overflow.
    pub open spec fn can_add_dir(self) -> bool {
        self.dirs < u64::MAX
    }

    /// The usage after counting one more directory.
    pub open spec fn with_dir(self) -> DiskUsage {
        DiskUsage { dirs: (self.dirs + 1) as u64, ..self }
    }

    /// Whether `other` can be added field by field without overflow.
    pub open spec fn can_add(self, other: DiskUsage) -> bool {
        &&& self.bytes + other.bytes <= u64::MAX
        &&& self.files + other.files <= u64::MAX
        &&& self.dirs + other.dirs <= u64::MAX
    }

    /// The field-by-field sum of two usages.
    pub open spec fn plus(self, other: DiskUsage) -> DiskUsage {
        DiskUsage {
            bytes: (self.bytes + other.bytes) as u64,
            files: (self.files + other.files) as u64,
            dirs: (self.dirs + other.dirs) as u64,
        }
    }

    /// Count one file occupying `bytes` bytes on disk.
    pub fn add_file(&mut self, bytes: u64)
        requires
            old(self).can_add_file(bytes),
        ensures
            *final(self) == old(self).with_file(bytes),
    {
        self.bytes = self.bytes + bytes;
        self.files = self.files + 1;
    }

    /// Count one directory.
    pub fn add_dir(&mut self)
        requires
            old(self).can_add_dir(),
        ensures
            *final(self) == old(self).with_dir(),
    {
        self.dirs = self.dirs + 1;
    }

    /// Add another usage to this one, field by field.
    pub fn add_assign(&mut self, other: DiskUsage)
        requires
            old(self).can_add(other),
        ensures
            *final(self) == old(self).plus(other),
    {
        self.bytes = self.bytes + other.bytes;
        self.files = self.files + other.files;
        self.dirs = self.dirs + other.dirs;
    }

    /// `self.bytes` formatted the way `du -h` would print it, e.g. `"4.2 MiB"`.
    pub fn human_bytes(&self) -> (s: String)
        ensures
            s@ == human_bytes_text(self.bytes),
    {
        human_bytes(self.bytes)
    }
}

/// One entry that could not be read during a scan, and why.
#[derive(Debug)]
pub struct SkippedEntry {
    pub path: std::path::PathBuf,
    pub error: std::io::Error,
}

/// Options controlling how a scan walks the tree and handles errors.
#[derive(Debug, Clone, Copy, PartialEq, Eq, Structural)]
pub struct ScanOptions {
    /// If `false` (the default), the first unreadable entry aborts the
    /// scan and its error is returned to the caller. If `true`, unreadable
    /// entries are skipped and recorded in `ScanReport::skipped` instead,
    /// and the scan runs to completion.
    pub lenient: bool,
    /// If `false` (the default), symlinks are measured as themselves and
    /// never followed.
    pub follow_symlinks: bool,
    /// If `false` (the default), the scan crosses mount points freely. If
    /// `true`, any directory whose device differs from the device `root`
    /// itself is on is excluded: not counted and not recursed into.
    pub one_filesystem: bool,
}

impl Default for ScanOptions {
    fn default() -> (r: Self)
        ensures
            !r.lenient,
            !r.follow_symlinks,
            !r.one_filesystem,
    {
        ScanOptions { lenient: false, follow_symlinks: false, one_filesystem: false }
    }
}

/// Result of a scan: the totals, plus anything skipped along the way.
///
/// `skipped` is only ever non-empty when the scan ran with
/// `ScanOptions::lenient` set.
#[derive(Debug)]
pub struct ScanReport {
    pub usage: DiskUsage,
    pub skipped: Vec<SkippedEntry>,
}

/// The mathematical content of a `ScanReport`.
pub struct ReportView {
    pub usage: DiskUsage,
    pub skipped: Seq<SkippedEntry>,
}

impl ReportView {
    /// A report with nothing counted and nothing skipped.
    pub open spec fn empty() -> ReportView {
        ReportView { usage: DiskUsage::zero(), skipped: Seq::empty() }
    }

    /// The report after recording that `path` was skipped because of `error`.
    pub open spec fn record(self, path: std::path::PathBuf, error: std::io::Error) -> ReportView {
        ReportView { skipped: self.skipped.push(SkippedEntry { path, error }), ..self }
    }
}

impl View for ScanReport {
    type V = ReportView;

    open spec fn view(&self) -> ReportView {
        ReportView { usage: self.usage, skipped: self.skipped@ }
    }
}

impl Default for ScanReport {
    fn default() -> (r: Self)
        ensures
            r@ == ReportView::empty(),
    {
        ScanReport::new()
    }
}

impl ScanReport {
    /// An empty report.
    pub fn new() -> (r: Self)
        ensures
            r@ == ReportView::empty(),
    {
        ScanReport { usage: DiskUsage { bytes: 0, files: 0, dirs: 0 }, skipped: Vec::new() }
    }
}

/// Route an error either to the caller (strict) or into the report (lenient).
pub fn handle_error(
    path: std::path::PathBuf,
    error: std::io::Error,
    options: &ScanOptions,
    report: &mut ScanReport,
) -> (r: Result<(), std::io::Error>)
    ensures
        options.lenient ==> r is Ok && final(report)@ == old(report)@.record(path, error),
        !options.lenient ==> r == Err::<(), std::io::Error>(error) && final(report)@ == old(report)@,
{
    if options.lenient {
        report.skipped.push(SkippedEntry { path, error });
        Ok(())
    } else {
        Err(error)
    }
}

} // verus!
