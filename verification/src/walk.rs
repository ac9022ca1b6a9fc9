//! The scan itself, as a machine that decides every step of a depth-first
//! walk while its driver performs the file-system calls.
//!
//! The driver starts a walk with [`scan`] or [`scan_top_level`], performs
//! each [`Request`] it is handed, and feeds what happened back to
//! [`Walk::step`] as an [`Outcome`], until the request is `Done` or `Abort`.

use vstd::prelude::*;

use crate::meta::{
    boundary_for, charge_fits, counted_bytes, crosses, crosses_boundary, disk_bytes, root_device, seen_after,
    EntryMeta, Seen,
};
use crate::usage::{handle_error, DiskUsage, ReportView, ScanOptions, ScanReport};

verus! {

/// What the walk asks its driver to do next.
#[derive(Debug)]
pub enum Request {
    /// Read the metadata of `path`, following a symlink there when
    /// `follow_symlinks` is set; answer with `Metadata` or `MetadataError`.
    Metadata { path: std::path::PathBuf, follow_symlinks: bool },
    /// Open the directory `path` for listing; answer with `DirOpened` or
    /// `DirError`.
    ReadDir { path: std::path::PathBuf },
    /// Produce the next entry of the most recently opened directory that is
    /// still being listed; answer with `Entry`, `EntryError` or `EndOfDir`.
    NextEntry,
    /// The walk is complete; take its result.
    Done,
    /// The walk failed with this error.
    Abort(std::io::Error),
}

/// What the driver reports back.
#[derive(Debug)]
pub enum Outcome {
    Metadata(EntryMeta),
    MetadataError(std::io::Error),
    DirOpened,
    DirError(std::io::Error),
    Entry(std::path::PathBuf),
    EntryError(std::io::Error),
    EndOfDir,
}

/// Where the walk stands.
#[derive(Debug)]
pub enum Phase {
    /// Waiting for the metadata of the root.
    RootMetadata(std::path::PathBuf),
    /// Waiting for the metadata of an entry found while listing.
    ChildMetadata(std::path::PathBuf),
    /// Waiting for a directory to be opened.
    OpenDir(std::path::PathBuf),
    /// Waiting for the next entry of the innermost open directory.
    Listing,
    /// Done or aborted.
    Finished,
}

/// One immediate child of the scanned root, with its own subtotal.
#[derive(Debug)]
pub struct EntryReport {
    pub path: std::path::PathBuf,
    pub report: ScanReport,
}

impl View for EntryReport {
    type V = (std::path::PathBuf, ReportView);

    open spec fn view(&self) -> (std::path::PathBuf, ReportView) {
        (self.path, self.report@)
    }
}

/// The mathematical state of a walk.
pub struct WalkView {
    /// The path the walk was started on.
    pub root: std::path::PathBuf,
    pub options: ScanOptions,
    /// Whether each immediate child of the root gets a report of its own.
    pub breakdown: bool,
    pub phase: Phase,
    /// The directories being listed, outermost first.
    pub dirs: Seq<std::path::PathBuf>,
    /// (device, inode) pairs of multiply-linked files already charged.
    pub seen: Set<(u64, u64)>,
    /// The device directories must be on to be walked, if any.
    pub boundary: Option<u64>,
    /// The report of a plain scan; of a breakdown, the grand total.
    pub total: ReportView,
    /// In a breakdown, the immediate child of the root being measured.
    pub child: Option<(std::path::PathBuf, ReportView)>,
    /// In a breakdown, the immediate children measured so far, in order.
    pub entries: Seq<(std::path::PathBuf, ReportView)>,
}

impl WalkView {
    /// A walk of `root` that has not started.
    pub open spec fn start(root: std::path::PathBuf, options: ScanOptions, breakdown: bool) -> WalkView {
        WalkView {
            root,
            options,
            breakdown,
            phase: Phase::RootMetadata(root),
            dirs: Seq::empty(),
            seen: Set::empty(),
            boundary: None,
            total: ReportView::empty(),
            child: None,
            entries: Seq::empty(),
        }
    }

    /// The report that counts and skips are recorded in now.
    pub open spec fn target(self) -> ReportView {
        match self.child {
            Some(c) => c.1,
            None => self.total,
        }
    }

    /// Replace the report that counts and skips are recorded in now.
    pub open spec fn set_target(self, r: ReportView) -> WalkView {
        match self.child {
            Some(c) => WalkView { child: Some((c.0, r)), ..self },
            None => WalkView { total: r, ..self },
        }
    }

    /// Begin measuring `path` as an immediate child of the root.
    pub open spec fn open_child(self, path: std::path::PathBuf) -> WalkView {
        WalkView { child: Some((path, ReportView::empty())), ..self }
    }

    /// Charge a file with metadata `meta` to the current report.
    pub open spec fn count_file(self, meta: EntryMeta) -> WalkView {
        let t = self.target();
        WalkView {
            seen: seen_after(meta, self.seen),
            ..self.set_target(ReportView { usage: t.usage.with_file(counted_bytes(meta, self.seen)), ..t })
        }
    }

    /// Count a directory in the current report.
    pub open spec fn count_dir(self) -> WalkView {
        let t = self.target();
        self.set_target(ReportView { usage: t.usage.with_dir(), ..t })
    }

    /// Whether the child being measured is complete: the walk is back at
    /// the root's listing (or the root itself was the child).
    pub open spec fn child_complete(self) -> bool {
        self.breakdown && self.child is Some && self.dirs.len() <= 1
    }

    /// Add the completed child to the total and to the entries.
    pub open spec fn finish_child(self) -> WalkView {
        let c = self.child.unwrap();
        WalkView {
            total: ReportView { usage: self.total.usage.plus(c.1.usage), ..self.total },
            entries: self.entries.push(c),
            child: None,
            ..self
        }
    }

    /// Whether finishing a completed child would overflow the total.
    pub open spec fn can_settle(self) -> bool {
        self.child_complete() ==> self.total.usage.can_add(self.child.unwrap().1.usage)
    }

    /// The state with a completed child folded into the total.
    pub open spec fn settled(self) -> WalkView {
        if self.child_complete() {
            self.finish_child()
        } else {
            self
        }
    }

    /// Return from the entry just handled: go on listing the innermost
    /// directory, or finish when none is left.
    pub open spec fn resume(self) -> (WalkView, Request) {
        let s = self.settled();
        if s.dirs.len() == 0 {
            (WalkView { phase: Phase::Finished, ..s }, Request::Done)
        } else {
            (WalkView { phase: Phase::Listing, ..s }, Request::NextEntry)
        }
    }

    /// An error at `path`: recorded and walked past when lenient, the end
    /// of the walk otherwise.
    pub open spec fn fail(self, path: std::path::PathBuf, error: std::io::Error) -> (WalkView, Request) {
        if self.options.lenient {
            self.set_target(self.target().record(path, error)).resume()
        } else {
            (WalkView { phase: Phase::Finished, ..self }, Request::Abort(error))
        }
    }

    /// The state in which the metadata of a root that is a file is charged.
    pub open spec fn root_file(self, root: std::path::PathBuf) -> WalkView {
        if self.breakdown {
            self.open_child(root)
        } else {
            self
        }
    }

    /// Whether a file with metadata `meta` can be charged without overflow
    /// and its report then settled without overflow.
    pub open spec fn file_fits(self, meta: EntryMeta) -> bool {
        &&& charge_fits(meta)
        &&& self.target().usage.can_add_file(counted_bytes(meta, self.seen))
        &&& self.count_file(meta).can_settle()
    }

    /// Whether an error can be handled without overflow.
    pub open spec fn error_fits(self) -> bool {
        self.options.lenient ==> self.can_settle()
    }

    /// The state with the innermost directory's listing finished.
    pub open spec fn leave_dir(self) -> WalkView {
        WalkView { dirs: self.dirs.drop_last(), ..self }
    }

    /// Whether `o` answers the walk's last request, and handling it makes
    /// no counter overflow.
    pub open spec fn accepts(self, o: Outcome) -> bool {
        match self.phase {
            Phase::RootMetadata(root) => match o {
                Outcome::Metadata(m) => m.is_dir || self.root_file(root).file_fits(m),
                Outcome::MetadataError(_) => self.error_fits(),
                _ => false,
            },
            Phase::ChildMetadata(_) => match o {
                Outcome::Metadata(m) => if m.is_dir {
                    if crosses(self.boundary, m) {
                        self.can_settle()
                    } else {
                        self.target().usage.can_add_dir()
                    }
                } else {
                    self.file_fits(m)
                },
                Outcome::MetadataError(_) => self.error_fits(),
                _ => false,
            },
            Phase::OpenDir(_) => match o {
                Outcome::DirOpened => true,
                Outcome::DirError(_) => self.error_fits(),
                _ => false,
            },
            Phase::Listing => self.dirs.len() > 0 && match o {
                Outcome::Entry(_) => true,
                Outcome::EntryError(_) => self.error_fits(),
                Outcome::EndOfDir => self.leave_dir().can_settle(),
                _ => false,
            },
            Phase::Finished => false,
        }
    }

    /// The state after `o` and the request that follows it.
    pub open spec fn next(self, o: Outcome) -> (WalkView, Request) {
        match self.phase {
            Phase::RootMetadata(root) => match o {
                Outcome::Metadata(m) => if m.is_dir {
                    (
                        WalkView { boundary: boundary_for(m, self.options), phase: Phase::OpenDir(root), ..self },
                        Request::ReadDir { path: root },
                    )
                } else {
                    self.root_file(root).count_file(m).resume()
                },
                Outcome::MetadataError(e) => self.fail(root, e),
                _ => (self, Request::NextEntry),
            },
            Phase::ChildMetadata(path) => match o {
                Outcome::Metadata(m) => if m.is_dir {
                    if crosses(self.boundary, m) {
                        self.resume()
                    } else {
                        (WalkView { phase: Phase::OpenDir(path), ..self.count_dir() }, Request::ReadDir { path })
                    }
                } else {
                    self.count_file(m).resume()
                },
                Outcome::MetadataError(e) => self.fail(path, e),
                _ => (self, Request::NextEntry),
            },
            Phase::OpenDir(dir) => match o {
                Outcome::DirOpened => (
                    WalkView { dirs: self.dirs.push(dir), phase: Phase::Listing, ..self },
                    Request::NextEntry,
                ),
                Outcome::DirError(e) => self.fail(dir, e),
                _ => (self, Request::NextEntry),
            },
            Phase::Listing => match o {
                Outcome::Entry(path) => {
                    let s = if self.breakdown && self.dirs.len() == 1 { self.open_child(path) } else { self };
                    (
                        WalkView { phase: Phase::ChildMetadata(path), ..s },
                        Request::Metadata { path, follow_symlinks: self.options.follow_symlinks },
                    )
                },
                Outcome::EntryError(e) => self.fail(self.dirs.last(), e),
                Outcome::EndOfDir => self.leave_dir().resume(),
                _ => (self, Request::NextEntry),
            },
            Phase::Finished => (self, Request::NextEntry),
        }
    }
}


/// A walk in progress: the decisions of a scan, made one outcome at a time.
pub struct Walk {
    root: Ghost<std::path::PathBuf>,
    options: ScanOptions,
    breakdown: bool,
    phase: Phase,
    dirs: Vec<std::path::PathBuf>,
    seen: Seen,
    boundary: Option<u64>,
    total: ScanReport,
    child: Option<std::path::PathBuf>,
    child_report: ScanReport,
    entries: Vec<EntryReport>,
}

impl View for Walk {
    type V = WalkView;

    closed spec fn view(&self) -> WalkView {
        WalkView {
            root: self.root@,
            options: self.options,
            breakdown: self.breakdown,
            phase: self.phase,
            dirs: self.dirs@,
            seen: self.seen@,
            boundary: self.boundary,
            total: self.total@,
            child: match self.child {
                Some(p) => Some((p, self.child_report@)),
                None => None,
            },
            entries: self.entries@.map_values(|e: EntryReport| e@),
        }
    }
}

fn usage_can_add(a: DiskUsage, b: DiskUsage) -> (r: bool)
    ensures
        r == a.can_add(b),
{
    a.bytes <= u64::MAX - b.bytes && a.files <= u64::MAX - b.files && a.dirs <= u64::MAX - b.dirs
}

impl Walk {
    fn start(root: std::path::PathBuf, options: &ScanOptions, breakdown: bool) -> (res: (Walk, Request))
        ensures
            res.0@ == WalkView::start(root, *options, breakdown),
            res.1 == (Request::Metadata { path: root, follow_symlinks: options.follow_symlinks }),
    {
        let first = Request::Metadata { path: root.clone(), follow_symlinks: options.follow_symlinks };
        let walk = Walk {
            root: Ghost(root),
            options: *options,
            breakdown,
            phase: Phase::RootMetadata(root),
            dirs: Vec::new(),
            seen: Seen::new(),
            boundary: None,
            total: ScanReport::new(),
            child: None,
            child_report: ScanReport::new(),
            entries: Vec::new(),
        };
        assert(walk@.entries =~= Seq::<(std::path::PathBuf, ReportView)>::empty());
        (walk, first)
    }

    fn target_usage(&self) -> (u: DiskUsage)
        ensures
            u == self@.target().usage,
    {
        if self.child.is_some() {
            self.child_report.usage
        } else {
            self.total.usage
        }
    }

    fn count_file(&mut self, meta: &EntryMeta)
        requires
            charge_fits(*meta),
            old(self)@.target().usage.can_add_file(counted_bytes(*meta, old(self)@.seen)),
        ensures
            final(self)@ == old(self)@.count_file(*meta),
    {
        let bytes = disk_bytes(meta, &mut self.seen);
        if self.child.is_some() {
            self.child_report.usage.add_file(bytes);
        } else {
            self.total.usage.add_file(bytes);
        }
    }

    fn count_dir(&mut self)
        requires
            old(self)@.target().usage.can_add_dir(),
        ensures
            final(self)@ == old(self)@.count_dir(),
    {
        if self.child.is_some() {
            self.child_report.usage.add_dir();
        } else {
            self.total.usage.add_dir();
        }
    }

    fn open_child(&mut self, path: std::path::PathBuf)
        ensures
            final(self)@ == old(self)@.open_child(path),
    {
        self.child = Some(path);
        self.child_report = ScanReport::new();
    }

    fn settle(&mut self)
        requires
            old(self)@.can_settle(),
        ensures
            final(self)@ == old(self)@.settled(),
    {
        if self.breakdown && self.child.is_some() && self.dirs.len() <= 1 {
            let mut report = ScanReport::new();
            std::mem::swap(&mut report, &mut self.child_report);
            self.total.usage.add_assign(report.usage);
            let path = self.child.take().unwrap();
            self.entries.push(EntryReport { path, report });
            assert(self@.entries =~= old(self)@.entries.push(old(self)@.child.unwrap()));
        }
    }

    fn resume(&mut self) -> (req: Request)
        requires
            old(self)@.can_settle(),
        ensures
            (final(self)@, req) == old(self)@.resume(),
    {
        self.settle();
        if self.dirs.len() == 0 {
            self.phase = Phase::Finished;
            Request::Done
        } else {
            self.phase = Phase::Listing;
            Request::NextEntry
        }
    }

    fn fail(&mut self, path: std::path::PathBuf, error: std::io::Error) -> (req: Request)
        requires
            old(self)@.error_fits(),
        ensures
            (final(self)@, req) == old(self)@.fail(path, error),
    {
        let handled = if self.child.is_some() {
            handle_error(path, error, &self.options, &mut self.child_report)
        } else {
            handle_error(path, error, &self.options, &mut self.total)
        };
        match handled {
            Ok(()) => self.resume(),
            Err(e) => {
                self.phase = Phase::Finished;
                Request::Abort(e)
            },
        }
    }
}


impl Walk {
    /// Answer the walk's last request with `outcome`, and get the next one.
    pub fn step(&mut self, outcome: Outcome) -> (req: Request)
        requires
            old(self)@.accepts(outcome),
        ensures
            (final(self)@, req) == old(self)@.next(outcome),
    {
        let mut phase = Phase::Finished;
        std::mem::swap(&mut phase, &mut self.phase);
        match phase {
            Phase::RootMetadata(root) => match outcome {
                Outcome::Metadata(meta) => {
                    if meta.is_dir {
                        self.boundary = root_device(&meta, &self.options);
                        let path = root.clone();
                        self.phase = Phase::OpenDir(root);
                        Request::ReadDir { path }
                    } else {
                        if self.breakdown {
                            self.open_child(root);
                        }
                        self.count_file(&meta);
                        self.resume()
                    }
                },
                Outcome::MetadataError(e) => self.fail(root, e),
                _ => Request::NextEntry,
            },
            Phase::ChildMetadata(path) => match outcome {
                Outcome::Metadata(meta) => {
                    if meta.is_dir {
                        if crosses_boundary(&self.boundary, &meta) {
                            self.resume()
                        } else {
                            self.count_dir();
                            let dir = path.clone();
                            self.phase = Phase::OpenDir(path);
                            Request::ReadDir { path: dir }
                        }
                    } else {
                        self.count_file(&meta);
                        self.resume()
                    }
                },
                Outcome::MetadataError(e) => self.fail(path, e),
                _ => Request::NextEntry,
            },
            Phase::OpenDir(dir) => match outcome {
                Outcome::DirOpened => {
                    self.dirs.push(dir);
                    self.phase = Phase::Listing;
                    Request::NextEntry
                },
                Outcome::DirError(e) => self.fail(dir, e),
                _ => Request::NextEntry,
            },
            Phase::Listing => match outcome {
                Outcome::Entry(path) => {
                    if self.breakdown && self.dirs.len() == 1 {
                        self.open_child(path.clone());
                    }
                    let asked = path.clone();
                    self.phase = Phase::ChildMetadata(path);
                    Request::Metadata { path: asked, follow_symlinks: self.options.follow_symlinks }
                },
                Outcome::EntryError(e) => {
                    let dir = self.dirs[self.dirs.len() - 1].clone();
                    self.fail(dir, e)
                },
                Outcome::EndOfDir => {
                    self.dirs.pop();
                    self.resume()
                },
                _ => Request::NextEntry,
            },
            Phase::Finished => Request::NextEntry,
        }
    }
}


/// A breakdown's result: a report per immediate child of the root, in the
/// order they were listed, and the grand total.
#[derive(Debug)]
pub struct Breakdown {
    pub entries: Vec<EntryReport>,
    pub total: ScanReport,
}

impl Walk {
    fn can_settle(&self) -> (ok: bool)
        ensures
            ok == self@.can_settle(),
    {
        if self.breakdown && self.child.is_some() && self.dirs.len() <= 1 {
            usage_can_add(self.total.usage, self.child_report.usage)
        } else {
            true
        }
    }

    fn error_fits(&self) -> (ok: bool)
        ensures
            ok == self@.error_fits(),
    {
        !self.options.lenient || self.can_settle()
    }

    fn file_fits(&self, meta: &EntryMeta, fresh_child: bool, Ghost(root): Ghost<std::path::PathBuf>) -> (ok: bool)
        ensures
            ok == (if fresh_child { self@.open_child(root) } else { self@ }).file_fits(*meta),
    {
        let bytes: u64 = match meta.length {
            Some(len) => len,
            None => {
                if meta.blocks > u64::MAX / 512 {
                    return false;
                }
                if meta.nlink > 1 && self.seen.contains(meta.dev, meta.ino) {
                    0
                } else {
                    meta.blocks * 512
                }
            },
        };
        let (usage, child_on) = if fresh_child {
            (DiskUsage { bytes: 0, files: 0, dirs: 0 }, true)
        } else {
            (self.target_usage(), self.child.is_some())
        };
        if usage.bytes > u64::MAX - bytes || usage.files == u64::MAX {
            return false;
        }
        let after = DiskUsage { bytes: usage.bytes + bytes, files: usage.files + 1, dirs: usage.dirs };
        if self.breakdown && child_on && self.dirs.len() <= 1 {
            usage_can_add(self.total.usage, after)
        } else {
            true
        }
    }

    /// Whether `outcome` answers the last request and can be handled
    /// without a counter overflowing; `step` may be called exactly then.
    pub fn accepts(&self, outcome: &Outcome) -> (ok: bool)
        ensures
            ok == self@.accepts(*outcome),
    {
        match &self.phase {
            Phase::RootMetadata(root) => match outcome {
                Outcome::Metadata(meta) => meta.is_dir || self.file_fits(meta, self.breakdown, Ghost(*root)),
                Outcome::MetadataError(_) => self.error_fits(),
                _ => false,
            },
            Phase::ChildMetadata(path) => match outcome {
                Outcome::Metadata(meta) => {
                    if meta.is_dir {
                        if crosses_boundary(&self.boundary, meta) {
                            self.can_settle()
                        } else {
                            self.target_usage().dirs < u64::MAX
                        }
                    } else {
                        self.file_fits(meta, false, Ghost(*path))
                    }
                },
                Outcome::MetadataError(_) => self.error_fits(),
                _ => false,
            },
            Phase::OpenDir(_) => match outcome {
                Outcome::DirOpened => true,
                Outcome::DirError(_) => self.error_fits(),
                _ => false,
            },
            Phase::Listing => {
                if self.dirs.len() == 0 {
                    return false;
                }
                match outcome {
                    Outcome::Entry(_) => true,
                    Outcome::EntryError(_) => self.error_fits(),
                    Outcome::EndOfDir => {
                        if self.breakdown && self.child.is_some() && self.dirs.len() - 1 <= 1 {
                            usage_can_add(self.total.usage, self.child_report.usage)
                        } else {
                            true
                        }
                    },
                    _ => false,
                }
            },
            Phase::Finished => false,
        }
    }

    /// The report of a finished plain scan.
    pub fn into_report(self) -> (r: ScanReport)
        ensures
            r@ == self@.total,
    {
        self.total
    }

    /// The per-child reports and grand total of a finished breakdown.
    pub fn into_breakdown(self) -> (r: Breakdown)
        ensures
            r.entries@.map_values(|e: EntryReport| e@) == self@.entries,
            r.total@ == self@.total,
    {
        Breakdown { entries: self.entries, total: self.total }
    }
}

/// Begin a walk of `root` that totals up its real disk usage. `root` may be
/// a file or a directory; the walk first asks for its metadata.
pub fn scan(root: std::path::PathBuf, options: &ScanOptions) -> (res: (Walk, Request))
    ensures
        res.0@ == WalkView::start(root, *options, false),
        res.1 == (Request::Metadata { path: root, follow_symlinks: options.follow_symlinks }),
{
    Walk::start(root, options, false)
}

/// Begin a walk of `root` one level at a time, like `du -d1`: a subtotal per
/// immediate child, plus the same grand total [`scan`] produces.
pub fn scan_top_level(root: std::path::PathBuf, options: &ScanOptions) -> (res: (Walk, Request))
    ensures
        res.0@ == WalkView::start(root, *options, true),
        res.1 == (Request::Metadata { path: root, follow_symlinks: options.follow_symlinks }),
{
    Walk::start(root, options, true)
}

} // verus!
