//! Scans driven over a file system held in memory, so that every request
//! the walk makes is answered by the test itself.

use std::collections::HashMap;
use std::io;
use std::path::{Path, PathBuf};

use strict_du::{
    scan, scan_top_level, Breakdown, DiskUsage, EntryMeta, Outcome, Request, ScanOptions,
    ScanReport, Walk,
};

enum Node {
    File { dev: u64, ino: u64, nlink: u64, blocks: u64 },
    Dir { dev: u64, children: Vec<String>, unreadable: bool },
    Link { target: PathBuf },
}

/// A listing item whose name is this marker fails to be read.
const BAD_ENTRY: &str = "<unreadable entry>";

struct MemFs {
    nodes: HashMap<PathBuf, Node>,
}

impl MemFs {
    fn new() -> Self {
        MemFs { nodes: HashMap::new() }
    }

    fn dir(&mut self, path: &str, dev: u64, children: &[&str]) {
        self.nodes.insert(
            PathBuf::from(path),
            Node::Dir { dev, children: children.iter().map(|c| c.to_string()).collect(), unreadable: false },
        );
    }

    fn unreadable_dir(&mut self, path: &str, dev: u64) {
        self.nodes.insert(PathBuf::from(path), Node::Dir { dev, children: vec![], unreadable: true });
    }

    fn file(&mut self, path: &str, dev: u64, ino: u64, nlink: u64, blocks: u64) {
        self.nodes.insert(PathBuf::from(path), Node::File { dev, ino, nlink, blocks });
    }

    fn link(&mut self, path: &str, target: &str) {
        self.nodes.insert(PathBuf::from(path), Node::Link { target: PathBuf::from(target) });
    }

    fn metadata(&self, path: &Path, follow: bool) -> io::Result<EntryMeta> {
        match self.nodes.get(path) {
            None => Err(io::Error::new(io::ErrorKind::NotFound, format!("{} not found", path.display()))),
            Some(Node::File { dev, ino, nlink, blocks }) => {
                Ok(EntryMeta { is_dir: false, dev: *dev, ino: *ino, nlink: *nlink, blocks: *blocks, length: None })
            }
            Some(Node::Dir { dev, .. }) => Ok(EntryMeta { is_dir: true, dev: *dev, ino: 0, nlink: 2, blocks: 8, length: None }),
            Some(Node::Link { target }) => {
                if follow {
                    self.metadata(target, true)
                } else {
                    Ok(EntryMeta { is_dir: false, dev: 1, ino: 999, nlink: 1, blocks: 0, length: None })
                }
            }
        }
    }

    fn list(&self, path: &Path) -> io::Result<Vec<Result<PathBuf, String>>> {
        match self.nodes.get(path) {
            Some(Node::Dir { children, unreadable: false, .. }) => Ok(children
                .iter()
                .map(|c| {
                    if c == BAD_ENTRY {
                        Err(format!("bad entry in {}", path.display()))
                    } else {
                        Ok(path.join(c))
                    }
                })
                .collect()),
            Some(Node::Link { target }) => self.list(target),
            Some(Node::Dir { unreadable: true, .. }) => {
                Err(io::Error::new(io::ErrorKind::PermissionDenied, format!("{} unreadable", path.display())))
            }
            _ => Err(io::Error::new(io::ErrorKind::NotFound, format!("{} is not a directory", path.display()))),
        }
    }

    /// Answer every request of `walk` until it is done or aborts.
    fn drive(&self, started: (Walk, Request)) -> io::Result<Walk> {
        let (mut walk, mut request) = started;
        let mut listings: Vec<std::vec::IntoIter<Result<PathBuf, String>>> = Vec::new();
        loop {
            let outcome = match request {
                Request::Metadata { path, follow_symlinks } => match self.metadata(&path, follow_symlinks) {
                    Ok(meta) => Outcome::Metadata(meta),
                    Err(e) => Outcome::MetadataError(e),
                },
                Request::ReadDir { path } => match self.list(&path) {
                    Ok(items) => {
                        listings.push(items.into_iter());
                        Outcome::DirOpened
                    }
                    Err(e) => Outcome::DirError(e),
                },
                Request::NextEntry => match listings.last_mut().expect("a directory is open").next() {
                    Some(Ok(path)) => Outcome::Entry(path),
                    Some(Err(msg)) => Outcome::EntryError(io::Error::new(io::ErrorKind::Other, msg)),
                    None => {
                        listings.pop();
                        Outcome::EndOfDir
                    }
                },
                Request::Done => return Ok(walk),
                Request::Abort(e) => return Err(e),
            };
            assert!(walk.accepts(&outcome), "the walk refused an answer to its own request");
            request = walk.step(outcome);
        }
    }

    fn scan(&self, root: &str, options: &ScanOptions) -> io::Result<ScanReport> {
        self.drive(scan(PathBuf::from(root), options)).map(|w| w.into_report())
    }

    fn scan_top_level(&self, root: &str, options: &ScanOptions) -> io::Result<Breakdown> {
        self.drive(scan_top_level(PathBuf::from(root), options)).map(|w| w.into_breakdown())
    }
}

fn named<'a>(breakdown: &'a Breakdown, name: &str) -> Option<&'a strict_du::EntryReport> {
    breakdown.entries.iter().find(|e| e.path.file_name().map(|n| n == name).unwrap_or(false))
}

fn lenient() -> ScanOptions {
    ScanOptions { lenient: true, ..ScanOptions::default() }
}

#[test]
fn counts_files_and_dirs() {
    let mut fs = MemFs::new();
    fs.dir("/counts", 1, &["sub", "a.txt"]);
    fs.dir("/counts/sub", 1, &["b.txt"]);
    fs.file("/counts/a.txt", 1, 10, 1, 8);
    fs.file("/counts/sub/b.txt", 1, 11, 1, 8);

    let report = fs.scan("/counts", &ScanOptions::default()).unwrap();

    assert_eq!(report.usage.files, 2);
    assert_eq!(report.usage.dirs, 1);
    assert!(report.skipped.is_empty());
    assert_eq!(report.usage.bytes, 2 * 8 * 512);
}

#[test]
fn single_file_root_is_measured_directly() {
    let mut fs = MemFs::new();
    fs.dir("/single-file-parent", 1, &["only.txt"]);
    fs.file("/single-file-parent/only.txt", 1, 10, 1, 8);

    let report = fs.scan("/single-file-parent/only.txt", &ScanOptions::default()).unwrap();

    assert_eq!(report.usage.files, 1);
    assert_eq!(report.usage.dirs, 0);
    assert_eq!(report.usage.bytes, 4096);
}

#[test]
fn strict_mode_fails_on_missing_root() {
    let fs = MemFs::new();
    let result = fs.scan("/strict-du-test-does-not-exist", &ScanOptions::default());
    assert!(result.is_err());
}

#[test]
fn lenient_mode_records_missing_root_instead_of_failing() {
    let fs = MemFs::new();
    let root = PathBuf::from("/strict-du-test-does-not-exist-lenient");
    let report = fs.scan("/strict-du-test-does-not-exist-lenient", &lenient()).unwrap();

    assert_eq!(report.skipped.len(), 1);
    assert_eq!(report.skipped[0].path, root);
}

#[test]
fn top_level_breakdown_has_one_entry_per_child() {
    let mut fs = MemFs::new();
    fs.dir("/breakdown", 1, &["sub", "a.txt"]);
    fs.dir("/breakdown/sub", 1, &["b.txt"]);
    fs.file("/breakdown/sub/b.txt", 1, 11, 1, 8);
    fs.file("/breakdown/a.txt", 1, 10, 1, 8);

    let breakdown = fs.scan_top_level("/breakdown", &ScanOptions::default()).unwrap();

    assert_eq!(breakdown.entries.len(), 2);

    let sub = named(&breakdown, "sub").expect("sub entry present");
    assert_eq!(sub.report.usage.files, 1);
    assert_eq!(sub.report.usage.dirs, 1);

    let a = named(&breakdown, "a.txt").expect("a.txt entry present");
    assert_eq!(a.report.usage.files, 1);
    assert_eq!(a.report.usage.dirs, 0);

    let full_scan = fs.scan("/breakdown", &ScanOptions::default()).unwrap();
    assert_eq!(breakdown.total.usage, full_scan.usage);
}

#[test]
fn top_level_breakdown_on_a_file_root_has_a_single_entry() {
    let mut fs = MemFs::new();
    fs.dir("/breakdown-single-file", 1, &["only.txt"]);
    fs.file("/breakdown-single-file/only.txt", 1, 10, 1, 8);

    let breakdown = fs.scan_top_level("/breakdown-single-file/only.txt", &ScanOptions::default()).unwrap();

    assert_eq!(breakdown.entries.len(), 1);
    assert_eq!(breakdown.entries[0].path.file_name().unwrap(), "only.txt");
    assert_eq!(breakdown.entries[0].report.usage.files, 1);
    assert_eq!(breakdown.total.usage, breakdown.entries[0].report.usage);
}

#[test]
fn hardlinked_files_are_only_counted_once() {
    let mut fs = MemFs::new();
    fs.dir("/hardlinks", 1, &["a.txt", "b.txt"]);
    fs.file("/hardlinks/a.txt", 1, 42, 2, 8);
    fs.file("/hardlinks/b.txt", 1, 42, 2, 8);

    let report = fs.scan("/hardlinks", &ScanOptions::default()).unwrap();
    let single_file = fs.scan("/hardlinks/a.txt", &ScanOptions::default()).unwrap();

    assert_eq!(report.usage.files, 2);
    assert_eq!(report.usage.bytes, single_file.usage.bytes);
}

#[test]
fn top_level_breakdown_dedupes_hardlinks_across_entries() {
    let mut fs = MemFs::new();
    fs.dir("/breakdown-hardlinks", 1, &["sub", "a.txt"]);
    fs.dir("/breakdown-hardlinks/sub", 1, &["b.txt"]);
    fs.file("/breakdown-hardlinks/a.txt", 1, 42, 2, 8);
    fs.file("/breakdown-hardlinks/sub/b.txt", 1, 42, 2, 8);

    let breakdown = fs.scan_top_level("/breakdown-hardlinks", &ScanOptions::default()).unwrap();
    let full_scan = fs.scan("/breakdown-hardlinks", &ScanOptions::default()).unwrap();

    assert_eq!(breakdown.total.usage, full_scan.usage);
    assert_eq!(breakdown.total.usage.bytes, 4096);
}

#[test]
fn top_level_breakdown_attributes_skips_to_the_owning_entry() {
    let mut fs = MemFs::new();
    fs.dir("/breakdown-lenient", 1, &["a.txt", "ghost"]);
    fs.file("/breakdown-lenient/a.txt", 1, 10, 1, 8);
    fs.link("/breakdown-lenient/ghost", "/breakdown-lenient/does-not-exist");

    let options = ScanOptions { lenient: true, follow_symlinks: true, ..ScanOptions::default() };
    let breakdown = fs.scan_top_level("/breakdown-lenient", &options).unwrap();

    assert!(breakdown.total.skipped.is_empty());

    let ghost_entry = named(&breakdown, "ghost").expect("ghost entry present");
    assert_eq!(ghost_entry.report.skipped.len(), 1);
    assert_eq!(ghost_entry.report.usage, DiskUsage::default());

    let a_entry = named(&breakdown, "a.txt").expect("a.txt entry present");
    assert!(a_entry.report.skipped.is_empty());
}

#[test]
fn strict_mode_hands_back_the_first_error() {
    let mut fs = MemFs::new();
    fs.dir("/strict", 1, &["a.txt", "locked", "z.txt"]);
    fs.file("/strict/a.txt", 1, 10, 1, 8);
    fs.unreadable_dir("/strict/locked", 1);
    fs.file("/strict/z.txt", 1, 11, 1, 8);

    let err = fs.scan("/strict", &ScanOptions::default()).unwrap_err();
    assert_eq!(err.kind(), io::ErrorKind::PermissionDenied);
    assert_eq!(err.to_string(), "/strict/locked unreadable");

    let err = fs.scan_top_level("/strict", &ScanOptions::default()).unwrap_err();
    assert_eq!(err.kind(), io::ErrorKind::PermissionDenied);
}

#[test]
fn lenient_mode_skips_and_keeps_going() {
    let mut fs = MemFs::new();
    fs.dir("/lenient", 1, &["a.txt", "locked", BAD_ENTRY, "missing", "z.txt"]);
    fs.file("/lenient/a.txt", 1, 10, 1, 8);
    fs.unreadable_dir("/lenient/locked", 1);
    fs.link("/lenient/missing", "/nowhere");
    fs.file("/lenient/z.txt", 1, 11, 1, 8);

    let options = ScanOptions { lenient: true, follow_symlinks: true, ..ScanOptions::default() };
    let report = fs.scan("/lenient", &options).unwrap();

    assert_eq!(report.usage.files, 2);
    assert_eq!(report.usage.dirs, 1);
    let paths: Vec<PathBuf> = report.skipped.iter().map(|s| s.path.clone()).collect();
    assert_eq!(
        paths,
        vec![PathBuf::from("/lenient/locked"), PathBuf::from("/lenient"), PathBuf::from("/lenient/missing")]
    );
    assert_eq!(report.skipped[0].error.kind(), io::ErrorKind::PermissionDenied);
    assert_eq!(report.skipped[2].error.kind(), io::ErrorKind::NotFound);
}

#[test]
fn breakdown_keeps_root_level_errors_in_the_total() {
    let mut fs = MemFs::new();
    fs.dir("/rooterr", 1, &[BAD_ENTRY, "sub"]);
    fs.dir("/rooterr/sub", 1, &[BAD_ENTRY, "x"]);
    fs.file("/rooterr/sub/x", 1, 10, 1, 2);

    let breakdown = fs.scan_top_level("/rooterr", &lenient()).unwrap();

    assert_eq!(breakdown.total.skipped.len(), 1);
    assert_eq!(breakdown.total.skipped[0].path, PathBuf::from("/rooterr"));
    let sub = named(&breakdown, "sub").expect("sub entry present");
    assert_eq!(sub.report.skipped.len(), 1);
    assert_eq!(sub.report.skipped[0].path, PathBuf::from("/rooterr/sub"));
    assert_eq!(sub.report.usage, DiskUsage { bytes: 1024, files: 1, dirs: 1 });
}

#[test]
fn one_filesystem_stays_on_the_root_device() {
    let mut fs = MemFs::new();
    fs.dir("/disk", 1, &["a.txt", "mnt", "deep"]);
    fs.file("/disk/a.txt", 1, 10, 1, 8);
    fs.dir("/disk/mnt", 2, &["big"]);
    fs.file("/disk/mnt/big", 2, 11, 1, 1000);
    fs.dir("/disk/deep", 1, &["share"]);
    fs.dir("/disk/deep/share", 3, &["other"]);
    fs.file("/disk/deep/share/other", 3, 12, 1, 1000);

    let options = ScanOptions { one_filesystem: true, ..ScanOptions::default() };
    let report = fs.scan("/disk", &options).unwrap();
    assert_eq!(report.usage, DiskUsage { bytes: 4096, files: 1, dirs: 1 });

    let everything = fs.scan("/disk", &ScanOptions::default()).unwrap();
    assert_eq!(everything.usage, DiskUsage { bytes: 4096 + 2 * 512000, files: 3, dirs: 3 });

    let breakdown = fs.scan_top_level("/disk", &options).unwrap();
    assert_eq!(breakdown.entries.len(), 3);
    let mnt = named(&breakdown, "mnt").expect("mnt entry present");
    assert_eq!(mnt.report.usage, DiskUsage::default());
    assert!(mnt.report.skipped.is_empty());
    assert_eq!(breakdown.total.usage, report.usage);
}

#[test]
fn symlinks_are_measured_as_themselves_by_default() {
    let mut fs = MemFs::new();
    fs.dir("/links", 1, &["to-dir"]);
    fs.dir("/elsewhere", 1, &["big"]);
    fs.file("/elsewhere/big", 1, 20, 1, 100);
    fs.link("/links/to-dir", "/elsewhere");

    let report = fs.scan("/links", &ScanOptions::default()).unwrap();
    assert_eq!(report.usage, DiskUsage { bytes: 0, files: 1, dirs: 0 });

    let followed = ScanOptions { follow_symlinks: true, ..ScanOptions::default() };
    let report = fs.scan("/links", &followed).unwrap();
    assert_eq!(report.usage, DiskUsage { bytes: 51200, files: 1, dirs: 1 });
}

#[test]
fn breakdown_total_matches_scan_on_a_larger_tree() {
    let mut fs = MemFs::new();
    fs.dir("/t", 1, &["a", "b", "c.txt", "d"]);
    fs.dir("/t/a", 1, &["x", "y", "inner"]);
    fs.file("/t/a/x", 1, 1, 3, 16);
    fs.file("/t/a/y", 1, 2, 1, 3);
    fs.dir("/t/a/inner", 1, &["z"]);
    fs.file("/t/a/inner/z", 1, 1, 3, 16);
    fs.dir("/t/b", 1, &[]);
    fs.file("/t/c.txt", 1, 1, 3, 16);
    fs.dir("/t/d", 1, &["w"]);
    fs.file("/t/d/w", 1, 5, 1, 7);

    let full = fs.scan("/t", &ScanOptions::default()).unwrap();
    let breakdown = fs.scan_top_level("/t", &ScanOptions::default()).unwrap();
    assert_eq!(breakdown.total.usage, full.usage);
    assert_eq!(full.usage, DiskUsage { bytes: (16 + 3 + 7) * 512, files: 5, dirs: 4 });

    let mut sum = DiskUsage::default();
    for e in &breakdown.entries {
        sum.add_assign(e.report.usage);
    }
    assert_eq!(sum, breakdown.total.usage);
    let names: Vec<String> =
        breakdown.entries.iter().map(|e| e.path.file_name().unwrap().to_string_lossy().into_owned()).collect();
    assert_eq!(names, vec!["a", "b", "c.txt", "d"]);
}

#[test]
fn the_walk_refuses_answers_it_did_not_ask_for() {
    let (walk, request) = scan(PathBuf::from("/r"), &ScanOptions::default());
    assert!(matches!(request, Request::Metadata { follow_symlinks: false, .. }));
    assert!(!walk.accepts(&Outcome::DirOpened));
    assert!(!walk.accepts(&Outcome::EndOfDir));
    assert!(walk.accepts(&Outcome::Metadata(EntryMeta { is_dir: true, dev: 1, ino: 1, nlink: 1, blocks: 0, length: None })));
    // A block count whose byte figure overflows would panic; the walk refuses it.
    let huge = EntryMeta { is_dir: false, dev: 1, ino: 1, nlink: 1, blocks: u64::MAX / 256, length: None };
    assert!(!walk.accepts(&Outcome::Metadata(huge)));
}

#[test]
fn follow_option_is_passed_to_every_metadata_request() {
    let options = ScanOptions { follow_symlinks: true, ..ScanOptions::default() };
    let (mut walk, request) = scan(PathBuf::from("/r"), &options);
    assert!(matches!(request, Request::Metadata { follow_symlinks: true, .. }));
    let dir = EntryMeta { is_dir: true, dev: 1, ino: 1, nlink: 1, blocks: 0, length: None };
    assert!(matches!(walk.step(Outcome::Metadata(dir)), Request::ReadDir { .. }));
    assert!(matches!(walk.step(Outcome::DirOpened), Request::NextEntry));
    match walk.step(Outcome::Entry(PathBuf::from("/r/x"))) {
        Request::Metadata { path, follow_symlinks } => {
            assert_eq!(path, PathBuf::from("/r/x"));
            assert!(follow_symlinks);
        }
        _ => panic!("expected a metadata request"),
    }
}

#[test]
fn lenient_and_strict_agree_when_nothing_fails() {
    let mut fs = MemFs::new();
    fs.dir("/ok", 1, &["a", "b.txt"]);
    fs.dir("/ok/a", 1, &["c"]);
    fs.file("/ok/a/c", 1, 3, 2, 5);
    fs.file("/ok/b.txt", 1, 3, 2, 5);

    let strict = fs.scan("/ok", &ScanOptions::default()).unwrap();
    let lax = fs.scan("/ok", &lenient()).unwrap();
    assert_eq!(strict.usage, lax.usage);
    assert!(lax.skipped.is_empty());
}

#[test]
fn breakdown_skips_match_a_plain_scan() {
    let mut fs = MemFs::new();
    fs.dir("/mix", 1, &[BAD_ENTRY, "sub", "locked", "gone", BAD_ENTRY]);
    fs.dir("/mix/sub", 1, &[BAD_ENTRY, "deep", "x"]);
    fs.unreadable_dir("/mix/sub/deep", 1);
    fs.file("/mix/sub/x", 1, 10, 1, 2);
    fs.unreadable_dir("/mix/locked", 1);
    fs.link("/mix/gone", "/nowhere");

    let options = ScanOptions { lenient: true, follow_symlinks: true, ..ScanOptions::default() };
    let plain = fs.scan("/mix", &options).unwrap();
    let breakdown = fs.scan_top_level("/mix", &options).unwrap();

    let mut from_plain: Vec<PathBuf> = plain.skipped.iter().map(|s| s.path.clone()).collect();
    let mut from_breakdown: Vec<PathBuf> = breakdown.total.skipped.iter().map(|s| s.path.clone()).collect();
    for e in &breakdown.entries {
        from_breakdown.extend(e.report.skipped.iter().map(|s| s.path.clone()));
    }
    from_plain.sort();
    from_breakdown.sort();
    assert_eq!(from_plain, from_breakdown);
    assert_eq!(from_plain.len(), 6);
    assert!(breakdown.total.skipped.iter().all(|s| s.path == PathBuf::from("/mix")));
    assert_eq!(breakdown.total.skipped.len(), 2);
    assert_eq!(named(&breakdown, "sub").unwrap().report.skipped.len(), 2);
    assert_eq!(breakdown.total.usage, plain.usage);
}
