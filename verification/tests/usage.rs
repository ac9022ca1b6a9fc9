use std::io;
use std::path::PathBuf;

use strict_du::{
    crosses_boundary, disk_bytes, handle_error, root_device, DiskUsage, EntryMeta, ScanOptions,
    ScanReport, Seen,
};

#[test]
fn default_options_are_strict_and_stay_put() {
    let o = ScanOptions::default();
    assert!(!o.lenient);
    assert!(!o.follow_symlinks);
    assert!(!o.one_filesystem);
}

#[test]
fn usage_counts_add_up() {
    let mut u = DiskUsage::default();
    assert_eq!(u, DiskUsage { bytes: 0, files: 0, dirs: 0 });
    u.add_file(4096);
    u.add_dir();
    u.add_file(512);
    assert_eq!(u, DiskUsage { bytes: 4608, files: 2, dirs: 1 });
    let mut v = DiskUsage { bytes: 1, files: 2, dirs: 3 };
    v.add_assign(u);
    assert_eq!(v, DiskUsage { bytes: 4609, files: 4, dirs: 4 });
}

#[test]
fn usage_formats_its_bytes() {
    let u = DiskUsage { bytes: 1024 * 1024 * 4 + 1024 * 200, files: 1, dirs: 0 };
    assert_eq!(u.human_bytes(), "4.2 MiB");
    assert_eq!(DiskUsage::default().human_bytes(), "0 B");
}

#[test]
fn handle_error_records_or_returns() {
    let mut report = ScanReport::default();
    let strict = ScanOptions::default();
    let err = io::Error::new(io::ErrorKind::PermissionDenied, "denied");
    let r = handle_error(PathBuf::from("/x"), err, &strict, &mut report);
    assert_eq!(r.unwrap_err().kind(), io::ErrorKind::PermissionDenied);
    assert!(report.skipped.is_empty());

    let lenient = ScanOptions { lenient: true, ..ScanOptions::default() };
    let err = io::Error::new(io::ErrorKind::NotFound, "gone");
    assert!(handle_error(PathBuf::from("/y"), err, &lenient, &mut report).is_ok());
    assert_eq!(report.skipped.len(), 1);
    assert_eq!(report.skipped[0].path, PathBuf::from("/y"));
    assert_eq!(report.skipped[0].error.kind(), io::ErrorKind::NotFound);
    assert_eq!(report.usage, DiskUsage::default());
}

#[test]
fn disk_bytes_charges_blocks_and_dedupes_links() {
    let mut seen = Seen::new();
    let single = EntryMeta { is_dir: false, dev: 1, ino: 7, nlink: 1, blocks: 3, length: None };
    assert_eq!(disk_bytes(&single, &mut seen), 1536);
    assert_eq!(disk_bytes(&single, &mut seen), 1536);

    let linked = EntryMeta { is_dir: false, dev: 1, ino: 8, nlink: 2, blocks: 8, length: None };
    assert_eq!(disk_bytes(&linked, &mut seen), 4096);
    assert_eq!(disk_bytes(&linked, &mut seen), 0);
    assert!(seen.contains(1, 8));
    assert!(!seen.contains(1, 7));

    // Same inode number on another device is another file.
    let elsewhere = EntryMeta { is_dir: false, dev: 2, ino: 8, nlink: 2, blocks: 8, length: None };
    assert_eq!(disk_bytes(&elsewhere, &mut seen), 4096);
}

#[test]
fn boundary_only_with_one_filesystem() {
    let meta = EntryMeta { is_dir: true, dev: 5, ino: 1, nlink: 2, blocks: 8, length: None };
    assert_eq!(root_device(&meta, &ScanOptions::default()), None);
    let one = ScanOptions { one_filesystem: true, ..ScanOptions::default() };
    assert_eq!(root_device(&meta, &one), Some(5));
    let other = EntryMeta { dev: 6, ..meta };
    assert!(crosses_boundary(&Some(5), &other));
    assert!(!crosses_boundary(&Some(5), &meta));
    assert!(!crosses_boundary(&None, &other));
}

#[test]
fn reported_length_is_charged_as_it_is() {
    let mut seen = Seen::new();
    let meta = EntryMeta { is_dir: false, dev: 0, ino: 0, nlink: 2, blocks: 0, length: Some(1234) };
    assert_eq!(disk_bytes(&meta, &mut seen), 1234);
    assert_eq!(disk_bytes(&meta, &mut seen), 1234);
    assert!(!seen.contains(0, 0));
}
