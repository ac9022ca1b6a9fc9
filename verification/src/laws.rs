//! What holds of every walk: the promises of strict and lenient mode, hard
//! link deduplication, the file-system boundary, and the agreement of a
//! breakdown with a plain scan.

use vstd::prelude::*;

use crate::meta::{counted_bytes, crosses, seen_after, EntryMeta};
use crate::usage::{DiskUsage, ReportView, SkippedEntry};
use crate::walk::{Outcome, Phase, Request, WalkView};

verus! {

/// The shape every reachable walk has: which phases have directories open,
/// and, in a breakdown, exactly when an immediate child is being measured.
pub open spec fn well_formed(s: WalkView) -> bool {
    &&& !s.breakdown ==> s.child is None
    &&& s.dirs.len() > 0 ==> s.dirs[0] == s.root
    &&& s.phase matches Phase::RootMetadata(p) ==> p == s.root
    &&& s.dirs.len() == 0 ==> (s.phase matches Phase::OpenDir(p) ==> p == s.root)
    &&& match s.phase {
        Phase::RootMetadata(_) => s.dirs.len() == 0 && s.child is None,
        Phase::OpenDir(_) => s.breakdown ==> (s.child is Some <==> s.dirs.len() >= 1),
        Phase::ChildMetadata(_) => s.dirs.len() >= 1 && (s.breakdown ==> s.child is Some),
        Phase::Listing => s.dirs.len() >= 1 && (s.breakdown ==> (s.child is Some <==> s.dirs.len() >= 2)),
        Phase::Finished => true,
    }
}

/// A walk that has not started is well formed.
pub proof fn law_start_well_formed(root: std::path::PathBuf, options: crate::usage::ScanOptions, breakdown: bool)
    ensures
        well_formed(WalkView::start(root, options, breakdown)),
        total_is_sum(WalkView::start(root, options, breakdown)),
        total_skips_only_root(WalkView::start(root, options, breakdown)),
        all_skipped(WalkView::start(root, options, breakdown)).len() == 0,
{
    let s = WalkView::start(root, options, breakdown);
    assert(all_skipped(s) =~= Seq::<SkippedEntry>::empty());
}

/// Every step keeps a walk well formed.
pub proof fn law_step_keeps_well_formed(s: WalkView, o: Outcome)
    requires
        well_formed(s),
        s.accepts(o),
    ensures
        well_formed(s.next(o).0),
{
}


/// The usage of the child a breakdown is measuring; nothing when none is.
pub open spec fn child_usage(b: WalkView) -> DiskUsage {
    match b.child {
        Some(c) => c.1.usage,
        None => DiskUsage::zero(),
    }
}

/// `b`, a breakdown, and `s`, a plain scan, have made the same walk: the
/// same phase, open directories, hard-link ledger and boundary, the scan's
/// usage is the breakdown's total plus the child in progress, and the
/// skipped entries of all the breakdown's reports are the scan's.
pub open spec fn mirrors(b: WalkView, s: WalkView) -> bool {
    &&& walks_alike(b, s)
    &&& all_skipped(b).to_multiset() == all_skipped(s).to_multiset()
}

/// The part of `mirrors` that concerns the walk and its usage.
pub open spec fn walks_alike(b: WalkView, s: WalkView) -> bool {
    &&& b.breakdown
    &&& !s.breakdown
    &&& well_formed(b)
    &&& well_formed(s)
    &&& b.root == s.root
    &&& b.options == s.options
    &&& b.phase == s.phase
    &&& b.dirs == s.dirs
    &&& b.seen == s.seen
    &&& b.boundary == s.boundary
    &&& s.total.usage.bytes == b.total.usage.bytes + child_usage(b).bytes
    &&& s.total.usage.files == b.total.usage.files + child_usage(b).files
    &&& s.total.usage.dirs == b.total.usage.dirs + child_usage(b).dirs
}

proof fn lemma_walks_alike_step(b: WalkView, s: WalkView, o: Outcome)
    requires
        walks_alike(b, s),
        s.accepts(o),
    ensures
        b.accepts(o),
        b.next(o).1 == s.next(o).1,
        walks_alike(b.next(o).0, s.next(o).0),
{
    law_step_keeps_well_formed(s, o);
    assert(b.accepts(o));
    law_step_keeps_well_formed(b, o);
}

/// A breakdown and a plain scan of the same root start out mirrored.
pub proof fn law_breakdown_starts_mirrored(root: std::path::PathBuf, options: crate::usage::ScanOptions)
    ensures
        mirrors(WalkView::start(root, options, true), WalkView::start(root, options, false)),
{
}

/// Fed the same outcomes, a breakdown makes the same requests as a plain
/// scan, accepts whatever the scan accepts, and stays mirrored with it.
pub proof fn law_breakdown_mirrors_scan(b: WalkView, s: WalkView, o: Outcome)
    requires
        mirrors(b, s),
        s.accepts(o),
    ensures
        b.accepts(o),
        b.next(o).1 == s.next(o).1,
        mirrors(b.next(o).0, s.next(o).0),
{
    lemma_walks_alike_step(b, s, o);
    assert(failing_path(b) == failing_path(s));
    if b.next(o).1 is Abort {
        assert(all_skipped(b.next(o).0) == all_skipped(b));
        assert(all_skipped(s.next(o).0) == all_skipped(s));
    } else {
        law_skips_follow_errors(b, o);
        law_skips_follow_errors(s, o);
    }
}

/// Once a breakdown is done, no child is left unfinished, so its total is
/// exactly the usage the mirrored plain scan reports.
pub proof fn law_breakdown_total_is_scan_total(b: WalkView, s: WalkView, o: Outcome)
    requires
        mirrors(b, s),
        s.accepts(o),
        s.next(o).1 is Done,
    ensures
        b.next(o).0.total.usage == s.next(o).0.total.usage,
{
    law_breakdown_mirrors_scan(b, s, o);
}


/// The error an outcome reports, if it reports one.
pub open spec fn error_of(o: Outcome) -> Option<std::io::Error> {
    match o {
        Outcome::MetadataError(e) => Some(e),
        Outcome::DirError(e) => Some(e),
        Outcome::EntryError(e) => Some(e),
        _ => None,
    }
}

/// The path an error reported in `s` is charged to: the entry whose
/// metadata was asked for, the directory being opened, or the directory
/// being listed.
pub open spec fn failing_path(s: WalkView) -> std::path::PathBuf {
    match s.phase {
        Phase::RootMetadata(p) => p,
        Phase::ChildMetadata(p) => p,
        Phase::OpenDir(p) => p,
        _ => s.dirs.last(),
    }
}

/// A strict walk ends at the first error, handing that very error back.
pub proof fn law_strict_error_aborts(s: WalkView, o: Outcome)
    requires
        !s.options.lenient,
        s.accepts(o),
        error_of(o) is Some,
    ensures
        s.next(o).1 == Request::Abort(error_of(o).unwrap()),
        s.next(o).0.phase is Finished,
{
}

/// A lenient walk never aborts: it runs to completion.
pub proof fn law_lenient_never_aborts(s: WalkView, o: Outcome)
    requires
        s.options.lenient,
        s.accepts(o),
    ensures
        !(s.next(o).1 is Abort),
{
}

/// The skipped entries of every report of a walk: the finished children's,
/// the total's and the child in progress's.
pub open spec fn all_skipped(s: WalkView) -> Seq<SkippedEntry> {
    entries_skipped(s.entries) + s.total.skipped + match s.child {
        Some(c) => c.1.skipped,
        None => Seq::empty(),
    }
}

/// The skipped entries of a list of child reports, in order.
pub open spec fn entries_skipped(entries: Seq<(std::path::PathBuf, ReportView)>) -> Seq<SkippedEntry>
    decreases entries.len(),
{
    if entries.len() == 0 {
        Seq::empty()
    } else {
        entries_skipped(entries.drop_last()) + entries.last().1.skipped
    }
}

/// Skipped entries are recorded for errors only, one for each error, under
/// the path the error belongs to; nothing else adds or removes one.
pub proof fn law_skips_follow_errors(s: WalkView, o: Outcome)
    requires
        well_formed(s),
        s.accepts(o),
        !(s.next(o).1 is Abort),
    ensures
        error_of(o) is None ==> all_skipped(s.next(o).0).to_multiset() == all_skipped(s).to_multiset(),
        error_of(o) is Some ==> all_skipped(s.next(o).0).to_multiset() == all_skipped(s).to_multiset().insert(
            SkippedEntry { path: failing_path(s), error: error_of(o).unwrap() },
        ),
{
    let x = SkippedEntry { path: failing_path(s), error: error_of(o).unwrap_or(arbitrary()) };
    lemma_skipped_multiset(s);
    match s.phase {
        Phase::RootMetadata(root) => match o {
            Outcome::Metadata(m) => {
                if !m.is_dir {
                    lemma_skipped_multiset(s.root_file(root));
                    lemma_skipped_multiset(s.root_file(root).count_file(m));
                    lemma_resume_keeps_skipped(s.root_file(root).count_file(m));
                }
            },
            Outcome::MetadataError(e) => lemma_fail_records(s, root, e),
            _ => {},
        },
        Phase::ChildMetadata(path) => match o {
            Outcome::Metadata(m) => {
                if m.is_dir {
                    if crosses(s.boundary, m) {
                        lemma_resume_keeps_skipped(s);
                    } else {
                        lemma_skipped_multiset(s.count_dir());
                        lemma_skipped_multiset(s.next(o).0);
                    }
                } else {
                    lemma_skipped_multiset(s.count_file(m));
                    lemma_resume_keeps_skipped(s.count_file(m));
                }
            },
            Outcome::MetadataError(e) => lemma_fail_records(s, path, e),
            _ => {},
        },
        Phase::OpenDir(dir) => match o {
            Outcome::DirOpened => lemma_skipped_multiset(s.next(o).0),
            Outcome::DirError(e) => lemma_fail_records(s, dir, e),
            _ => {},
        },
        Phase::Listing => match o {
            Outcome::Entry(path) => lemma_skipped_multiset(s.next(o).0),
            Outcome::EntryError(e) => lemma_fail_records(s, s.dirs.last(), e),
            Outcome::EndOfDir => {
                lemma_skipped_multiset(s.leave_dir());
                lemma_resume_keeps_skipped(s.leave_dir());
            },
            _ => {},
        },
        Phase::Finished => {},
    }
}

/// The skipped entries of the child in progress, if any.
pub open spec fn child_skipped(s: WalkView) -> Seq<SkippedEntry> {
    match s.child {
        Some(c) => c.1.skipped,
        None => Seq::empty(),
    }
}

proof fn lemma_skipped_multiset(s: WalkView)
    ensures
        all_skipped(s).to_multiset() =~= entries_skipped(s.entries).to_multiset().add(
            s.total.skipped.to_multiset(),
        ).add(child_skipped(s).to_multiset()),
{
    vstd::seq_lib::lemma_multiset_commutative(entries_skipped(s.entries), s.total.skipped);
    vstd::seq_lib::lemma_multiset_commutative(
        entries_skipped(s.entries) + s.total.skipped,
        child_skipped(s),
    );
    assert(all_skipped(s) == (entries_skipped(s.entries) + s.total.skipped) + child_skipped(s));
}

proof fn lemma_resume_keeps_skipped(s: WalkView)
    ensures
        all_skipped(s.resume().0).to_multiset() =~= all_skipped(s).to_multiset(),
{
    broadcast use vstd::multiset::group_multiset_axioms;
    broadcast use vstd::seq_lib::group_to_multiset_ensures;

    let t = s.resume().0;
    lemma_skipped_multiset(s);
    lemma_skipped_multiset(t);
    if s.child_complete() {
        let c = s.child.unwrap();
        assert(t.entries == s.entries.push(c));
        assert(s.entries.push(c).drop_last() =~= s.entries);
        assert(entries_skipped(t.entries) == entries_skipped(s.entries) + c.1.skipped);
        vstd::seq_lib::lemma_multiset_commutative(entries_skipped(s.entries), c.1.skipped);
        assert(t.total.skipped == s.total.skipped);
        assert(child_skipped(t) =~= Seq::<SkippedEntry>::empty());
        assert(child_skipped(t).to_multiset() =~= vstd::multiset::Multiset::<SkippedEntry>::empty());
        assert(child_skipped(s) == c.1.skipped);
    } else {
        assert(all_skipped(t) == all_skipped(s));
    }
}

proof fn lemma_fail_records(s: WalkView, path: std::path::PathBuf, e: std::io::Error)
    requires
        s.options.lenient,
    ensures
        all_skipped(s.fail(path, e).0).to_multiset() =~= all_skipped(s).to_multiset().insert(
            SkippedEntry { path, error: e },
        ),
{
    broadcast use vstd::multiset::group_multiset_axioms;
    broadcast use vstd::seq_lib::group_to_multiset_ensures;

    let r = s.set_target(s.target().record(path, e));
    lemma_skipped_multiset(s);
    lemma_skipped_multiset(r);
    lemma_resume_keeps_skipped(r);
}


/// A strict walk never records a skipped entry: its reports stay free of
/// skips for as long as it runs.
pub proof fn law_strict_never_skips(s: WalkView, o: Outcome)
    requires
        well_formed(s),
        !s.options.lenient,
        s.accepts(o),
        all_skipped(s).len() == 0,
    ensures
        all_skipped(s.next(o).0).len() == 0,
{
    broadcast use vstd::seq_lib::group_to_multiset_ensures;

    if error_of(o) is Some {
        law_strict_error_aborts(s, o);
        assert(all_skipped(s.next(o).0) == all_skipped(s));
    } else {
        law_skips_follow_errors(s, o);
        assert(all_skipped(s.next(o).0).to_multiset().len() == all_skipped(s).to_multiset().len());
    }
}

/// A file with several links is charged once: after it is counted, any
/// other name for the same inode is charged nothing.
pub proof fn law_linked_file_counted_once(meta: EntryMeta, other: EntryMeta, seen: Set<(u64, u64)>)
    requires
        meta.length is None,
        other.length is None,
        meta.nlink > 1,
        other.nlink > 1,
        other.dev == meta.dev,
        other.ino == meta.ino,
    ensures
        counted_bytes(other, seen_after(meta, seen)) == 0,
{
}

/// A file with a single link is always charged its allocated blocks.
pub proof fn law_single_link_always_counted(meta: EntryMeta, seen: Set<(u64, u64)>)
    requires
        meta.length is None,
        meta.nlink <= 1,
        meta.blocks * 512 <= u64::MAX,
    ensures
        counted_bytes(meta, seen) == meta.blocks * 512,
        seen_after(meta, seen) == seen,
{
}

/// The hard-link ledger only grows during a walk, across all children of a
/// breakdown alike.
pub proof fn law_seen_only_grows(s: WalkView, o: Outcome)
    requires
        s.accepts(o),
    ensures
        s.seen.subset_of(s.next(o).0.seen),
{
}

/// The usage a walk has counted so far, over all its reports, as integers.
pub open spec fn counted_usage(s: WalkView) -> (int, int, int) {
    (
        s.total.usage.bytes + child_usage(s).bytes,
        s.total.usage.files + child_usage(s).files,
        s.total.usage.dirs + child_usage(s).dirs,
    )
}

/// With a boundary set, a directory on another device is neither opened
/// nor counted.
pub proof fn law_other_filesystem_not_walked(s: WalkView, m: EntryMeta)
    requires
        s.phase is ChildMetadata,
        m.is_dir,
        crosses(s.boundary, m),
        s.accepts(Outcome::Metadata(m)),
    ensures
        !(s.next(Outcome::Metadata(m)).1 is ReadDir),
        counted_usage(s.next(Outcome::Metadata(m)).0) == counted_usage(s),
        s.next(Outcome::Metadata(m)).0.seen == s.seen,
{
}

/// Without `one_filesystem` no boundary is ever set, so no directory is
/// ever excluded.
pub proof fn law_no_boundary_without_option(s: WalkView, o: Outcome)
    requires
        !s.options.one_filesystem,
        s.boundary is None,
        s.accepts(o),
    ensures
        s.next(o).0.boundary is None,
{
}

/// Every metadata request follows symlinks exactly when the options say so.
pub proof fn law_metadata_follows_option(s: WalkView, o: Outcome)
    requires
        s.accepts(o),
        s.next(o).1 is Metadata,
    ensures
        s.next(o).1 == (Request::Metadata {
            path: s.next(o).1->Metadata_path,
            follow_symlinks: s.options.follow_symlinks,
        }),
{
}

/// In a breakdown, an error met while measuring a child is kept in that
/// child's report: the total's skipped entries do not change.
pub proof fn law_child_errors_stay_with_child(s: WalkView, o: Outcome)
    requires
        well_formed(s),
        s.breakdown,
        s.child is Some,
        s.accepts(o),
    ensures
        s.next(o).0.total.skipped == s.total.skipped,
{
}

/// In a breakdown, an immediate child that is a directory on another
/// device is still listed, with an empty report.
pub proof fn law_crossing_child_listed_empty(s: WalkView, path: std::path::PathBuf, m: EntryMeta)
    requires
        s.breakdown,
        s.phase == Phase::ChildMetadata(path),
        s.dirs.len() == 1,
        s.child == Some((path, ReportView::empty())),
        m.is_dir,
        crosses(s.boundary, m),
        s.accepts(Outcome::Metadata(m)),
    ensures
        s.next(Outcome::Metadata(m)).0.entries == s.entries.push((path, ReportView::empty())),
        s.next(Outcome::Metadata(m)).0.total.usage == s.total.usage,
        s.next(Outcome::Metadata(m)).1 == Request::NextEntry,
{
}


/// When the root is a file, a plain scan charges it and is done.
pub proof fn law_file_root_measured_directly(s: WalkView, root: std::path::PathBuf, m: EntryMeta)
    requires
        well_formed(s),
        !s.breakdown,
        s.phase == Phase::RootMetadata(root),
        !m.is_dir,
        s.accepts(Outcome::Metadata(m)),
    ensures
        s.next(Outcome::Metadata(m)).1 == Request::Done,
        s.next(Outcome::Metadata(m)).0.total.usage == s.total.usage.with_file(counted_bytes(m, s.seen)),
{
}

/// When the root is a file, a breakdown lists it as its one entry, charged
/// for the file, and is done.
pub proof fn law_file_root_single_entry(s: WalkView, root: std::path::PathBuf, m: EntryMeta)
    requires
        well_formed(s),
        s.breakdown,
        s.phase == Phase::RootMetadata(root),
        !m.is_dir,
        s.accepts(Outcome::Metadata(m)),
    ensures
        s.next(Outcome::Metadata(m)).1 == Request::Done,
        s.next(Outcome::Metadata(m)).0.entries == s.entries.push(
            (root, ReportView { usage: DiskUsage::zero().with_file(counted_bytes(m, s.seen)), skipped: Seq::empty() }),
        ),
{
}


/// The usage of a list of child reports, summed field by field.
pub open spec fn entries_usage(entries: Seq<(std::path::PathBuf, ReportView)>) -> (int, int, int)
    decreases entries.len(),
{
    if entries.len() == 0 {
        (0, 0, 0)
    } else {
        let r = entries_usage(entries.drop_last());
        let u = entries.last().1.usage;
        (r.0 + u.bytes, r.1 + u.files, r.2 + u.dirs)
    }
}

/// A breakdown's total is the sum of the usage of its finished entries.
pub open spec fn total_is_sum(s: WalkView) -> bool {
    let sum = entries_usage(s.entries);
    s.breakdown ==> (s.total.usage.bytes == sum.0 && s.total.usage.files == sum.1
        && s.total.usage.dirs == sum.2)
}

/// A breakdown starts with a total that is the (empty) sum of its entries.
pub proof fn law_breakdown_total_starts_as_sum(root: std::path::PathBuf, options: crate::usage::ScanOptions)
    ensures
        total_is_sum(WalkView::start(root, options, true)),
{
}

/// Every step keeps a breakdown's total equal to the sum of its entries'
/// usage; with the child in progress, that sum is everything counted.
pub proof fn law_breakdown_total_is_sum_of_entries(s: WalkView, o: Outcome)
    requires
        well_formed(s),
        total_is_sum(s),
        s.accepts(o),
    ensures
        total_is_sum(s.next(o).0),
        s.breakdown ==> counted_usage(s.next(o).0) == (
            entries_usage(s.next(o).0.entries).0 + child_usage(s.next(o).0).bytes,
            entries_usage(s.next(o).0.entries).1 + child_usage(s.next(o).0).files,
            entries_usage(s.next(o).0.entries).2 + child_usage(s.next(o).0).dirs,
        ),
{
    let t = s.next(o).0;
    if t.entries.len() == s.entries.len() {
        assert(t.entries =~= s.entries);
    } else {
        assert(t.entries =~= s.entries.push(t.entries.last()));
        assert(t.entries.drop_last() =~= s.entries);
    }
}

/// The state `s` with leniency set to `lenient` and nothing else changed.
pub open spec fn with_leniency(s: WalkView, lenient: bool) -> WalkView {
    WalkView { options: crate::usage::ScanOptions { lenient, ..s.options }, ..s }
}

/// Leniency matters only for errors: fed an outcome that is not an error, a
/// lenient and a strict walk accept alike, make the same request, and stay
/// alike apart from the option itself (so neither records a skip).
pub proof fn law_leniency_matters_only_for_errors(s: WalkView, lenient: bool, o: Outcome)
    requires
        error_of(o) is None,
    ensures
        with_leniency(s, lenient).accepts(o) == s.accepts(o),
        with_leniency(s, lenient).next(o).1 == s.next(o).1,
        with_leniency(s, lenient).next(o).0 == with_leniency(s.next(o).0, lenient),
{
}

/// In a breakdown, the total's skipped entries are all failures on the
/// root itself: errors below the root are kept with the child they
/// belong to.
pub open spec fn total_skips_only_root(s: WalkView) -> bool {
    s.breakdown ==> forall|i: int| 0 <= i < s.total.skipped.len() ==> #[trigger] s.total.skipped[i].path == s.root
}

/// Every step keeps a breakdown's total free of skips below the root.
pub proof fn law_total_skips_only_root(s: WalkView, o: Outcome)
    requires
        well_formed(s),
        total_skips_only_root(s),
        s.accepts(o),
    ensures
        total_skips_only_root(s.next(o).0),
{
}


/// With a boundary set to device `d`, a directory is excluded exactly when
/// its device differs from `d`; without a boundary, nothing is excluded.
pub proof fn law_boundary_is_device_inequality(d: u64, m: EntryMeta)
    ensures
        crosses(Some(d), m) == (m.dev != d),
        !crosses(None, m),
{
}

/// With a boundary on device `d`, a directory found on any other device is
/// neither opened nor counted, whichever way the device numbers compare.
pub proof fn law_other_device_directory_skipped(s: WalkView, path: std::path::PathBuf, m: EntryMeta, d: u64)
    requires
        s.phase == Phase::ChildMetadata(path),
        s.boundary == Some(d),
        m.is_dir,
        m.dev != d,
        s.accepts(Outcome::Metadata(m)),
    ensures
        !(s.next(Outcome::Metadata(m)).1 is ReadDir),
        counted_usage(s.next(Outcome::Metadata(m)).0) == counted_usage(s),
{
}

/// A directory on the boundary's own device, or found with no boundary set,
/// is counted once and opened next.
pub proof fn law_same_device_directory_walked(s: WalkView, path: std::path::PathBuf, m: EntryMeta)
    requires
        s.phase == Phase::ChildMetadata(path),
        s.boundary is None || s.boundary == Some(m.dev),
        m.is_dir,
        s.accepts(Outcome::Metadata(m)),
    ensures
        s.next(Outcome::Metadata(m)).1 == (Request::ReadDir { path }),
        counted_usage(s.next(Outcome::Metadata(m)).0) == (
            counted_usage(s).0,
            counted_usage(s).1,
            counted_usage(s).2 + 1,
        ),
{
}

/// Counting a file of `bytes` bytes raises the byte total by exactly
/// `bytes` and the file count by one, and leaves directories alone.
pub proof fn law_with_file_adds_exactly(u: DiskUsage, bytes: u64)
    requires
        u.bytes + bytes <= u64::MAX,
        u.files < u64::MAX,
    ensures
        u.can_add_file(bytes),
        u.with_file(bytes).bytes == u.bytes + bytes,
        u.with_file(bytes).files == u.files + 1,
        u.with_file(bytes).dirs == u.dirs,
{
}

/// Counting a directory raises the directory count by one only.
pub proof fn law_with_dir_adds_exactly(u: DiskUsage)
    requires
        u.dirs < u64::MAX,
    ensures
        u.can_add_dir(),
        u.with_dir().dirs == u.dirs + 1,
        u.with_dir().bytes == u.bytes,
        u.with_dir().files == u.files,
{
}

/// Adding one usage to another sums them field by field.
pub proof fn law_plus_adds_exactly(u: DiskUsage, v: DiskUsage)
    requires
        u.bytes + v.bytes <= u64::MAX,
        u.files + v.files <= u64::MAX,
        u.dirs + v.dirs <= u64::MAX,
    ensures
        u.can_add(v),
        u.plus(v).bytes == u.bytes + v.bytes,
        u.plus(v).files == u.files + v.files,
        u.plus(v).dirs == u.dirs + v.dirs,
{
}

/// A file found while listing raises what the walk has counted by exactly
/// the bytes it is charged, and the file count by one.
pub proof fn law_file_adds_its_charge(s: WalkView, path: std::path::PathBuf, m: EntryMeta)
    requires
        s.phase == Phase::ChildMetadata(path),
        !m.is_dir,
        s.accepts(Outcome::Metadata(m)),
    ensures
        counted_usage(s.next(Outcome::Metadata(m)).0) == (
            counted_usage(s).0 + counted_bytes(m, s.seen),
            counted_usage(s).1 + 1,
            counted_usage(s).2,
        ),
{
}

/// A file with only a length reported is charged that length.
pub proof fn law_length_charged_as_is(meta: EntryMeta, len: u64, seen: Set<(u64, u64)>)
    requires
        meta.length == Some(len),
    ensures
        counted_bytes(meta, seen) == len,
        seen_after(meta, seen) == seen,
{
}

/// The first name seen for a multiply-linked inode is charged its blocks
/// in full; only its own (device, inode) pair joins the ledger.
pub proof fn law_first_name_charged_in_full(meta: EntryMeta, seen: Set<(u64, u64)>)
    requires
        meta.length is None,
        meta.nlink > 1,
        !seen.contains((meta.dev, meta.ino)),
        meta.blocks * 512 <= u64::MAX,
    ensures
        counted_bytes(meta, seen) == meta.blocks * 512,
        forall|id: (u64, u64)| seen_after(meta, seen).contains(id) <==> (seen.contains(id) || id == (meta.dev, meta.ino)),
{
}

/// Charging a file adds to the ledger at most its own (device, inode)
/// pair: every other pair is in the ledger afterwards exactly when it was
/// before.
pub proof fn law_ledger_gains_only_own_inode(meta: EntryMeta, seen: Set<(u64, u64)>, id: (u64, u64))
    requires
        id != (meta.dev, meta.ino),
    ensures
        seen_after(meta, seen).contains(id) == seen.contains(id),
        seen.subset_of(seen_after(meta, seen)),
{
}

/// Whether `o` is an answer to the request the walk made last.
pub open spec fn answers(s: WalkView, o: Outcome) -> bool {
    match s.phase {
        Phase::RootMetadata(_) => o is Metadata || o is MetadataError,
        Phase::ChildMetadata(_) => o is Metadata || o is MetadataError,
        Phase::OpenDir(_) => o is DirOpened || o is DirError,
        Phase::Listing => s.dirs.len() > 0 && (o is Entry || o is EntryError || o is EndOfDir),
        Phase::Finished => false,
    }
}

/// The walk accepts only answers to its last request.
pub proof fn law_accepts_only_answers(s: WalkView, o: Outcome)
    requires
        s.accepts(o),
    ensures
        answers(s, o),
{
}

/// A strict walk accepts every error that answers its last request, so the
/// error is handed back rather than refused.
pub proof fn law_strict_accepts_every_error(s: WalkView, o: Outcome)
    requires
        !s.options.lenient,
        answers(s, o),
        error_of(o) is Some,
    ensures
        s.accepts(o),
        s.next(o).1 == Request::Abort(error_of(o).unwrap()),
{
}

/// A lenient walk accepts every error that answers its last request,
/// unless folding a finished child into the total would overflow it; it
/// then records the error and goes on.
pub proof fn law_lenient_accepts_every_error(s: WalkView, o: Outcome)
    requires
        s.options.lenient,
        answers(s, o),
        error_of(o) is Some,
        (s.breakdown && s.child is Some && s.dirs.len() <= 1) ==> (
            s.total.usage.bytes + child_usage(s).bytes <= u64::MAX
            && s.total.usage.files + child_usage(s).files <= u64::MAX
            && s.total.usage.dirs + child_usage(s).dirs <= u64::MAX),
    ensures
        s.accepts(o),
        !(s.next(o).1 is Abort),
{
}

/// An opened directory and a listed entry are always accepted as answers.
pub proof fn law_openings_always_accepted(s: WalkView, o: Outcome)
    requires
        answers(s, o),
        o is DirOpened || o is Entry,
    ensures
        s.accepts(o),
{
}

/// During a walk, the ledger gains at most the (device, inode) pair of the
/// file whose metadata is the outcome, and nothing on any other outcome.
pub proof fn law_walk_ledger_gains_only_charged_inode(s: WalkView, o: Outcome, id: (u64, u64))
    requires
        s.accepts(o),
        !s.seen.contains(id),
        s.next(o).0.seen.contains(id),
    ensures
        o is Metadata && id == (o->Metadata_0.dev, o->Metadata_0.ino) && !o->Metadata_0.is_dir,
{
}


/// The end of a listing is accepted as an answer unless folding a finished
/// child into the total would overflow it; the walk then returns to the
/// enclosing directory, or is done when that was the outermost one.
pub proof fn law_end_of_dir_returns_outward(s: WalkView)
    requires
        answers(s, Outcome::EndOfDir),
        (s.breakdown && s.child is Some && s.dirs.len() <= 2) ==> (
            s.total.usage.bytes + child_usage(s).bytes <= u64::MAX
            && s.total.usage.files + child_usage(s).files <= u64::MAX
            && s.total.usage.dirs + child_usage(s).dirs <= u64::MAX),
    ensures
        s.accepts(Outcome::EndOfDir),
        s.next(Outcome::EndOfDir).0.dirs == s.dirs.drop_last(),
        s.next(Outcome::EndOfDir).1 == if s.dirs.len() == 1 { Request::Done } else { Request::NextEntry },
{
}

/// A listed entry is looked at next: its metadata is asked for, by its own
/// path.
pub proof fn law_entry_metadata_requested(s: WalkView, path: std::path::PathBuf)
    requires
        answers(s, Outcome::Entry(path)),
    ensures
        s.next(Outcome::Entry(path)).1 == (Request::Metadata { path, follow_symlinks: s.options.follow_symlinks }),
        s.next(Outcome::Entry(path)).0.dirs == s.dirs,
{
}

/// An opened directory is listed next, inside the directories already open.
pub proof fn law_opened_directory_listed(s: WalkView, dir: std::path::PathBuf)
    requires
        s.phase == Phase::OpenDir(dir),
    ensures
        s.next(Outcome::DirOpened).0.dirs == s.dirs.push(dir),
        s.next(Outcome::DirOpened).1 == Request::NextEntry,
{
}

/// A root that is a directory is opened next, without being counted, and
/// the boundary becomes its device exactly when `one_filesystem` is set.
pub proof fn law_root_directory_opened(s: WalkView, root: std::path::PathBuf, m: EntryMeta)
    requires
        s.phase == Phase::RootMetadata(root),
        m.is_dir,
    ensures
        s.accepts(Outcome::Metadata(m)),
        s.next(Outcome::Metadata(m)).1 == (Request::ReadDir { path: root }),
        s.next(Outcome::Metadata(m)).0.boundary == if s.options.one_filesystem { Some(m.dev) } else { None },
        counted_usage(s.next(Outcome::Metadata(m)).0) == counted_usage(s),
{
}

/// A file found while listing is accepted whenever charging it cannot
/// overflow anything.
pub proof fn law_file_accepted_when_it_fits(s: WalkView, path: std::path::PathBuf, m: EntryMeta)
    requires
        s.phase == Phase::ChildMetadata(path),
        !m.is_dir,
        m.length is None ==> m.blocks * 512 <= u64::MAX,
        s.breakdown ==> s.child is Some,
        s.target().usage.bytes + counted_bytes(m, s.seen) <= u64::MAX,
        s.target().usage.files < u64::MAX,
        (s.breakdown && s.dirs.len() <= 1) ==> (
            s.total.usage.bytes + s.target().usage.bytes + counted_bytes(m, s.seen) <= u64::MAX
            && s.total.usage.files + s.target().usage.files + 1 <= u64::MAX
            && s.total.usage.dirs + s.target().usage.dirs <= u64::MAX),
    ensures
        s.accepts(Outcome::Metadata(m)),
{
}

} // verus!
