//! What a scan reads off an entry's metadata, and the hard-link ledger.

use vstd::prelude::*;

use crate::usage::ScanOptions;

verus! {

broadcast use vstd::std_specs::hash::group_hash_axioms;

/// The facts of an entry's metadata that a scan decides on.
#[derive(Debug, Clone, Copy, PartialEq, Eq, Structural)]
pub struct EntryMeta {
    /// Whether the entry is a directory.
    pub is_dir: bool,
    /// The device the entry lives on (`st_dev`).
    pub dev: u64,
    /// The inode number (`st_ino`).
    pub ino: u64,
    /// How many names the inode has (`st_nlink`).
    pub nlink: u64,
    /// 512-byte blocks allocated to the entry (`st_blocks`).
    pub blocks: u64,
    /// Where the platform reports no allocated blocks, devices or inodes,
    /// the entry's length, which is then charged as it is.
    pub length: Option<u64>,
}

/// Whether a file's charge can be computed: a reported length is charged
/// as it is, otherwise the byte figure of its blocks must fit in `u64`.
pub open spec fn charge_fits(meta: EntryMeta) -> bool {
    meta.length is Some || meta.blocks * 512 <= u64::MAX
}

/// The key a (device, inode) pair is stored under: the two numbers side by
/// side in one 128-bit integer.
pub open spec fn inode_key(id: (u64, u64)) -> u128 {
    (id.0 as int * 0x1_0000_0000_0000_0000 + id.1 as int) as u128
}

/// (device, inode) pairs already counted, so a file with several hard links
/// only contributes its disk usage once per scan.
#[derive(Debug)]
pub struct Seen {
    inodes: std::collections::HashSet<u128>,
}

impl View for Seen {
    type V = Set<(u64, u64)>;

    closed spec fn view(&self) -> Set<(u64, u64)> {
        Set::new(|id: (u64, u64)| self.inodes@.contains(inode_key(id)))
    }
}

impl Seen {
    /// Nothing counted yet.
    pub fn new() -> (s: Seen)
        ensures
            s@ == Set::<(u64, u64)>::empty(),
    {
        let s = Seen { inodes: std::collections::HashSet::new() };
        assert(s@ =~= Set::<(u64, u64)>::empty());
        s
    }

    /// Whether `(dev, ino)` has been recorded.
    pub fn contains(&self, dev: u64, ino: u64) -> (b: bool)
        ensures
            b == self@.contains((dev, ino)),
    {
        let key: u128 = (dev as u128) * 0x1_0000_0000_0000_0000u128 + (ino as u128);
        assert(key == inode_key((dev, ino)));
        self.inodes.contains(&key)
    }

    /// Record `(dev, ino)`; `true` when it had not been recorded before.
    pub fn insert(&mut self, dev: u64, ino: u64) -> (fresh: bool)
        ensures
            final(self)@ == old(self)@.insert((dev, ino)),
            fresh == !old(self)@.contains((dev, ino)),
    {
        let key: u128 = (dev as u128) * 0x1_0000_0000_0000_0000u128 + (ino as u128);
        assert(key == inode_key((dev, ino)));
        let fresh = self.inodes.insert(key);
        assert forall|id: (u64, u64)| #[trigger] inode_key(id) == key implies id == (dev, ino) by {}
        assert(self@ =~= old(self)@.insert((dev, ino)));
        fresh
    }
}

/// Bytes a file is charged: its length where only that is reported;
/// otherwise its allocated blocks, unless it has more than one link and its
/// inode was already counted, in which case nothing.
pub open spec fn counted_bytes(meta: EntryMeta, seen: Set<(u64, u64)>) -> u64 {
    match meta.length {
        Some(len) => len,
        None => if meta.nlink > 1 && seen.contains((meta.dev, meta.ino)) {
            0
        } else {
            (meta.blocks * 512) as u64
        },
    }
}

/// The ledger after charging a file: a multiply-linked inode is remembered
/// (where inodes are reported at all).
pub open spec fn seen_after(meta: EntryMeta, seen: Set<(u64, u64)>) -> Set<(u64, u64)> {
    if meta.length is None && meta.nlink > 1 {
        seen.insert((meta.dev, meta.ino))
    } else {
        seen
    }
}

/// Bytes actually occupied on disk (`st_blocks * 512`), not the apparent
/// length. The first name seen for a multiply-linked inode gets the real
/// figure; every later name for that inode gets `0`. Where the platform
/// reports only a length, that length is charged.
pub fn disk_bytes(meta: &EntryMeta, seen: &mut Seen) -> (b: u64)
    requires
        charge_fits(*meta),
    ensures
        b == counted_bytes(*meta, old(seen)@),
        final(seen)@ == seen_after(*meta, old(seen)@),
{
    if let Some(len) = meta.length {
        return len;
    }
    let bytes = meta.blocks * 512;
    if meta.nlink > 1 && !seen.insert(meta.dev, meta.ino) {
        return 0;
    }
    bytes
}

/// The device a scan's directories must stay on: `root`'s device when
/// `one_filesystem` is set, otherwise none.
pub open spec fn boundary_for(meta: EntryMeta, options: ScanOptions) -> Option<u64> {
    if options.one_filesystem {
        Some(meta.dev)
    } else {
        None
    }
}

/// Whether `meta` lives on another device than the one the scan is kept to.
pub open spec fn crosses(boundary: Option<u64>, meta: EntryMeta) -> bool {
    match boundary {
        Some(root_dev) => root_dev != meta.dev,
        None => false,
    }
}

/// The device `root`'s own metadata reports, if `one_filesystem` is set.
pub fn root_device(meta: &EntryMeta, options: &ScanOptions) -> (b: Option<u64>)
    ensures
        b == boundary_for(*meta, *options),
{
    if options.one_filesystem {
        Some(meta.dev)
    } else {
        None
    }
}

/// Whether `meta` lives on a different device than the scan started on;
/// always `false` when no boundary is set.
pub fn crosses_boundary(boundary: &Option<u64>, meta: &EntryMeta) -> (b: bool)
    ensures
        b == crosses(*boundary, *meta),
{
    match boundary {
        Some(root_dev) => *root_dev != meta.dev,
        None => false,
    }
}

} // verus!
