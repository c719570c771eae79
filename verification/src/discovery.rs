//! Volume discovery: which disk, and which partition on it, is the concealed
//! volume.
//!
//! Among the online disks one that looks removable is preferred, the first
//! such in listing order; where none does, the online disk with the highest
//! number is taken, since removable media is usually attached last. On that
//! disk the concealed volume is the first partition that has no mount
//! designator and has an offset.

use vstd::prelude::*;
use crate::error::VaultError;
use crate::error::VaultErrorView;
use crate::listing::disk_records;
use crate::listing::parse_disk_listing;
use crate::listing::parse_partition_listing;
use crate::listing::partition_records;
use crate::listing::record_views;
use crate::listing::DiskRecord;
use crate::listing::PartitionRecord;
use crate::listing::PartitionRecordView;
use crate::text::lines;

verus! {

/// Whether the online disk `d` takes the place of the online disk `best`
/// that was preferred so far. A disk that looks removable is never replaced;
/// another is replaced by one that looks removable, or by one with a higher
/// number.
pub open spec fn displaces(d: DiskRecord, best: DiskRecord) -> bool {
    !best.removable_hint && (d.removable_hint || d.index > best.index)
}

/// The disk to look on, among `disks` in listing order; `None` where no disk
/// is online.
pub open spec fn preferred_disk(disks: Seq<DiskRecord>) -> Option<DiskRecord>
    decreases disks.len(),
{
    if disks.len() == 0 {
        None
    } else {
        let init = preferred_disk(disks.drop_last());
        let d = disks.last();
        if !d.online {
            init
        } else {
            match init {
                None => Some(d),
                Some(best) => if displaces(d, best) {
                    Some(d)
                } else {
                    Some(best)
                },
            }
        }
    }
}

/// `disks[k]` is online and looks removable, and no disk before it does.
pub open spec fn is_first_removable(disks: Seq<DiskRecord>, k: int) -> bool {
    &&& 0 <= k < disks.len()
    &&& disks[k].online
    &&& disks[k].removable_hint
    &&& forall|j: int| 0 <= j < k ==> !((#[trigger] disks[j]).online && disks[j].removable_hint)
}

/// What `preferred_disk` chooses, said without recursion: nothing exactly
/// where no disk is online; else an online disk of the listing, which is the
/// first online disk that looks removable where there is one, and otherwise
/// has the highest number of all online disks.
pub proof fn lemma_preferred_disk(disks: Seq<DiskRecord>)
    ensures
        preferred_disk(disks) is None <==> forall|i: int|
            0 <= i < disks.len() ==> !(#[trigger] disks[i]).online,
        preferred_disk(disks) matches Some(best) ==> {
            &&& best.online
            &&& exists|k: int| 0 <= k < disks.len() && #[trigger] disks[k] == best
            &&& best.removable_hint ==> exists|k: int| #[trigger]
                is_first_removable(disks, k) && disks[k] == best
            &&& !best.removable_hint ==> forall|i: int|
                0 <= i < disks.len() && (#[trigger] disks[i]).online ==> !disks[i].removable_hint
                    && disks[i].index <= best.index
        },
    decreases disks.len(),
{
    if disks.len() > 0 {
        let init_disks = disks.drop_last();
        let n = disks.len() - 1;
        let d = disks.last();
        lemma_preferred_disk(init_disks);
        assert(forall|i: int| 0 <= i < n ==> init_disks[i] == disks[i]);
        let init = preferred_disk(init_disks);
        match preferred_disk(disks) {
            None => {
                assert(init is None);
                assert forall|i: int| 0 <= i < disks.len() implies !(#[trigger] disks[i]).online by {
                    if i < n {
                        assert(!init_disks[i].online);
                    }
                }
            },
            Some(best) => {
                if d.online && (init is None || displaces(d, init->0)) {
                    assert(best == d);
                    assert(disks[n] == best);
                    if best.removable_hint {
                        assert forall|j: int| 0 <= j < n implies !((#[trigger] disks[j]).online
                            && disks[j].removable_hint) by {
                            assert(init_disks[j] == disks[j]);
                            if init is None {
                                assert(!init_disks[j].online);
                            }
                        }
                        assert(is_first_removable(disks, n));
                    } else {
                        assert forall|i: int|
                            0 <= i < disks.len() && (#[trigger] disks[i]).online implies !disks[i].removable_hint
                            && disks[i].index <= best.index by {
                            if i < n {
                                assert(init_disks[i] == disks[i]);
                                if init is None {
                                    assert(!init_disks[i].online);
                                }
                            }
                        }
                    }
                } else {
                    assert(init == Some(best));
                    let k0 = choose|k: int| 0 <= k < init_disks.len() && #[trigger] init_disks[k] == best;
                    assert(disks[k0] == best);
                    if best.removable_hint {
                        let k = choose|k: int| #[trigger]
                            is_first_removable(init_disks, k) && init_disks[k] == best;
                        assert forall|j: int| 0 <= j < k implies !((#[trigger] disks[j]).online
                            && disks[j].removable_hint) by {
                            assert(init_disks[j] == disks[j]);
                        }
                        assert(is_first_removable(disks, k));
                        assert(disks[k] == best);
                    } else {
                        assert forall|i: int|
                            0 <= i < disks.len() && (#[trigger] disks[i]).online implies !disks[i].removable_hint
                            && disks[i].index <= best.index by {
                            if i < n {
                                assert(init_disks[i] == disks[i]);
                            }
                        }
                    }
                }
            },
        }
    }
}

/// Chooses the disk to look on; `None` where no disk is online.
pub fn select_disk(disks: &Vec<DiskRecord>) -> (best: Option<DiskRecord>)
    ensures
        best == preferred_disk(disks@),
{
    let mut best: Option<DiskRecord> = None;
    let mut i: usize = 0;
    assert(disks@.take(0) =~= Seq::<DiskRecord>::empty());
    while i < disks.len()
        invariant
            i <= disks.len(),
            best == preferred_disk(disks@.take(i as int)),
        decreases disks.len() - i,
    {
        let d = disks[i];
        proof {
            assert(disks@.take(i + 1).drop_last() =~= disks@.take(i as int));
            assert(disks@.take(i + 1).last() == d);
        }
        if d.online {
            match best {
                None => {
                    best = Some(d);
                },
                Some(b) => {
                    if !b.removable_hint && (d.removable_hint || d.index > b.index) {
                        best = Some(d);
                    }
                },
            }
        }
        i += 1;
    }
    assert(disks@.take(disks.len() as int) =~= disks@);
    best
}

/// A partition that is not revealed, on a line that is a genuine partition
/// line: no mount designator, and an offset.
pub open spec fn is_concealed(r: PartitionRecordView) -> bool {
    r.mount_designator is None && r.offset is Some
}

/// The number of the first concealed partition among `recs`, in listing
/// order.
pub open spec fn first_concealed(recs: Seq<PartitionRecordView>) -> Option<u32>
    decreases recs.len(),
{
    if recs.len() == 0 {
        None
    } else {
        match first_concealed(recs.drop_last()) {
            Some(n) => Some(n),
            None => if is_concealed(recs.last()) {
                Some(recs.last().partition_number)
            } else {
                None
            },
        }
    }
}

/// What `first_concealed` chooses, said without recursion: nothing exactly
/// where no record is concealed; else the number of a concealed record
/// before which no record is concealed.
pub proof fn lemma_first_concealed(recs: Seq<PartitionRecordView>)
    ensures
        first_concealed(recs) is None <==> forall|i: int|
            0 <= i < recs.len() ==> !is_concealed(#[trigger] recs[i]),
        first_concealed(recs) matches Some(n) ==> exists|k: int|
            0 <= k < recs.len() && is_concealed(#[trigger] recs[k]) && recs[k].partition_number
                == n && forall|j: int| 0 <= j < k ==> !is_concealed(#[trigger] recs[j]),
    decreases recs.len(),
{
    if recs.len() > 0 {
        let init = recs.drop_last();
        let last = recs.len() - 1;
        lemma_first_concealed(init);
        assert(forall|i: int| 0 <= i < last ==> init[i] == recs[i]);
        match first_concealed(init) {
            Some(n) => {
                let k = choose|k: int|
                    0 <= k < init.len() && is_concealed(#[trigger] init[k]) && init[k].partition_number
                        == n && forall|j: int| 0 <= j < k ==> !is_concealed(#[trigger] init[j]);
                assert(is_concealed(recs[k]) && recs[k].partition_number == n);
                assert forall|j: int| 0 <= j < k implies !is_concealed(#[trigger] recs[j]) by {
                    assert(init[j] == recs[j]);
                }
            },
            None => {
                assert forall|j: int| 0 <= j < last implies !is_concealed(#[trigger] recs[j]) by {
                    assert(init[j] == recs[j]);
                }
                if is_concealed(recs.last()) {
                    assert(is_concealed(recs[last]));
                }
            },
        }
    }
}

/// Chooses the concealed partition among the records of one disk; `None`
/// where no record qualifies.
pub fn select_partition(recs: &Vec<PartitionRecord>) -> (r: Option<u32>)
    ensures
        r == first_concealed(record_views(recs@)),
{
    let ghost all = record_views(recs@);
    let mut i: usize = 0;
    assert(all.take(0) =~= Seq::<PartitionRecordView>::empty());
    while i < recs.len()
        invariant
            i <= recs.len(),
            all == record_views(recs@),
            first_concealed(all.take(i as int)) is None,
        decreases recs.len() - i,
    {
        proof {
            assert(all.take(i + 1).drop_last() =~= all.take(i as int));
            assert(all.take(i + 1).last() == recs@[i as int]@);
        }
        if recs[i].mount_designator.is_none() && recs[i].offset.is_some() {
            proof {
                lemma_first_concealed_extends(all, i + 1);
            }
            return Some(recs[i].partition_number);
        }
        i += 1;
    }
    assert(all.take(recs.len() as int) =~= all);
    None
}

/// Once a prefix of the records holds a concealed partition, more records
/// do not change the choice.
pub proof fn lemma_first_concealed_extends(recs: Seq<PartitionRecordView>, k: int)
    requires
        0 <= k <= recs.len(),
        first_concealed(recs.take(k)) is Some,
    ensures
        first_concealed(recs) == first_concealed(recs.take(k)),
    decreases recs.len() - k,
{
    if k == recs.len() {
        assert(recs.take(k) =~= recs);
    } else {
        assert(recs.take(k + 1).drop_last() =~= recs.take(k));
        lemma_first_concealed_extends(recs, k + 1);
    }
}

/// The number of the disk that a disk listing leads to.
pub open spec fn chosen_disk(disk_listing: Seq<char>) -> Option<u32> {
    match preferred_disk(disk_records(lines(disk_listing))) {
        Some(d) => Some(d.index),
        None => None,
    }
}

/// The number of the partition that a partition listing of disk `disk`
/// leads to.
pub open spec fn chosen_partition(partition_listing: Seq<char>, disk: u32) -> Option<u32> {
    first_concealed(partition_records(lines(partition_listing), disk))
}

/// What discovery gives on a disk listing and on the partition listing of
/// the disk that the disk listing leads to.
pub open spec fn discovery(disk_listing: Seq<char>, partition_listing: Seq<char>) -> Result<
    (u32, u32),
    VaultErrorView,
> {
    match chosen_disk(disk_listing) {
        None => Err(VaultErrorView::NoOnlineDisk),
        Some(d) => match chosen_partition(partition_listing, d) {
            None => Err(VaultErrorView::NoConcealedPartition),
            Some(p) => Ok((d, p)),
        },
    }
}

/// The view of a discovery result.
pub open spec fn target_view(r: Result<(u32, u32), VaultError>) -> Result<
    (u32, u32),
    VaultErrorView,
> {
    match r {
        Ok(t) => Ok(t),
        Err(e) => Err(e@),
    }
}

/// First step of discovery: the disk to look on, from the text of a disk
/// listing. Fails with `NoOnlineDisk` where the listing names no online
/// disk.
pub fn choose_disk(disk_listing: &str) -> (r: Result<u32, VaultError>)
    ensures
        match chosen_disk(disk_listing@) {
            Some(d) => r == Ok::<u32, VaultError>(d),
            None => r is Err && r->Err_0@ == VaultErrorView::NoOnlineDisk,
        },
{
    let disks = parse_disk_listing(disk_listing);
    match select_disk(&disks) {
        Some(d) => Ok(d.index),
        None => Err(VaultError::NoOnlineDisk),
    }
}

/// Second step of discovery: the concealed partition, from the text of the
/// partition listing of disk `disk`. Fails with `NoConcealedPartition`
/// where no row qualifies.
pub fn choose_partition(partition_listing: &str, disk: u32) -> (r: Result<u32, VaultError>)
    ensures
        match chosen_partition(partition_listing@, disk) {
            Some(p) => r == Ok::<u32, VaultError>(p),
            None => r is Err && r->Err_0@ == VaultErrorView::NoConcealedPartition,
        },
{
    let recs = parse_partition_listing(partition_listing, disk);
    match select_partition(&recs) {
        Some(p) => Ok(p),
        None => Err(VaultError::NoConcealedPartition),
    }
}

/// Discovery on a disk listing and on the partition listing of the disk that
/// the disk listing leads to: the disk's number and the partition's.
pub fn discover(disk_listing: &str, partition_listing: &str) -> (r: Result<
    (u32, u32),
    VaultError,
>)
    ensures
        target_view(r) == discovery(disk_listing@, partition_listing@),
{
    let disk = match choose_disk(disk_listing) {
        Ok(d) => d,
        Err(e) => {
            return Err(e);
        },
    };
    match choose_partition(partition_listing, disk) {
        Ok(p) => Ok((disk, p)),
        Err(e) => Err(e),
    }
}

/// Discovery is a function of the listings: the same texts lead to the same
/// disk and partition, or to the same failure.
pub proof fn lemma_discovery_is_deterministic(
    disk_listing_a: Seq<char>,
    partition_listing_a: Seq<char>,
    disk_listing_b: Seq<char>,
    partition_listing_b: Seq<char>,
)
    requires
        disk_listing_a == disk_listing_b,
        partition_listing_a == partition_listing_b,
    ensures
        discovery(disk_listing_a, partition_listing_a) == discovery(
            disk_listing_b,
            partition_listing_b,
        ),
{
}

} // verus!
