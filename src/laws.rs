use crate::comparison::{ComparisonView, DiffView};
use crate::config::{lemma_without_ignored, without_ignored, ConfigView};
use crate::content::chunk_outcome;
use crate::engine::{
    entry_outcome, link_outcome, listings_differ, metadata_outcome, reports_difference, StepView, S_IFMT,
};
use crate::inodes::InodeMapsView;
use crate::path::{dot, EntryInfo, Stat};
use vstd::prelude::*;
use vstd::set_lib::lemma_subset_equality;

verus! {

/// Two listings without repeated names differ exactly when they do not hold
/// the same set of names.
pub proof fn lemma_listings_differ_iff_sets_differ(a: Seq<Seq<u8>>, b: Seq<Seq<u8>>)
    requires
        a.no_duplicates(),
        b.no_duplicates(),
    ensures
        listings_differ(a, b) <==> a.to_set() != b.to_set(),
{
    a.unique_seq_to_set();
    b.unique_seq_to_set();
    if !listings_differ(a, b) {
        assert(a.to_set().subset_of(b.to_set())) by {
            assert forall|n: Seq<u8>| a.to_set().contains(n) implies b.to_set().contains(n) by {
                let i = choose|i: int| 0 <= i < a.len() && a[i] == n;
                assert(b.contains(a[i]));
            }
        }
        lemma_subset_equality(a.to_set(), b.to_set());
    }
    if a.to_set() == b.to_set() {
        assert forall|i: int| 0 <= i < a.len() implies b.contains(a[i]) by {
            assert(a.to_set().contains(a[i]));
        }
    }
}

/// Comparing anything with itself reports no difference: an entry, while
/// both sides hold the same records of the objects seen (and still do after
/// it is registered); a listing; a link target; a chunk of content.
pub proof fn lemma_compare_with_itself(
    cfg: ConfigView,
    maps: InodeMapsView,
    e: EntryInfo,
    names: Seq<Seq<u8>>,
    target: Seq<u8>,
    start: u64,
    data: Seq<u8>,
)
    requires
        maps.first == maps.second,
    ensures
        !reports_difference(entry_outcome(cfg, maps, e, e)),
        maps.registered(e.stat.ino, e.logical_path(), e.stat.ino, e.logical_path()).first == maps.registered(
            e.stat.ino,
            e.logical_path(),
            e.stat.ino,
            e.logical_path(),
        ).second,
        !listings_differ(names, names),
        link_outcome(target, target) is None,
        chunk_outcome(start, data, data) is None,
{
    assert forall|i: int| 0 <= i < names.len() implies names.contains(names[i]) by {}
}

/// Swapping the two sides does not change whether a pair of entries at the
/// same path is found to differ, nor, when it is not, what happens next; the
/// same holds of two listings without repeated names, of link targets and of
/// chunks.
pub proof fn lemma_detection_symmetric(
    cfg: ConfigView,
    maps: InodeMapsView,
    first: EntryInfo,
    second: EntryInfo,
    a: Seq<Seq<u8>>,
    b: Seq<Seq<u8>>,
    first_target: Seq<u8>,
    second_target: Seq<u8>,
    start: u64,
    first_data: Seq<u8>,
    second_data: Seq<u8>,
)
    requires
        first.path@ == second.path@,
        first.path@ == dot() ==> first.stat.mode & S_IFMT == second.stat.mode & S_IFMT,
        a.no_duplicates(),
        b.no_duplicates(),
    ensures
        reports_difference(entry_outcome(cfg, maps, first, second)) == reports_difference(
            entry_outcome(cfg, maps.swapped(), second, first),
        ),
        !reports_difference(entry_outcome(cfg, maps, first, second)) ==> entry_outcome(
            cfg,
            maps,
            first,
            second,
        ) == entry_outcome(cfg, maps.swapped(), second, first),
        listings_differ(a, b) == listings_differ(b, a),
        link_outcome(first_target, second_target) is None <==> link_outcome(
            second_target,
            first_target,
        ) is None,
        chunk_outcome(start, first_data, second_data) is None <==> chunk_outcome(
            start,
            second_data,
            first_data,
        ) is None,
{
    lemma_listings_differ_iff_sets_differ(a, b);
    lemma_listings_differ_iff_sets_differ(b, a);
    if first.path@ != dot() && metadata_outcome(first.stat, second.stat, false) is None {
        assert(first.stat.mode == second.stat.mode);
    }
}

/// Listings that, without the ignored names, do not hold the same names are
/// reported as differing (`FSCmp::dir_eq` then reports both listings).
pub proof fn lemma_membership_change_detected(
    first_names: Seq<Seq<u8>>,
    second_names: Seq<Seq<u8>>,
    ignored: Seq<Seq<u8>>,
)
    requires
        first_names.no_duplicates(),
        second_names.no_duplicates(),
        without_ignored(first_names, ignored).to_set() != without_ignored(second_names, ignored).to_set(),
    ensures
        listings_differ(without_ignored(first_names, ignored), without_ignored(second_names, ignored)),
{
    lemma_without_ignored(first_names, ignored);
    lemma_without_ignored(second_names, ignored);
    lemma_listings_differ_iff_sets_differ(
        without_ignored(first_names, ignored),
        without_ignored(second_names, ignored),
    );
}

/// Listings that hold the same names but for ignored ones are not reported
/// as differing, and no ignored name is descended into.
pub proof fn lemma_ignored_names_skipped(
    first_names: Seq<Seq<u8>>,
    second_names: Seq<Seq<u8>>,
    ignored: Seq<Seq<u8>>,
)
    requires
        first_names.no_duplicates(),
        second_names.no_duplicates(),
        forall|n: Seq<u8>| !ignored.contains(n) ==> (first_names.contains(n) <==> second_names.contains(n)),
    ensures
        !listings_differ(without_ignored(first_names, ignored), without_ignored(second_names, ignored)),
        forall|n: Seq<u8>| #[trigger]
            without_ignored(first_names, ignored).contains(n) ==> !ignored.contains(n),
{
    let a = without_ignored(first_names, ignored);
    let b = without_ignored(second_names, ignored);
    lemma_without_ignored(first_names, ignored);
    lemma_without_ignored(second_names, ignored);
    assert(a.to_set() =~= b.to_set());
    lemma_listings_differ_iff_sets_differ(a, b);
}

/// Whether a step reports a difference of mode, owner or group.
pub open spec fn reports_mode_or_owner(s: StepView) -> bool {
    match s {
        StepView::Done(ComparisonView::Unequal { diff, .. }) => diff is Modes || diff is Uids
            || diff is Gids,
        _ => false,
    }
}

/// The roots of the two trees may differ in mode, owner and group; other
/// entries that differ in one of them are reported, in the order mode, link
/// count, owner, group.
pub proof fn lemma_root_exemption(cfg: ConfigView, maps: InodeMapsView, first: EntryInfo, second: EntryInfo, a: Stat, b: Stat)
    ensures
        !(metadata_outcome(a, b, true) matches Some(DiffView::Modes(..))),
        !(metadata_outcome(a, b, true) matches Some(DiffView::Uids(..))),
        !(metadata_outcome(a, b, true) matches Some(DiffView::Gids(..))),
        first.path@ == dot() ==> !reports_mode_or_owner(entry_outcome(cfg, maps, first, second)),
        a.mode != b.mode ==> metadata_outcome(a, b, false) == Some(DiffView::Modes(a.mode, b.mode)),
        a.mode == b.mode && a.nlink == b.nlink && a.uid != b.uid ==> metadata_outcome(a, b, false)
            == Some(DiffView::Uids(a.uid, b.uid)),
        a.mode == b.mode && a.nlink == b.nlink && a.uid == b.uid && a.gid != b.gid ==> metadata_outcome(
            a,
            b,
            false,
        ) == Some(DiffView::Gids(a.gid, b.gid)),
{
}

/// An object linked at two paths on the first side, whose second link is
/// matched on the second side by an object not seen before, is reported as an
/// inode mismatch naming the path where the object was first seen, rather
/// than taken as seen.
pub proof fn lemma_hard_link_reported(
    cfg: ConfigView,
    maps: InodeMapsView,
    first: EntryInfo,
    second: EntryInfo,
    link: EntryInfo,
    other: EntryInfo,
)
    requires
        maps.registration(first.stat.ino, second.stat.ino) is New,
        link.stat.ino == first.stat.ino,
        other.stat.ino != second.stat.ino,
        !maps.second.contains_key(other.stat.ino),
    ensures
        ({
            let after = maps.registered(
                first.stat.ino,
                first.logical_path(),
                second.stat.ino,
                second.logical_path(),
            );
            entry_outcome(cfg, after, link, other) matches StepView::Done(
                ComparisonView::Unequal { diff: DiffView::Inodes(Some(p), None), .. },
            ) && p == first.logical_path()
        }),
{
}

} // verus!
