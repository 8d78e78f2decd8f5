//! The order in which a report prints the records.

use crate::file_info::{file_views, FileInfo, FileInfoView};
use vstd::prelude::*;

verus! {

/// Whether the record at place `x` of `records` is sorted before the one at
/// place `y`: it was modified later, or at the same instant and stands
/// earlier in `records`.
pub open spec fn goes_before(records: Seq<FileInfoView>, x: int, y: int) -> bool {
    ||| records[x].modified > records[y].modified
    ||| records[x].modified == records[y].modified && x < y
}

/// Whether `after` holds records of `before`: the one at place `i` of
/// `after` is the one at place `order[i]` of `before`.
pub open spec fn drawn_from(before: Seq<FileInfoView>, after: Seq<FileInfoView>, order: Seq<int>)
    -> bool {
    &&& after.len() == order.len()
    &&& forall|i: int|
        0 <= i < order.len() ==> 0 <= #[trigger] order[i] < before.len() && after[i]
            == before[order[i]]
}

/// Whether `after` is `before` sorted by modification time, newest first,
/// records of one instant staying in the order they had.
pub open spec fn newest_first(before: Seq<FileInfoView>, after: Seq<FileInfoView>, order: Seq<int>)
    -> bool {
    &&& after.len() == before.len()
    &&& drawn_from(before, after, order)
    &&& forall|i: int, j: int|
        0 <= i < j < order.len() ==> goes_before(before, #[trigger] order[i], #[trigger] order[j])
}

/// Whether `after` is `before` in the order of the report: oldest first,
/// and of records of one instant the one found last first.
pub open spec fn oldest_first(before: Seq<FileInfoView>, after: Seq<FileInfoView>, order: Seq<int>)
    -> bool {
    &&& after.len() == before.len()
    &&& drawn_from(before, after, order)
    &&& forall|i: int, j: int|
        0 <= i < j < order.len() ==> goes_before(before, #[trigger] order[j], #[trigger] order[i])
}

/// Whether place `x` comes before place `y` in a run sorted newest first
/// (`descending`) or oldest first.
spec fn in_run(records: Seq<FileInfoView>, descending: bool, x: int, y: int) -> bool {
    if descending {
        goes_before(records, x, y)
    } else {
        goes_before(records, y, x)
    }
}

/// Whether `run` holds the records of `all` at the places `tags`, all of
/// them in `lo..hi`, sorted one way or the other.
spec fn sorted_run(
    all: Seq<FileInfoView>,
    run: Seq<FileInfo>,
    tags: Seq<int>,
    lo: int,
    hi: int,
    descending: bool,
) -> bool {
    &&& 0 <= lo <= hi <= all.len()
    &&& run.len() == tags.len()
    &&& forall|k: int|
        0 <= k < tags.len() ==> lo <= #[trigger] tags[k] < hi && run[k]@ == all[tags[k]]
    &&& forall|a: int, b: int|
        0 <= a < b < tags.len() ==> in_run(all, descending, #[trigger] tags[a], #[trigger] tags[b])
}

/// Merges two runs that are sorted against the wanted order into one that
/// is sorted in it, taking from their ends.
fn merge(
    left: Vec<FileInfo>,
    right: Vec<FileInfo>,
    descending: bool,
    Ghost(all): Ghost<Seq<FileInfoView>>,
    Ghost(left_tags): Ghost<Seq<int>>,
    Ghost(right_tags): Ghost<Seq<int>>,
    Ghost(lo): Ghost<int>,
    Ghost(mid): Ghost<int>,
    Ghost(hi): Ghost<int>,
) -> (merged: (Vec<FileInfo>, Ghost<Seq<int>>))
    requires
        sorted_run(all, left@, left_tags, lo, mid, !descending),
        sorted_run(all, right@, right_tags, mid, hi, !descending),
    ensures
        merged.0@.len() == left@.len() + right@.len(),
        sorted_run(all, merged.0@, merged.1@, lo, hi, descending),
{
    let mut left = left;
    let mut right = right;
    let mut out: Vec<FileInfo> = Vec::new();
    let ghost mut tags: Seq<int> = Seq::empty();
    let ghost total = left@.len() + right@.len();
    while left.len() > 0 || right.len() > 0
        invariant
            0 <= lo <= mid <= hi <= all.len(),
            left@.len() <= left_tags.len(),
            right@.len() <= right_tags.len(),
            total == left_tags.len() + right_tags.len(),
            forall|k: int|
                0 <= k < left_tags.len() ==> lo <= #[trigger] left_tags[k] < mid,
            forall|k: int|
                0 <= k < right_tags.len() ==> mid <= #[trigger] right_tags[k] < hi,
            forall|k: int| 0 <= k < left@.len() ==> (#[trigger] left@[k])@ == all[left_tags[k]],
            forall|k: int| 0 <= k < right@.len() ==> (#[trigger] right@[k])@ == all[right_tags[k]],
            forall|a: int, b: int|
                0 <= a < b < left_tags.len() ==> in_run(
                    all,
                    !descending,
                    #[trigger] left_tags[a],
                    #[trigger] left_tags[b],
                ),
            forall|a: int, b: int|
                0 <= a < b < right_tags.len() ==> in_run(
                    all,
                    !descending,
                    #[trigger] right_tags[a],
                    #[trigger] right_tags[b],
                ),
            out@.len() + left@.len() + right@.len() == total,
            sorted_run(all, out@, tags, lo, hi, descending),
            forall|a: int, b: int|
                0 <= a < tags.len() && 0 <= b < left@.len() ==> in_run(
                    all,
                    descending,
                    #[trigger] tags[a],
                    #[trigger] left_tags[b],
                ),
            forall|a: int, b: int|
                0 <= a < tags.len() && 0 <= b < right@.len() ==> in_run(
                    all,
                    descending,
                    #[trigger] tags[a],
                    #[trigger] right_tags[b],
                ),
        decreases left@.len() + right@.len(),
    {
        let take_left: bool = if right.len() == 0 {
            true
        } else if left.len() == 0 {
            false
        } else {
            let older: bool = left[left.len() - 1].modified().is_before(
                &right[right.len() - 1].modified(),
            );
            if descending {
                !older
            } else {
                older
            }
        };
        let ghost next: int = if take_left {
            left_tags[left@.len() - 1]
        } else {
            right_tags[right@.len() - 1]
        };
        let taken: FileInfo = if take_left {
            left.pop().unwrap()
        } else {
            right.pop().unwrap()
        };
        out.push(taken);
        proof {
            tags = tags.push(next);
        }
    }
    (out, Ghost(tags))
}

/// Sorts `files`, which stand at the places from `lo` on of `all`, newest
/// first (`descending`) or oldest first, by merging.
fn merge_sort(
    files: Vec<FileInfo>,
    descending: bool,
    Ghost(all): Ghost<Seq<FileInfoView>>,
    Ghost(lo): Ghost<int>,
) -> (sorted: (Vec<FileInfo>, Ghost<Seq<int>>))
    requires
        0 <= lo,
        lo + files@.len() <= all.len(),
        forall|k: int| 0 <= k < files@.len() ==> (#[trigger] files@[k])@ == all[lo + k],
    ensures
        sorted.0@.len() == files@.len(),
        sorted_run(all, sorted.0@, sorted.1@, lo, lo + files@.len(), descending),
    decreases files@.len(),
{
    let mut files = files;
    let len: usize = files.len();
    if len <= 1 {
        let ghost tags: Seq<int> = if len == 0 {
            Seq::empty()
        } else {
            seq![lo]
        };
        return (files, Ghost(tags));
    }
    let half: usize = len / 2;
    let upper: Vec<FileInfo> = files.split_off(half);
    let (left, Ghost(left_tags)) = merge_sort(files, !descending, Ghost(all), Ghost(lo));
    let (right, Ghost(right_tags)) = merge_sort(upper, !descending, Ghost(all), Ghost(lo + half));
    merge(
        left,
        right,
        descending,
        Ghost(all),
        Ghost(left_tags),
        Ghost(right_tags),
        Ghost(lo),
        Ghost(lo + half),
        Ghost(lo + len),
    )
}

/// Sorts the records by modification time, newest first. Records of one
/// instant stay in the order they had.
pub fn sort_newest_first(files: Vec<FileInfo>) -> (sorted: Vec<FileInfo>)
    ensures
        exists|order: Seq<int>| newest_first(file_views(files@), file_views(sorted@), order),
{
    let ghost all = file_views(files@);
    let (sorted, Ghost(tags)) = merge_sort(files, true, Ghost(all), Ghost(0));
    proof {
        assert(newest_first(all, file_views(sorted@), tags));
    }
    sorted
}

/// The records from the last to the first.
pub fn reversed(files: Vec<FileInfo>) -> (turned: Vec<FileInfo>)
    ensures
        turned@ == files@.reverse(),
{
    let mut files = files;
    let ghost whole = files@;
    let mut turned: Vec<FileInfo> = Vec::new();
    while files.len() > 0
        invariant
            files@.len() + turned@.len() == whole.len(),
            forall|k: int| 0 <= k < files@.len() ==> files@[k] == whole[k],
            forall|k: int| 0 <= k < turned@.len() ==> turned@[k] == whole[whole.len() - 1 - k],
        decreases files@.len(),
    {
        let last: FileInfo = files.pop().unwrap();
        turned.push(last);
    }
    turned
}

/// The records in the order in which the report prints them: sorted newest
/// first, then taken from the end. So the oldest comes first, and of
/// records of one instant the one found last.
pub fn report_order(files: Vec<FileInfo>) -> (report: Vec<FileInfo>)
    ensures
        exists|order: Seq<int>| oldest_first(file_views(files@), file_views(report@), order),
{
    let sorted = sort_newest_first(files);
    let report = reversed(sorted);
    proof {
        let order = choose|order: Seq<int>|
            newest_first(file_views(files@), file_views(sorted@), order);
        lemma_reverse_turns_order(file_views(files@), file_views(sorted@), order);
        assert(file_views(report@) =~= file_views(sorted@).reverse());
    }
    report
}

/// Read from the end, a sequence sorted newest first is in the order of the
/// report.
pub proof fn lemma_reverse_turns_order(
    before: Seq<FileInfoView>,
    after: Seq<FileInfoView>,
    order: Seq<int>,
)
    requires
        newest_first(before, after, order),
    ensures
        oldest_first(before, after.reverse(), order.reverse()),
{
}

/// Read from the end, a sequence in the order of the report is sorted
/// newest first.
pub proof fn lemma_reverse_turns_report(
    before: Seq<FileInfoView>,
    after: Seq<FileInfoView>,
    order: Seq<int>,
)
    requires
        oldest_first(before, after, order),
    ensures
        newest_first(before, after.reverse(), order.reverse()),
{
}

/// The report runs from the oldest record to the newest.
pub proof fn lemma_report_is_oldest_first(
    before: Seq<FileInfoView>,
    after: Seq<FileInfoView>,
    order: Seq<int>,
)
    requires
        oldest_first(before, after, order),
    ensures
        forall|i: int, j: int|
            0 <= i < j < after.len() ==> (#[trigger] after[i]).modified <= (
            #[trigger] after[j]).modified,
{
    assert forall|i: int, j: int| 0 <= i < j < after.len() implies (#[trigger] after[i]).modified
        <= (#[trigger] after[j]).modified by {
        assert(goes_before(before, order[j], order[i]));
    }
}

/// Sorting neither drops a record nor repeats one: every place of `before`
/// stands at exactly one place of `order`, whichever way it is sorted.
pub proof fn lemma_order_keeps_every_record(
    before: Seq<FileInfoView>,
    after: Seq<FileInfoView>,
    order: Seq<int>,
)
    requires
        newest_first(before, after, order) || oldest_first(before, after, order),
    ensures
        forall|i: int, j: int|
            0 <= i < j < order.len() ==> #[trigger] order[i] != #[trigger] order[j],
        forall|x: int| 0 <= x < before.len() ==> #[trigger] order.contains(x),
{
    // No place goes before itself, so no place stands twice in `order`.
    assert(order.no_duplicates());
    // As many different places as there are places at all: none is missing.
    let places = vstd::set_lib::set_int_range(0, before.len() as int);
    order.unique_seq_to_set();
    vstd::set_lib::lemma_int_range(0, before.len() as int);
    assert(order.to_set().subset_of(places));
    vstd::set_lib::lemma_len_subset(order.to_set(), places);
    vstd::set_lib::lemma_subset_equality(order.to_set(), places);
    assert forall|x: int| 0 <= x < before.len() implies #[trigger] order.contains(x) by {
        assert(order.to_set().contains(x));
    }
}

/// The records fix the sorted order: two ways of sorting the same records
/// newest first agree place by place.
pub proof fn lemma_sorted_order_is_unique(
    before: Seq<FileInfoView>,
    first: Seq<FileInfoView>,
    first_order: Seq<int>,
    second: Seq<FileInfoView>,
    second_order: Seq<int>,
)
    requires
        newest_first(before, first, first_order),
        newest_first(before, second, second_order),
    ensures
        first_order == second_order,
        first == second,
{
    lemma_order_keeps_every_record(before, first, first_order);
    lemma_order_keeps_every_record(before, second, second_order);
    lemma_same_up_to(before, first_order, second_order, before.len() as int);
    assert(first_order =~= second_order);
    assert forall|i: int| 0 <= i < first.len() implies first[i] == second[i] by {
        assert(first[i] == before[first_order[i]]);
    }
    assert(first =~= second);
}

/// The records fix the report: two reports of the same records agree line
/// by line.
pub proof fn lemma_report_order_is_unique(
    before: Seq<FileInfoView>,
    first: Seq<FileInfoView>,
    first_order: Seq<int>,
    second: Seq<FileInfoView>,
    second_order: Seq<int>,
)
    requires
        oldest_first(before, first, first_order),
        oldest_first(before, second, second_order),
    ensures
        first_order == second_order,
        first == second,
{
    lemma_reverse_turns_report(before, first, first_order);
    lemma_reverse_turns_report(before, second, second_order);
    lemma_sorted_order_is_unique(
        before,
        first.reverse(),
        first_order.reverse(),
        second.reverse(),
        second_order.reverse(),
    );
    assert(first_order =~= first_order.reverse().reverse());
    assert(second_order =~= second_order.reverse().reverse());
    assert(first =~= first.reverse().reverse());
    assert(second =~= second.reverse().reverse());
}

/// Two orders that both hold every place, each sorted newest first, agree
/// on their first `n` places.
proof fn lemma_same_up_to(
    before: Seq<FileInfoView>,
    first_order: Seq<int>,
    second_order: Seq<int>,
    n: int,
)
    requires
        0 <= n <= before.len(),
        first_order.len() == before.len(),
        second_order.len() == before.len(),
        forall|i: int, j: int|
            0 <= i < j < first_order.len() ==> goes_before(
                before,
                #[trigger] first_order[i],
                #[trigger] first_order[j],
            ),
        forall|i: int, j: int|
            0 <= i < j < second_order.len() ==> goes_before(
                before,
                #[trigger] second_order[i],
                #[trigger] second_order[j],
            ),
        forall|x: int| 0 <= x < before.len() ==> #[trigger] first_order.contains(x),
        forall|x: int| 0 <= x < before.len() ==> #[trigger] second_order.contains(x),
        forall|i: int| 0 <= i < first_order.len() ==> 0 <= #[trigger] first_order[i] < before.len(),
        forall|i: int|
            0 <= i < second_order.len() ==> 0 <= #[trigger] second_order[i] < before.len(),
    ensures
        forall|i: int| 0 <= i < n ==> #[trigger] first_order[i] == second_order[i],
    decreases n,
{
    if n > 0 {
        lemma_same_up_to(before, first_order, second_order, n - 1);
        let i = n - 1;
        let x = first_order[i];
        let y = second_order[i];
        // `x` stands in the second order, and not before place `i`: the
        // places before `i` are those of the first order, which holds `x`
        // once. So `y` does not go after `x`.
        assert(second_order.contains(x));
        let m = choose|m: int| 0 <= m < second_order.len() && second_order[m] == x;
        if m < i {
            assert(goes_before(before, first_order[m], first_order[i]));
        }
        // Likewise `y` stands in the first order, not before place `i`.
        assert(first_order.contains(y));
        let l = choose|l: int| 0 <= l < first_order.len() && first_order[l] == y;
        if l < i {
            assert(goes_before(before, second_order[l], second_order[i]));
        }
        if m > i && l > i {
            assert(goes_before(before, second_order[i], second_order[m]));
            assert(goes_before(before, first_order[i], first_order[l]));
        }
    }
}

} // verus!
