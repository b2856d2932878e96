use crate::entry::{lemma_listing_order_total, listing_order, name_le, sorted_entries, EntryView};
use crate::listing::{lemma_read_slot_wf, read_slot, DirReadView, ListingView, SlotView};
use crate::navigator::{
    after_first, derive_child, initial, next, reads_given, rederives, AppView, Command, Pending,
};
use crate::path::{join, parent_path};
use vstd::prelude::*;
use vstd::seq_lib::lemma_sorted_unique;

verus! {

/// Every listing read from a directory puts all directories before all
/// files, and orders each group by name.
pub proof fn lemma_listing_sorted(path: Seq<char>, read: DirReadView)
    ensures
        read_slot(path, read) matches SlotView::Dir(l) ==> forall|i: int, j: int|
            0 <= i < j < l.entries.len() ==> {
                &&& (#[trigger] l.entries[i].is_dir || !#[trigger] l.entries[j].is_dir)
                &&& (l.entries[i].is_dir == l.entries[j].is_dir ==> name_le(
                    l.entries[i].name,
                    l.entries[j].name,
                ))
            },
{
    lemma_read_slot_wf(path, read);
    if let SlotView::Dir(l) = read_slot(path, read) {
        assert forall|i: int, j: int| 0 <= i < j < l.entries.len() implies {
            &&& (#[trigger] l.entries[i].is_dir || !#[trigger] l.entries[j].is_dir)
            &&& (l.entries[i].is_dir == l.entries[j].is_dir ==> name_le(
                l.entries[i].name,
                l.entries[j].name,
            ))
        } by {
            assert(listing_order()(l.entries[i], l.entries[j]));
        }
    }
}

proof fn lemma_derive_child_wf(current: SlotView, read: Option<DirReadView>)
    ensures
        derive_child(current, read).wf(),
{
    if let SlotView::Dir(l) = current {
        if let Some(i) = l.selected {
            if 0 <= i < l.entries.len() && l.entries[i].is_dir {
                lemma_read_slot_wf(join(l.path, l.entries[i].name), read->Some_0);
            }
        }
    }
}

/// The state at start is well formed: its listings are sorted and each
/// selection lies within its listing.
pub proof fn lemma_initial_wf(
    path: Seq<char>,
    current: DirReadView,
    parent: Option<DirReadView>,
    child: Option<DirReadView>,
)
    ensures
        initial(path, current, parent, child).wf(),
{
    lemma_read_slot_wf(path, current);
    if let Some(g) = parent_path(path) {
        lemma_read_slot_wf(g, parent->Some_0);
    }
    lemma_derive_child_wf(read_slot(path, current), child);
}

/// Every command keeps the state well formed: listings stay sorted, and no
/// selection leaves its listing.
pub proof fn lemma_next_wf(
    s: AppView,
    cmd: Command,
    first: Option<DirReadView>,
    second: Option<DirReadView>,
)
    requires
        s.wf(),
    ensures
        next(s, cmd, first, second).wf(),
{
    match cmd {
        Command::Ascend => {
            if let SlotView::Dir(p) = s.parent {
                if let Some(g) = parent_path(p.path) {
                    lemma_read_slot_wf(g, first->Some_0);
                }
            }
        },
        Command::Descend => {
            if let SlotView::Dir(l) = s.current {
                if let Some(i) = l.selected {
                    if 0 <= i < l.entries.len() && l.entries[i].is_dir {
                        lemma_read_slot_wf(join(l.path, l.entries[i].name), first->Some_0);
                    }
                }
            }
        },
        _ => {},
    }
    let m = after_first(s, cmd, first);
    lemma_derive_child_wf(m.current, second);
}

/// Moving the selection up or down keeps it within the listing, and on a
/// listing with no entries leaves it unset.
pub proof fn lemma_selection_in_bounds(
    s: AppView,
    cmd: Command,
    first: Option<DirReadView>,
    second: Option<DirReadView>,
)
    requires
        s.wf(),
        cmd is MoveSelectionDown || cmd is MoveSelectionUp,
        s.current is Dir,
    ensures
        next(s, cmd, first, second).current matches SlotView::Dir(l) && l.entries
            == s.current->Dir_0.entries && (l.entries.len() == 0 ==> l.selected is None) && (
        l.selected matches Some(i) ==> 0 <= i < l.entries.len()),
{
}

/// The state after the movement commands `cmds`, in order, with no
/// directory read.
pub open spec fn moves(s: AppView, cmds: Seq<Command>) -> AppView
    decreases cmds.len(),
{
    if cmds.len() == 0 {
        s
    } else {
        next(moves(s, cmds.drop_last()), cmds.last(), None, None)
    }
}

/// The child pane was derived from the current pane, from some read of the
/// selected directory.
pub open spec fn child_settled(s: AppView) -> bool {
    exists|read: Option<DirReadView>| s.child == #[trigger] derive_child(s.current, read)
}

/// Every state that `Pending::finish` hands out after deriving the child
/// pane has its child pane settled.
pub proof fn lemma_finish_settles(p: Pending, read: Option<DirReadView>)
    requires
        p.rederive,
    ensures
        child_settled(p.finished(read)),
{
    let f = p.finished(read);
    assert(f.child == derive_child(f.current, read));
}

/// Every command keeps the child pane settled.
pub proof fn lemma_next_settled(
    s: AppView,
    cmd: Command,
    first: Option<DirReadView>,
    second: Option<DirReadView>,
)
    requires
        child_settled(s),
    ensures
        child_settled(next(s, cmd, first, second)),
{
    let n = next(s, cmd, first, second);
    if rederives(s, cmd) {
        assert(n.child == derive_child(n.current, second));
    } else {
        let r = choose|read: Option<DirReadView>| s.child == #[trigger] derive_child(s.current, read);
        assert(n.child == derive_child(n.current, r));
    }
}

/// On a listing with no entries, any number of moves up and down read
/// nothing and leave the whole state, and so the unset selection, as it was.
pub proof fn lemma_moves_on_empty_listing(s: AppView, cmds: Seq<Command>)
    requires
        child_settled(s),
        s.current is Dir,
        s.current->Dir_0.entries.len() == 0,
        s.current->Dir_0.selected is None,
        forall|i: int|
            0 <= i < cmds.len() ==> #[trigger] cmds[i] is MoveSelectionDown || cmds[i] is MoveSelectionUp,
    ensures
        moves(s, cmds) == s,
        cmds.len() > 0 ==> reads_given(moves(s, cmds.drop_last()), cmds.last(), None, None),
    decreases cmds.len(),
{
    assert(s.child == SlotView::Empty);
    if cmds.len() > 0 {
        let init = cmds.drop_last();
        assert forall|i: int| 0 <= i < init.len() implies #[trigger] init[i] is MoveSelectionDown
            || init[i] is MoveSelectionUp by {
            assert(init[i] == cmds[i]);
        }
        lemma_moves_on_empty_listing(s, init);
        assert(cmds.last() == cmds[cmds.len() - 1]);
        assert(next(s, cmds.last(), None, None) == s);
    }
}

/// Where a directory holds no two entries of one name, its listing orders
/// each group of directories or files strictly by name.
pub proof fn lemma_listing_strictly_sorted(path: Seq<char>, raw: Seq<EntryView>)
    requires
        forall|i: int, j: int|
            0 <= i < raw.len() && 0 <= j < raw.len() && i != j ==> #[trigger] raw[i].name
                != #[trigger] raw[j].name,
    ensures
        read_slot(path, DirReadView::Entries(raw)) matches SlotView::Dir(l) && forall|i: int, j: int|
            0 <= i < j < l.entries.len() && #[trigger] l.entries[i].is_dir
                == #[trigger] l.entries[j].is_dir ==> name_le(l.entries[i].name, l.entries[j].name)
                && l.entries[i].name != l.entries[j].name,
{
    let sorted = sorted_entries(raw);
    lemma_listing_sorted(path, DirReadView::Entries(raw));
    lemma_listing_order_total();
    raw.lemma_sort_by_ensures(listing_order());
    assert(raw.no_duplicates()) by {
        assert forall|i: int, j: int| 0 <= i < raw.len() && 0 <= j < raw.len() && i != j implies raw[i]
            != raw[j] by {
            assert(raw[i].name != raw[j].name);
        }
    }
    raw.lemma_multiset_has_no_duplicates();
    sorted.lemma_multiset_has_no_duplicates_conv();
    assert forall|i: int, j: int|
        0 <= i < j < sorted.len() && #[trigger] sorted[i].is_dir == #[trigger] sorted[j].is_dir implies name_le(
        sorted[i].name,
        sorted[j].name,
    ) && sorted[i].name != sorted[j].name by {
        assert(sorted[i] != sorted[j]);
    }
}

/// Going up and then back down into the directory one came from gives its
/// listing again, with the selection back on the first entry, when the
/// directory still holds the same entries.
pub proof fn lemma_ascend_descend_round_trip(
    s: AppView,
    grand: Option<DirReadView>,
    child: Option<DirReadView>,
    k: int,
    again: Seq<EntryView>,
    second: Option<DirReadView>,
)
    requires
        s.wf(),
        s.current is Dir,
        s.parent is Dir,
        0 <= k < s.parent->Dir_0.entries.len(),
        s.parent->Dir_0.entries[k].is_dir,
        join(s.parent->Dir_0.path, s.parent->Dir_0.entries[k].name) == s.current->Dir_0.path,
        again.to_multiset() == s.current->Dir_0.entries.to_multiset(),
    ensures
        ({
            let up = next(s, Command::Ascend, grand, child);
            let l = up.current->Dir_0;
            let at_k = AppView {
                current: SlotView::Dir(ListingView { selected: Some(k), ..l }),
                ..up
            };
            let down = next(at_k, Command::Descend, Some(DirReadView::Entries(again)), second);
            down.current == SlotView::Dir(s.current->Dir_0.reset())
        }),
{
    let c = s.current->Dir_0;
    lemma_listing_order_total();
    again.lemma_sort_by_ensures(listing_order());
    lemma_sorted_unique(sorted_entries(again), c.entries, listing_order());
    assert(sorted_entries(again) == c.entries);
}

/// The state after going up `n` times, with no directory read.
pub open spec fn ascend_times(s: AppView, n: nat) -> AppView
    decreases n,
{
    if n == 0 {
        s
    } else {
        next(ascend_times(s, (n - 1) as nat), Command::Ascend, None, None)
    }
}

/// At the root, going up reads nothing and changes nothing, so going up any
/// number of times gives the state that going up once gives.
pub proof fn lemma_ascend_at_root(s: AppView, n: nat)
    requires
        s.parent is Empty,
    ensures
        reads_given(s, Command::Ascend, None, None),
        next(s, Command::Ascend, None, None) == s,
        ascend_times(s, n) == ascend_times(s, 1),
    decreases n,
{
    assert(ascend_times(s, 0) == s);
    assert(ascend_times(s, 1) == s);
    if n > 1 {
        lemma_ascend_at_root(s, (n - 1) as nat);
        assert(ascend_times(s, n) == next(ascend_times(s, (n - 1) as nat), Command::Ascend, None, None));
    }
}

/// The child pane depends only on the current directory's path, entries and
/// selection, and on what its selected directory holds: reads that hand out
/// the same entries in any order give the same child pane.
pub proof fn lemma_child_determined(
    a: ListingView,
    b: ListingView,
    ra: Seq<EntryView>,
    rb: Seq<EntryView>,
)
    requires
        a.path == b.path,
        a.entries == b.entries,
        a.selected == b.selected,
        ra.to_multiset() == rb.to_multiset(),
    ensures
        derive_child(SlotView::Dir(a), Some(DirReadView::Entries(ra))) == derive_child(
            SlotView::Dir(b),
            Some(DirReadView::Entries(rb)),
        ),
{
    lemma_listing_order_total();
    ra.lemma_sort_by_ensures(listing_order());
    rb.lemma_sort_by_ensures(listing_order());
    lemma_sorted_unique(sorted_entries(ra), sorted_entries(rb), listing_order());
    assert(a == b);
}

/// Moving the panes with `App::navigate` and then deriving the child pane
/// with `Pending::finish` leads to the state that `next` gives.
pub proof fn lemma_finish_is_next(
    s: AppView,
    cmd: Command,
    first: Option<DirReadView>,
    second: Option<DirReadView>,
    p: Pending,
)
    requires
        p.state@ == after_first(s, cmd, first),
        p.rederive == rederives(s, cmd),
    ensures
        p.finished(second) == next(s, cmd, first, second),
{
}

} // verus!
