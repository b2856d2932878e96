use crate::entry::{
    entry_views, listing_order, sort_entries, sorted_entries, DirEntry, EntryView,
    lemma_listing_order_total,
};
use vstd::prelude::*;
use vstd::relations::sorted_by;

verus! {

/// The listing of one directory, with the selected row if there is one.
pub struct DirList {
    pub path: String,
    pub entries: Vec<DirEntry>,
    pub selected: Option<usize>,
}

/// The mathematical value of a `DirList`.
pub ghost struct ListingView {
    pub path: Seq<char>,
    pub entries: Seq<EntryView>,
    pub selected: Option<int>,
}

/// A selected entry that is not a directory.
pub struct File {
    pub path: String,
}

/// What one pane holds.
pub enum Slot {
    Empty,
    Dir(DirList),
    File(File),
    ReadError(String),
}

/// The mathematical value of a `Slot`.
pub ghost enum SlotView {
    Empty,
    Dir(ListingView),
    File(Seq<char>),
    ReadError(Seq<char>),
}

/// What listing one directory gave: its children in the order the system
/// handed them out, or the message of the failure.
pub enum DirRead {
    Entries(Vec<DirEntry>),
    Failed(String),
}

/// The mathematical value of a `DirRead`.
pub ghost enum DirReadView {
    Entries(Seq<EntryView>),
    Failed(Seq<char>),
}

/// The view of an optional index.
pub open spec fn index_view(o: Option<usize>) -> Option<int> {
    match o {
        Some(i) => Some(i as int),
        None => None,
    }
}

/// The view of an optional string.
pub open spec fn str_view(o: Option<String>) -> Option<Seq<char>> {
    match o {
        Some(s) => Some(s@),
        None => None,
    }
}

/// The view of an optional read result.
pub open spec fn read_view(o: Option<DirRead>) -> Option<DirReadView> {
    match o {
        Some(r) => Some(r@),
        None => None,
    }
}

impl View for DirList {
    type V = ListingView;

    open spec fn view(&self) -> ListingView {
        ListingView {
            path: self.path@,
            entries: entry_views(self.entries@),
            selected: index_view(self.selected),
        }
    }
}

impl View for Slot {
    type V = SlotView;

    open spec fn view(&self) -> SlotView {
        match self {
            Slot::Empty => SlotView::Empty,
            Slot::Dir(l) => SlotView::Dir(l@),
            Slot::File(f) => SlotView::File(f.path@),
            Slot::ReadError(m) => SlotView::ReadError(m@),
        }
    }
}

impl View for DirRead {
    type V = DirReadView;

    open spec fn view(&self) -> DirReadView {
        match self {
            DirRead::Entries(v) => DirReadView::Entries(entry_views(v@)),
            DirRead::Failed(m) => DirReadView::Failed(m@),
        }
    }
}

/// The selection a fresh listing of `n` entries starts with: the first
/// entry, or none when there is none.
pub open spec fn first_selection(n: int) -> Option<int> {
    if n > 0 {
        Some(0)
    } else {
        None
    }
}

impl ListingView {
    /// Entries are in listing order, and a row is selected exactly when there
    /// is one, within bounds.
    pub open spec fn wf(self) -> bool {
        &&& sorted_by(self.entries, listing_order())
        &&& (self.selected is None <==> self.entries.len() == 0)
        &&& (self.selected matches Some(i) ==> 0 <= i < self.entries.len())
    }

    /// The same listing with its selection back on the first entry.
    pub open spec fn reset(self) -> ListingView {
        ListingView { selected: first_selection(self.entries.len() as int), ..self }
    }
}

impl SlotView {
    pub open spec fn wf(self) -> bool {
        self matches SlotView::Dir(l) ==> l.wf()
    }
}

/// The slot that reading directory `path` fills: its sorted listing with the
/// first entry selected, or the failure's message.
pub open spec fn read_slot(path: Seq<char>, read: DirReadView) -> SlotView {
    match read {
        DirReadView::Entries(raw) => {
            let entries = sorted_entries(raw);
            SlotView::Dir(
                ListingView { path, entries, selected: first_selection(entries.len() as int) },
            )
        },
        DirReadView::Failed(m) => SlotView::ReadError(m),
    }
}

/// A listing read from the system is in listing order and well formed.
pub proof fn lemma_read_slot_wf(path: Seq<char>, read: DirReadView)
    ensures
        read_slot(path, read).wf(),
{
    if let DirReadView::Entries(raw) = read {
        lemma_listing_order_total();
        raw.lemma_sort_by_ensures(listing_order());
    }
}

impl Slot {
    /// Fills a slot from the result of reading directory `path`.
    pub fn from_read(path: String, read: DirRead) -> (r: Slot)
        ensures
            r@ == read_slot(path@, read@),
            r@.wf(),
    {
        proof {
            lemma_read_slot_wf(path@, read@);
        }
        match read {
            DirRead::Entries(raw) => {
                let entries = sort_entries(raw);
                let selected = if entries.len() > 0 {
                    Some(0)
                } else {
                    None
                };
                Slot::Dir(DirList { path, entries, selected })
            },
            DirRead::Failed(m) => Slot::ReadError(m),
        }
    }
}

impl DirList {
    /// The same listing with its selection back on the first entry.
    pub fn reset(self) -> (r: DirList)
        ensures
            r@ == self@.reset(),
    {
        let selected = if self.entries.len() > 0 {
            Some(0)
        } else {
            None
        };
        DirList { selected, ..self }
    }
}

} // verus!
