use crate::entry::{entry_views, DirEntry, EntryView};
use crate::listing::{index_view, Slot, SlotView};
use crate::navigator::App;
use vstd::prelude::*;

verus! {

/// What a pane shows: rows of labels with at most one emphasized, or a block
/// of text.
pub enum PaneBody {
    Rows { labels: Vec<String>, highlighted: Option<usize> },
    Text(String),
}

/// One pane to draw: a title and a body, inside a border.
pub struct Pane {
    pub title: String,
    pub body: PaneBody,
}

/// The mathematical value of a `PaneBody`.
pub ghost enum PaneBodyView {
    Rows { labels: Seq<Seq<char>>, highlighted: Option<int> },
    Text(Seq<char>),
}

impl View for PaneBody {
    type V = PaneBodyView;

    open spec fn view(&self) -> PaneBodyView {
        match self {
            PaneBody::Rows { labels, highlighted } => PaneBodyView::Rows {
                labels: labels@.map_values(|s: String| s@),
                highlighted: index_view(*highlighted),
            },
            PaneBody::Text(t) => PaneBodyView::Text(t@),
        }
    }
}

/// The row label of an entry: its name, with a trailing `/` for a
/// directory.
pub open spec fn label(e: EntryView) -> Seq<char> {
    if e.is_dir {
        e.name + seq!['/']
    } else {
        e.name
    }
}

/// What a pane holding `slot` shows. A listing becomes its rows, with its
/// selected row emphasized; an empty slot shows `placeholder`, a file its
/// path, and a read error its message.
pub open spec fn slot_body(slot: SlotView, placeholder: Seq<char>) -> PaneBodyView {
    match slot {
        SlotView::Dir(l) => PaneBodyView::Rows {
            labels: l.entries.map_values(|e: EntryView| label(e)),
            highlighted: l.selected,
        },
        SlotView::Empty => PaneBodyView::Text(placeholder),
        SlotView::File(p) => PaneBodyView::Text(p),
        SlotView::ReadError(m) => PaneBodyView::Text(m),
    }
}

/// Builds the row label of an entry.
pub fn entry_label(e: &DirEntry) -> (r: String)
    ensures
        r@ == label(e@),
{
    let mut r = String::from_str(e.name.as_str());
    if e.is_dir {
        proof {
            reveal_strlit("/");
        }
        r.append("/");
    }
    r
}

/// Builds the rows of a listing's entries.
pub fn entry_labels(entries: &Vec<DirEntry>) -> (r: Vec<String>)
    ensures
        r@.map_values(|s: String| s@) == entry_views(entries@).map_values(|e: EntryView| label(e)),
{
    let mut r: Vec<String> = Vec::new();
    let mut i: usize = 0;
    while i < entries.len()
        invariant
            i <= entries.len(),
            r@.len() == i,
            forall|j: int| 0 <= j < i ==> #[trigger] r@[j]@ == label(entries@[j]@),
        decreases entries.len() - i,
    {
        r.push(entry_label(&entries[i]));
        i = i + 1;
    }
    assert(r@.map_values(|s: String| s@) =~= entry_views(entries@).map_values(
        |e: EntryView| label(e),
    ));
    r
}

/// Builds the body of a pane holding `slot`.
pub fn slot_pane(slot: &Slot, placeholder: &str) -> (r: PaneBody)
    ensures
        r@ == slot_body(slot@, placeholder@),
{
    match slot {
        Slot::Dir(l) => PaneBody::Rows { labels: entry_labels(&l.entries), highlighted: l.selected },
        Slot::Empty => PaneBody::Text(String::from_str(placeholder)),
        Slot::File(f) => PaneBody::Text(String::from_str(f.path.as_str())),
        Slot::ReadError(m) => PaneBody::Text(String::from_str(m.as_str())),
    }
}

impl App {
    /// The text of the header above the panes: the current directory's path,
    /// or the message of the error that reading it gave.
    pub fn header(&self) -> (r: String)
        ensures
            r@ == match self.current@ {
                SlotView::Dir(l) => l.path,
                SlotView::ReadError(m) => m,
                SlotView::File(p) => p,
                SlotView::Empty => Seq::empty(),
            },
    {
        match &self.current {
            Slot::Dir(l) => String::from_str(l.path.as_str()),
            Slot::ReadError(m) => String::from_str(m.as_str()),
            Slot::File(f) => String::from_str(f.path.as_str()),
            Slot::Empty => String::new(),
        }
    }

    /// The parent, current and child panes, left to right. Each pane that
    /// holds a listing emphasizes its selected row.
    pub fn panes(&self) -> (r: (Pane, Pane, Pane))
        ensures
            r.0.title@ == "parent dir List"@,
            r.0.body@ == slot_body(self.parent@, "No parent directory"@),
            r.1.title@ == "cur dir List"@,
            r.1.body@ == slot_body(self.current@, "No directory"@),
            r.2.title@ == "child dir List"@,
            r.2.body@ == slot_body(self.child@, "Nothing selected"@),
    {
        let parent = Pane {
            title: String::from_str("parent dir List"),
            body: slot_pane(&self.parent, "No parent directory"),
        };
        let current = Pane {
            title: String::from_str("cur dir List"),
            body: slot_pane(&self.current, "No directory"),
        };
        let child = Pane {
            title: String::from_str("child dir List"),
            body: slot_pane(&self.child, "Nothing selected"),
        };
        (parent, current, child)
    }
}

} // verus!
