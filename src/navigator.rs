use crate::listing::{
    lemma_read_slot_wf, read_slot, read_view, str_view, DirList, DirRead, DirReadView,
    ListingView, Slot, SlotView,
};
use crate::path::{find_par_dir, join, join_path, parent_path};
use vstd::prelude::*;

verus! {

/// A navigation command, one per key press.
pub enum Command {
    MoveSelectionDown,
    MoveSelectionUp,
    Ascend,
    Descend,
    Quit,
}

/// A key as the navigator sees it.
pub enum Key {
    Char(char),
    Up,
    Down,
    Left,
    Right,
    Other,
}

/// The command a key asks for: only a press counts, `q` quits, and the
/// arrows move the selection or go up and down the tree.
pub open spec fn key_command(key: Key, pressed: bool) -> Option<Command> {
    if !pressed {
        None
    } else {
        match key {
            Key::Char(c) => if c == 'q' {
                Some(Command::Quit)
            } else {
                None
            },
            Key::Down => Some(Command::MoveSelectionDown),
            Key::Up => Some(Command::MoveSelectionUp),
            Key::Left => Some(Command::Ascend),
            Key::Right => Some(Command::Descend),
            Key::Other => None,
        }
    }
}

/// The command a key asks for, if any; `pressed` is false for a release or
/// a repeat.
pub fn command_of(key: Key, pressed: bool) -> (r: Option<Command>)
    ensures
        r == key_command(key, pressed),
{
    if !pressed {
        return None;
    }
    match key {
        Key::Char(c) => if c == 'q' {
            Some(Command::Quit)
        } else {
            None
        },
        Key::Down => Some(Command::MoveSelectionDown),
        Key::Up => Some(Command::MoveSelectionUp),
        Key::Left => Some(Command::Ascend),
        Key::Right => Some(Command::Descend),
        Key::Other => None,
    }
}

/// The navigator's state: the three panes, and whether the user asked to
/// leave.
pub struct App {
    pub current: Slot,
    pub parent: Slot,
    pub child: Slot,
    pub exit: bool,
}

/// The mathematical value of an `App`.
pub ghost struct AppView {
    pub current: SlotView,
    pub parent: SlotView,
    pub child: SlotView,
    pub exit: bool,
}

impl View for App {
    type V = AppView;

    open spec fn view(&self) -> AppView {
        AppView {
            current: self.current@,
            parent: self.parent@,
            child: self.child@,
            exit: self.exit,
        }
    }
}

impl AppView {
    /// The current pane holds a listing or a read error, the parent pane
    /// never a file, and every listing is well formed.
    pub open spec fn wf(self) -> bool {
        &&& (self.current is Dir || self.current is ReadError)
        &&& !(self.parent is File)
        &&& self.current.wf()
        &&& self.parent.wf()
        &&& self.child.wf()
    }
}

/// The listing with its selection one row further down, stopping at the
/// last row.
pub open spec fn move_down(l: ListingView) -> ListingView {
    match l.selected {
        Some(i) => ListingView {
            selected: Some(if i + 1 < l.entries.len() { i + 1 } else { i }),
            ..l
        },
        None => l,
    }
}

/// The listing with its selection one row further up, stopping at the first
/// row.
pub open spec fn move_up(l: ListingView) -> ListingView {
    match l.selected {
        Some(i) => ListingView { selected: Some(if i > 0 { i - 1 } else { 0 }), ..l },
        None => l,
    }
}

/// The directory that the child pane lists: the selected entry of the
/// current listing, where that entry is a directory.
pub open spec fn child_target(current: SlotView) -> Option<Seq<char>> {
    match current {
        SlotView::Dir(l) => match l.selected {
            Some(i) => if 0 <= i < l.entries.len() && l.entries[i].is_dir {
                Some(join(l.path, l.entries[i].name))
            } else {
                None
            },
            None => None,
        },
        _ => None,
    }
}

/// The child pane for a current pane: nothing without a selection, the
/// listing of a selected directory (`read` is what reading it gave), or the
/// path of a selected file.
pub open spec fn derive_child(current: SlotView, read: Option<DirReadView>) -> SlotView {
    match current {
        SlotView::Dir(l) => match l.selected {
            Some(i) => if 0 <= i < l.entries.len() {
                let path = join(l.path, l.entries[i].name);
                if l.entries[i].is_dir {
                    read_slot(path, read->Some_0)
                } else {
                    SlotView::File(path)
                }
            } else {
                SlotView::Empty
            },
            None => SlotView::Empty,
        },
        _ => SlotView::Empty,
    }
}

/// The directory a command must read before it can move the panes: the new
/// parent when going up from below the root, the new current directory when
/// going down.
pub open spec fn first_target(s: AppView, cmd: Command) -> Option<Seq<char>> {
    match cmd {
        Command::Ascend => match s.parent {
            SlotView::Dir(p) => parent_path(p.path),
            _ => None,
        },
        Command::Descend => child_target(s.current),
        _ => None,
    }
}

/// Whether a command derives the child pane anew: every one but quitting and
/// going up from the root.
pub open spec fn rederives(s: AppView, cmd: Command) -> bool {
    match cmd {
        Command::Quit => false,
        Command::Ascend => s.parent is Dir,
        _ => true,
    }
}

/// The state after a command has moved the parent and current panes, before
/// the child pane is derived; `first` is what reading `first_target` gave.
pub open spec fn after_first(s: AppView, cmd: Command, first: Option<DirReadView>) -> AppView {
    match cmd {
        Command::MoveSelectionDown => match s.current {
            SlotView::Dir(l) => AppView { current: SlotView::Dir(move_down(l)), ..s },
            _ => s,
        },
        Command::MoveSelectionUp => match s.current {
            SlotView::Dir(l) => AppView { current: SlotView::Dir(move_up(l)), ..s },
            _ => s,
        },
        Command::Ascend => match s.parent {
            SlotView::Dir(p) => AppView {
                current: SlotView::Dir(p.reset()),
                parent: match parent_path(p.path) {
                    Some(g) => read_slot(g, first->Some_0),
                    None => SlotView::Empty,
                },
                ..s
            },
            _ => s,
        },
        Command::Descend => match child_target(s.current) {
            Some(t) => AppView { current: read_slot(t, first->Some_0), parent: s.current, ..s },
            None => s,
        },
        Command::Quit => AppView { exit: true, ..s },
    }
}

/// The directory a command must read to derive the child pane, once the
/// other panes have moved.
pub open spec fn second_target(s: AppView, cmd: Command, first: Option<DirReadView>) -> Option<
    Seq<char>,
> {
    if rederives(s, cmd) {
        child_target(after_first(s, cmd, first).current)
    } else {
        None
    }
}

/// The state a command leads to; `first` and `second` are what reading
/// `first_target` and `second_target` gave.
pub open spec fn next(
    s: AppView,
    cmd: Command,
    first: Option<DirReadView>,
    second: Option<DirReadView>,
) -> AppView {
    let m = after_first(s, cmd, first);
    if rederives(s, cmd) {
        AppView { child: derive_child(m.current, second), ..m }
    } else {
        m
    }
}

/// The reads that a command is given match what it needs.
pub open spec fn reads_given(
    s: AppView,
    cmd: Command,
    first: Option<DirReadView>,
    second: Option<DirReadView>,
) -> bool {
    &&& (first is Some <==> first_target(s, cmd) is Some)
    &&& (second is Some <==> second_target(s, cmd, first) is Some)
}

/// The state at start in directory `path`: its listing, its parent's listing
/// unless it is the root, and the child of its first entry.
pub open spec fn initial(
    path: Seq<char>,
    current: DirReadView,
    parent: Option<DirReadView>,
    child: Option<DirReadView>,
) -> AppView {
    let cur = read_slot(path, current);
    AppView {
        current: cur,
        parent: match parent_path(path) {
            Some(g) => read_slot(g, parent->Some_0),
            None => SlotView::Empty,
        },
        child: derive_child(cur, child),
        exit: false,
    }
}

/// A state whose parent and current panes have moved, and whose child pane
/// is still to be derived.
pub struct Pending {
    pub state: App,
    pub rederive: bool,
}

impl Pending {
    /// The state once the child pane is derived; `read` is what reading
    /// `child_path` gave.
    pub open spec fn finished(self, read: Option<DirReadView>) -> AppView {
        if self.rederive {
            AppView { child: derive_child(self.state@.current, read), ..self.state@ }
        } else {
            self.state@
        }
    }
}

/// The directory that the child pane lists for `current`, if any.
pub fn child_path(current: &Slot) -> (r: Option<String>)
    ensures
        str_view(r) == child_target(current@),
{
    match current {
        Slot::Dir(l) => match l.selected {
            Some(i) => {
                if i < l.entries.len() && l.entries[i].is_dir {
                    Some(join_path(&l.path, &l.entries[i].name))
                } else {
                    None
                }
            },
            None => None,
        },
        _ => None,
    }
}

/// Derives the child pane of `current`; `read` is what reading
/// `child_path(current)` gave.
pub fn update_child_dir(current: &Slot, read: Option<DirRead>) -> (r: Slot)
    requires
        read is Some <==> child_target(current@) is Some,
    ensures
        r@ == derive_child(current@, read_view(read)),
        r@.wf(),
{
    match current {
        Slot::Dir(l) => match l.selected {
            Some(i) => {
                if i < l.entries.len() {
                    let path = join_path(&l.path, &l.entries[i].name);
                    if l.entries[i].is_dir {
                        proof {
                            lemma_read_slot_wf(path@, read_view(read)->Some_0);
                        }
                        Slot::from_read(path, read.unwrap())
                    } else {
                        Slot::File(crate::listing::File { path })
                    }
                } else {
                    Slot::Empty
                }
            },
            None => Slot::Empty,
        },
        _ => Slot::Empty,
    }
}

impl DirList {
    /// Moves the selection one row down, stopping at the last row.
    pub fn select_next(self) -> (r: DirList)
        requires
            self@.wf(),
        ensures
            r@ == move_down(self@),
    {
        match self.selected {
            Some(i) => {
                assert(self@.selected == Some(i as int));
                assert(i < self.entries.len());
                let selected = if i + 1 < self.entries.len() {
                    Some(i + 1)
                } else {
                    Some(i)
                };
                DirList { selected, ..self }
            },
            None => self,
        }
    }

    /// Moves the selection one row up, stopping at the first row.
    pub fn select_previous(self) -> (r: DirList)
        ensures
            r@ == move_up(self@),
    {
        match self.selected {
            Some(i) => {
                let selected = if i > 0 {
                    Some(i - 1)
                } else {
                    Some(0)
                };
                DirList { selected, ..self }
            },
            None => self,
        }
    }
}

impl App {
    /// The directory that `cmd` must read before it can move the panes.
    pub fn first_read(&self, cmd: &Command) -> (r: Option<String>)
        ensures
            str_view(r) == first_target(self@, *cmd),
    {
        match cmd {
            Command::Ascend => match &self.parent {
                Slot::Dir(p) => find_par_dir(p.path.as_str()),
                _ => None,
            },
            Command::Descend => child_path(&self.current),
            _ => None,
        }
    }

    /// Starts in directory `path`: `current` is what reading it gave, and
    /// `parent` what reading `find_par_dir(path)` gave, if that is a path.
    pub fn start(path: String, current: DirRead, parent: Option<DirRead>) -> (r: Pending)
        requires
            parent is Some <==> parent_path(path@) is Some,
        ensures
            r.rederive,
            r.state@.wf(),
            r.state@ == (AppView {
                current: read_slot(path@, current@),
                parent: match parent_path(path@) {
                    Some(g) => read_slot(g, read_view(parent)->Some_0),
                    None => SlotView::Empty,
                },
                child: SlotView::Empty,
                exit: false,
            }),
    {
        let parent_slot = match find_par_dir(path.as_str()) {
            Some(g) => Slot::from_read(g, parent.unwrap()),
            None => Slot::Empty,
        };
        let current = Slot::from_read(path, current);
        Pending {
            state: App { current, parent: parent_slot, child: Slot::Empty, exit: false },
            rederive: true,
        }
    }

    /// Starts in directory `path` as `start` does, where `parent` is given
    /// exactly when `path` has a parent directory; none otherwise.
    pub fn try_start(path: String, current: DirRead, parent: Option<DirRead>) -> (r: Option<
        Pending,
    >)
        ensures
            r is Some <==> (parent is Some <==> parent_path(path@) is Some),
            r matches Some(p) ==> p.rederive && p.state@.wf() && p.state@ == (AppView {
                current: read_slot(path@, current@),
                parent: match parent_path(path@) {
                    Some(g) => read_slot(g, read_view(parent)->Some_0),
                    None => SlotView::Empty,
                },
                child: SlotView::Empty,
                exit: false,
            }),
    {
        let has_parent = find_par_dir(path.as_str()).is_some();
        if has_parent == parent.is_some() {
            Some(App::start(path, current, parent))
        } else {
            None
        }
    }

    /// Moves the panes as `navigate` does, where `read` is given exactly when
    /// `first_read(cmd)` names a directory; hands the state back unchanged
    /// otherwise.
    pub fn try_navigate(self, cmd: Command, read: Option<DirRead>) -> (r: Result<Pending, App>)
        requires
            self@.wf(),
        ensures
            r is Ok <==> (read is Some <==> first_target(self@, cmd) is Some),
            r matches Ok(p) ==> p.state@ == after_first(self@, cmd, read_view(read)) && p.rederive
                == rederives(self@, cmd) && p.state@.wf(),
            r matches Err(a) ==> a@ == self@,
    {
        let needs_read = self.first_read(&cmd).is_some();
        if needs_read == read.is_some() {
            Ok(self.navigate(cmd, read))
        } else {
            Err(self)
        }
    }

    /// Moves the parent and current panes as `cmd` asks; `read` is what
    /// reading `first_read(cmd)` gave. The child pane is derived next, by
    /// `Pending::finish`.
    pub fn navigate(self, cmd: Command, read: Option<DirRead>) -> (r: Pending)
        requires
            self@.wf(),
            read is Some <==> first_target(self@, cmd) is Some,
        ensures
            r.state@ == after_first(self@, cmd, read_view(read)),
            r.rederive == rederives(self@, cmd),
            r.state@.wf(),
    {
        let ghost s = self@;
        let App { current, parent, child, exit } = self;
        match cmd {
            Command::MoveSelectionDown => {
                let current = match current {
                    Slot::Dir(l) => Slot::Dir(l.select_next()),
                    other => other,
                };
                Pending { state: App { current, parent, child, exit }, rederive: true }
            },
            Command::MoveSelectionUp => {
                let current = match current {
                    Slot::Dir(l) => Slot::Dir(l.select_previous()),
                    other => other,
                };
                Pending { state: App { current, parent, child, exit }, rederive: true }
            },
            Command::Ascend => match parent {
                Slot::Dir(p) => {
                    let new_parent = match find_par_dir(p.path.as_str()) {
                        Some(g) => Slot::from_read(g, read.unwrap()),
                        None => Slot::Empty,
                    };
                    Pending {
                        state: App { current: Slot::Dir(p.reset()), parent: new_parent, child, exit },
                        rederive: true,
                    }
                },
                other => Pending { state: App { current, parent: other, child, exit }, rederive: false },
            },
            Command::Descend => match child_path(&current) {
                Some(t) => {
                    let new_current = Slot::from_read(t, read.unwrap());
                    Pending {
                        state: App { current: new_current, parent: current, child, exit },
                        rederive: true,
                    }
                },
                None => Pending { state: App { current, parent, child, exit }, rederive: true },
            },
            Command::Quit => Pending {
                state: App { current, parent, child, exit: true },
                rederive: false,
            },
        }
    }
}

impl Pending {
    /// The directory that the child pane will list, if it is derived anew and
    /// the selection is a directory.
    pub fn child_read(&self) -> (r: Option<String>)
        ensures
            str_view(r) == (if self.rederive {
                child_target(self.state@.current)
            } else {
                None
            }),
    {
        if self.rederive {
            child_path(&self.state.current)
        } else {
            None
        }
    }

    /// Derives the child pane and hands out the finished state; `read` is
    /// what reading `child_read()` gave.
    pub fn finish(self, read: Option<DirRead>) -> (r: App)
        requires
            self.state@.wf(),
            read is Some <==> (self.rederive && child_target(self.state@.current) is Some),
        ensures
            r@ == self.finished(read_view(read)),
            r@.wf(),
    {
        let Pending { state, rederive } = self;
        if rederive {
            let child = update_child_dir(&state.current, read);
            App { child, ..state }
        } else {
            state
        }
    }
}

} // verus!
