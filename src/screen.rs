use crate::record::{PkgInfo, RecordView};
use crate::store::records_view;
use crate::table::{last_cursor, next_cursor, next_position, previous_cursor, previous_position, PkgInfoTable};
use crate::types::{strings_view, FetchError};
use vstd::prelude::*;

verus! {

/// A key press, as far as the screen tells keys apart.
#[derive(Clone, Copy, Debug, PartialEq, Eq, Structural)]
pub enum Key {
    Char(char),
    Up,
    Down,
    Enter,
    Other,
}

/// A popup menu: its entries and the selected one.
pub struct PopUpMenu {
    pub state: Option<usize>,
    pub items: Vec<String>,
}

impl PopUpMenu {
    /// A menu of `items`, with none selected.
    pub fn from(items: &[&str]) -> (r: PopUpMenu)
        ensures
            r.state is None,
            strings_view(r.items@) == items@.map_values(|s: &str| s@),
    {
        let mut out: Vec<String> = Vec::new();
        let mut i: usize = 0;
        while i < items.len()
            invariant
                i <= items@.len(),
                out@.len() == i,
                forall|k: int| 0 <= k < i ==> #[trigger] out@[k]@ == items@[k]@,
            decreases items@.len() - i,
        {
            out.push(items[i].to_owned());
            i += 1;
        }
        assert(strings_view(out@) =~= items@.map_values(|s: &str| s@));
        PopUpMenu { state: None, items: out }
    }

    pub fn next(&mut self)
        ensures
            final(self).state == next_cursor(old(self).state, old(self).items@.len()),
            final(self).items == old(self).items,
    {
        self.state = next_position(self.state, self.items.len());
    }

    pub fn previous(&mut self)
        ensures
            final(self).state == previous_cursor(old(self).state, old(self).items@.len()),
            final(self).items == old(self).items,
    {
        self.state = previous_position(self.state, self.items.len());
    }
}

/// What the screen shows.
pub enum DisplayMode {
    ViewingPackageStatusTable,
    /// The menu of the selected package.
    PopUpPstMenu(PopUpMenu),
}

/// Whether keys typed so far wait for more.
pub enum InputMode {
    Normal,
    HasPrefix(Vec<Key>),
}

pub enum DisplayView {
    Table,
    Menu { items: Seq<Seq<char>>, cursor: Option<usize> },
}

pub struct AppView {
    pub display: DisplayView,
    pub running: bool,
    /// The keys of an unfinished sequence, if one is pending.
    pub prefix: Option<Seq<Key>>,
    pub cursor: Option<usize>,
    pub data: Seq<RecordView>,
}

/// The entries of the menu of a package.
pub open spec fn pst_menu_items(r: RecordView) -> Seq<Seq<char>> {
    let assign = if r.assignee is None {
        seq!["Assign"@]
    } else {
        Seq::empty()
    };
    let marks = if r.marks.len() > 0 {
        seq!["Check Marks"@]
    } else {
        Seq::empty()
    };
    assign + marks + seq!["View package details"@, "View package build log"@]
}

pub open spec fn key_down_step(v: AppView) -> AppView {
    match v.display {
        DisplayView::Table => AppView { cursor: next_cursor(v.cursor, v.data.len()), ..v },
        DisplayView::Menu { items, cursor } => AppView {
            display: DisplayView::Menu { items, cursor: next_cursor(cursor, items.len()) },
            ..v
        },
    }
}

pub open spec fn key_up_step(v: AppView) -> AppView {
    match v.display {
        DisplayView::Table => AppView { cursor: previous_cursor(v.cursor, v.data.len()), ..v },
        DisplayView::Menu { items, cursor } => AppView {
            display: DisplayView::Menu { items, cursor: previous_cursor(cursor, items.len()) },
            ..v
        },
    }
}

pub open spec fn key_begining_step(v: AppView) -> AppView {
    match v.display {
        DisplayView::Table => AppView { cursor: Some(0), ..v },
        _ => v,
    }
}

pub open spec fn key_end_step(v: AppView) -> AppView {
    match v.display {
        DisplayView::Table => AppView { cursor: last_cursor(v.data.len()), ..v },
        _ => v,
    }
}

/// Opens the menu of the selected package (the first when none is selected), if it exists.
pub open spec fn show_menu_step(v: AppView) -> AppView {
    let sel = match v.cursor {
        Some(i) => i as int,
        None => 0,
    };
    if sel < v.data.len() {
        AppView {
            display: DisplayView::Menu { items: pst_menu_items(v.data[sel]), cursor: None },
            ..v
        }
    } else {
        v
    }
}

pub open spec fn normal_key_step(v: AppView, key: Key) -> AppView {
    match key {
        Key::Char('q') => AppView { running: false, ..v },
        Key::Char('G') => key_end_step(v),
        Key::Char('g') => AppView { prefix: Some(seq![Key::Char('g')]), ..v },
        Key::Up | Key::Char('j') => key_up_step(v),
        Key::Down | Key::Char('k') => key_down_step(v),
        Key::Enter => match v.display {
            DisplayView::Table => show_menu_step(v),
            _ => v,
        },
        _ => v,
    }
}

/// A pending `g` followed by `g` goes to the first row; any other key drops the sequence.
pub open spec fn prefixed_key_step(v: AppView, prefix: Seq<Key>, key: Key) -> AppView {
    if prefix.len() > 0 && prefix[0] == Key::Char('g') && key == Key::Char('g') {
        AppView { prefix: None, ..key_begining_step(v) }
    } else {
        AppView { prefix: None, ..v }
    }
}

/// The screen after a key press.
pub open spec fn key_step(v: AppView, key: Key) -> AppView {
    match v.prefix {
        None => normal_key_step(v, key),
        Some(p) => prefixed_key_step(v, p, key),
    }
}

/// The entries of the menu of `pkg`.
pub fn pst_menu_items_of(pkg: &PkgInfo) -> (r: Vec<&'static str>)
    ensures
        r@.map_values(|s: &str| s@) == pst_menu_items(pkg@),
{
    let mut items: Vec<&'static str> = Vec::new();
    if !pkg.has_assignee() {
        items.push("Assign");
    }
    if pkg.has_marks() {
        items.push("Check Marks");
    }
    items.push("View package details");
    items.push("View package build log");
    assert(items@.map_values(|s: &str| s@) =~= pst_menu_items(pkg@));
    items
}

/// The state of the terminal screen, apart from the terminal itself.
pub struct App {
    pub current_display: DisplayMode,
    pub running: bool,
    pub input_mode: InputMode,
    pub pkg_info_table: PkgInfoTable,
}

impl View for App {
    type V = AppView;

    open spec fn view(&self) -> AppView {
        AppView {
            display: match self.current_display {
                DisplayMode::ViewingPackageStatusTable => DisplayView::Table,
                DisplayMode::PopUpPstMenu(m) => DisplayView::Menu {
                    items: strings_view(m.items@),
                    cursor: m.state,
                },
            },
            running: self.running,
            prefix: match self.input_mode {
                InputMode::Normal => None,
                InputMode::HasPrefix(p) => Some(p@),
            },
            cursor: self.pkg_info_table.cursor,
            data: records_view(self.pkg_info_table.data@),
        }
    }
}

impl Default for App {
    fn default() -> (r: App)
        ensures
            r@.display == DisplayView::Table,
            r@.running,
            r@.prefix is None,
            r@.cursor is None,
            r@.data.len() == 0,
    {
        App::new()
    }
}

impl App {
    /// A running screen showing an empty package table.
    pub fn new() -> (r: App)
        ensures
            r@.display == DisplayView::Table,
            r@.running,
            r@.prefix is None,
            r@.cursor is None,
            r@.data.len() == 0,
    {
        App {
            current_display: DisplayMode::ViewingPackageStatusTable,
            running: true,
            input_mode: InputMode::Normal,
            pkg_info_table: PkgInfoTable::new(),
        }
    }

    pub fn reset_input_mode(&mut self)
        ensures
            final(self)@ == (AppView { prefix: None, ..old(self)@ }),
    {
        self.input_mode = InputMode::Normal;
    }

    /// Shows the records of a successful pass; after a failed pass the records shown
    /// before stay, and the failure is handed back.
    pub fn update(&mut self, outcome: Result<Vec<PkgInfo>, FetchError>) -> (r: Result<(), FetchError>)
        ensures
            match outcome {
                Ok(records) => r is Ok && final(self)@ == (AppView {
                    data: records_view(records@),
                    ..old(self)@
                }),
                Err(e) => r == Err::<(), _>(e) && final(self)@ == old(self)@,
            },
    {
        match outcome {
            Ok(records) => {
                self.pkg_info_table.data = records;
                Ok(())
            },
            Err(e) => Err(e),
        }
    }

    pub fn shutdown(&mut self)
        ensures
            final(self)@ == (AppView { running: false, ..old(self)@ }),
    {
        self.running = false;
    }

    pub fn is_running(&self) -> (r: bool)
        ensures
            r == self@.running,
    {
        self.running
    }

    pub fn current_display(&self) -> (r: &DisplayMode)
        ensures
            r == &self.current_display,
    {
        &self.current_display
    }

    pub fn key_down(&mut self)
        ensures
            final(self)@ == key_down_step(old(self)@),
    {
        match &mut self.current_display {
            DisplayMode::ViewingPackageStatusTable => self.pkg_info_table.next(),
            DisplayMode::PopUpPstMenu(menu) => menu.next(),
        }
    }

    pub fn key_up(&mut self)
        ensures
            final(self)@ == key_up_step(old(self)@),
    {
        match &mut self.current_display {
            DisplayMode::ViewingPackageStatusTable => self.pkg_info_table.previous(),
            DisplayMode::PopUpPstMenu(menu) => menu.previous(),
        }
    }

    pub fn key_begining(&mut self)
        ensures
            final(self)@ == key_begining_step(old(self)@),
    {
        if let DisplayMode::ViewingPackageStatusTable = self.current_display {
            self.pkg_info_table.beginning();
        }
    }

    pub fn key_end(&mut self)
        ensures
            final(self)@ == key_end_step(old(self)@),
    {
        if let DisplayMode::ViewingPackageStatusTable = self.current_display {
            self.pkg_info_table.end();
        }
    }

    /// Opens the menu of the selected package.
    pub fn show_pst_menu(&mut self)
        ensures
            final(self)@ == show_menu_step(old(self)@),
    {
        let selected = match self.pkg_info_table.cursor {
            Some(i) => i,
            None => 0,
        };
        if selected >= self.pkg_info_table.data.len() {
            return;
        }
        let items = pst_menu_items_of(&self.pkg_info_table.data[selected]);
        let menu = PopUpMenu::from(items.as_slice());
        self.current_display = DisplayMode::PopUpPstMenu(menu);
    }

    fn handle_normal_input(&mut self, key: Key)
        ensures
            final(self)@ == normal_key_step(old(self)@, key),
    {
        match key {
            Key::Char('q') => self.shutdown(),
            Key::Char('G') => self.key_end(),
            Key::Char('g') => {
                let mut prefix: Vec<Key> = Vec::new();
                prefix.push(Key::Char('g'));
                self.input_mode = InputMode::HasPrefix(prefix);
                assert(self@.prefix->Some_0 =~= seq![Key::Char('g')]);
            },
            Key::Up | Key::Char('j') => self.key_up(),
            Key::Down | Key::Char('k') => self.key_down(),
            Key::Enter => {
                if let DisplayMode::ViewingPackageStatusTable = self.current_display {
                    self.show_pst_menu();
                }
            },
            _ => {},
        }
    }

    fn handle_input_with_prefix(&mut self, key: Key, first: Option<Key>)
        requires
            old(self)@.prefix is Some,
            first == (if old(self)@.prefix->Some_0.len() > 0 {
                Some(old(self)@.prefix->Some_0[0])
            } else {
                None
            }),
        ensures
            final(self)@ == prefixed_key_step(old(self)@, old(self)@.prefix->Some_0, key),
    {
        match (first, key) {
            (Some(Key::Char('g')), Key::Char('g')) => {
                self.key_begining();
                self.reset_input_mode();
            },
            _ => self.reset_input_mode(),
        }
    }

    /// Updates the screen for one key press.
    pub fn handle_input(&mut self, key: Key)
        ensures
            final(self)@ == key_step(old(self)@, key),
    {
        let first = match &self.input_mode {
            InputMode::Normal => None,
            InputMode::HasPrefix(prefix) => Some(
                if prefix.len() > 0 {
                    Some(prefix[0])
                } else {
                    None
                },
            ),
        };
        match first {
            None => self.handle_normal_input(key),
            Some(f) => self.handle_input_with_prefix(key, f),
        }
    }
}

} // verus!
