//! The dashboard's state, and what a refresh or a command makes of it.

use crate::connection::{models, ConnectionModel, SocketInfoWithProcName};
use crate::filter::{finds_literally, recompiled, FilterField, FilterMode};
use crate::pattern::{escaped, regex_compiles};
use crate::ordering::{sort_by_port, sorted_by_port};
use crate::ordering::is_descending;
use crate::pipeline::{lemma_visible_is_descending, lemma_visible_is_permutation};
use crate::pipeline::{matching, under_tab, visible, visible_records};
use crate::protocol::ProtocolFlags;
use crate::table::{after_first, after_last, after_next, after_previous, StatefulTable};
use crate::tabs::{all_protocols, tab_models, StatefulTabItem, StatefulTabs, TabModel};
use regex::Regex;
use vstd::prelude::*;
use vstd::string::StringExecFns;

verus! {

/// A key of the keyboard, as far as the dashboard tells keys apart.
#[derive(Clone, Copy, Debug, PartialEq, Eq, Structural)]
pub enum Key {
    Char(char),
    Up,
    Down,
    Left,
    Right,
    Tab,
    Enter,
    Backspace,
    Esc,
    Other,
}

/// One press of a key. `plain` says that no modifier was held with it.
#[derive(Clone, Copy, Debug, PartialEq, Eq, Structural)]
pub struct KeyPress {
    pub code: Key,
    pub plain: bool,
}

/// Whether the key pressed before was a `g` without modifiers: a second `g`
/// then jumps to the first record.
pub open spec fn is_plain_g(previous: Option<KeyPress>) -> bool {
    previous matches Some(key) && key.code == Key::Char('g') && key.plain
}

/// What the status line says of the filter.
#[derive(Clone, Copy, Debug, PartialEq, Eq, Structural)]
pub enum MatchStatus {
    /// There is no filter.
    Waiting,
    /// There is a filter, and no record is shown.
    NoMatches,
    /// There is a filter, and so many records are shown.
    Matches(usize),
}

/// Whether the key pressed before was a `g` without modifiers.
pub fn was_plain_g(previous: Option<KeyPress>) -> (plain_g: bool)
    ensures
        plain_g == is_plain_g(previous),
{
    match previous {
        Some(key) => match key.code {
            Key::Char(c) => c == 'g' && key.plain,
            _ => false,
        },
        None => false,
    }
}

/// The dashboard's state.
pub struct App {
    pub should_quit: bool,
    pub show_connection_info: bool,
    pub show_help: bool,
    pub filter: FilterField,
    pub tabs: StatefulTabs,
    /// The snapshot that was fetched last.
    pub connections: Vec<SocketInfoWithProcName>,
    /// The list that is shown, with its cursor.
    pub connection_table: StatefulTable,
    /// Whether the refresh works on the snapshot that is kept, and fetches none.
    pub is_paused: bool,
}

/// What an `App` stands for.
pub struct AppModel {
    pub should_quit: bool,
    pub show_connection_info: bool,
    pub show_help: bool,
    pub paused: bool,
    pub input: Seq<char>,
    pub mode: FilterMode,
    pub regex: Option<Regex>,
    pub tabs: Seq<TabModel>,
    pub tab_index: usize,
    pub connections: Seq<ConnectionModel>,
    pub items: Seq<ConnectionModel>,
    pub cursor: Option<usize>,
}

/// The tabs that the dashboard starts with: every protocol, TCP, UDP.
pub open spec fn standard_tabs() -> Seq<TabModel> {
    seq![
        TabModel { title: "All"@, protocol: ProtocolFlags { bits: 3 } },
        TabModel { title: "TCP"@, protocol: ProtocolFlags { bits: 1 } },
        TabModel { title: "UDP"@, protocol: ProtocolFlags { bits: 2 } },
    ]
}

impl AppModel {
    /// Whether the index of the active tab names one of the tabs.
    pub open spec fn wf(self) -> bool {
        self.tab_index < self.tabs.len()
    }

    /// The protocols of the active tab.
    pub open spec fn mask(self) -> ProtocolFlags {
        self.tabs[self.tab_index as int].protocol
    }

    /// The state that the dashboard starts in, given the first snapshot: the
    /// snapshot sorted by port is kept and shown, nothing is selected, the
    /// first of the standard tabs is active, and there is no filter.
    pub open spec fn started(snapshot: Seq<ConnectionModel>) -> AppModel {
        AppModel {
            should_quit: false,
            show_connection_info: false,
            show_help: false,
            paused: false,
            input: Seq::empty(),
            mode: FilterMode::Normal,
            regex: None,
            tabs: standard_tabs(),
            tab_index: 0,
            connections: sorted_by_port(snapshot),
            items: sorted_by_port(snapshot),
            cursor: None,
        }
    }

    /// The state after a refresh. While paused, the list is made anew from the
    /// snapshot that is kept, whatever was fetched. Otherwise a snapshot that
    /// was fetched is kept and shown, and a failed fetch changes nothing.
    pub open spec fn refreshed(self, fetched: Option<Seq<ConnectionModel>>) -> AppModel {
        if self.paused {
            AppModel { items: visible(self.connections, self.mask(), self.regex), ..self }
        } else {
            match fetched {
                Some(snapshot) => AppModel {
                    connections: snapshot,
                    items: visible(snapshot, self.mask(), self.regex),
                    ..self
                },
                None => self,
            }
        }
    }

    /// What the status line says of the filter.
    pub open spec fn match_status(self) -> MatchStatus {
        if self.regex is None {
            MatchStatus::Waiting
        } else if self.items.len() == 0 {
            MatchStatus::NoMatches
        } else {
            MatchStatus::Matches(self.items.len() as usize)
        }
    }

    /// The state with `regex` as the filter's pattern.
    pub open spec fn with_pattern(self, regex: Option<Regex>) -> AppModel {
        AppModel { regex, ..self }
    }

    /// The state after pausing, or after resuming when paused.
    pub open spec fn pause_toggled(self) -> AppModel {
        AppModel { paused: !self.paused, ..self }
    }

    /// The state after showing the help, or after hiding it when shown.
    pub open spec fn help_toggled(self) -> AppModel {
        AppModel { show_help: !self.show_help, ..self }
    }

    /// The state after the cursor went one record up.
    pub open spec fn up(self) -> AppModel {
        AppModel { cursor: after_previous(self.items.len(), self.cursor), ..self }
    }

    /// The state after the cursor went one record down.
    pub open spec fn down(self) -> AppModel {
        AppModel { cursor: after_next(self.items.len(), self.cursor), ..self }
    }

    /// The state after the cursor went to the first record.
    pub open spec fn first(self) -> AppModel {
        AppModel { cursor: after_first(self.items.len(), self.cursor), ..self }
    }

    /// The state after the cursor went to the last record.
    pub open spec fn last(self) -> AppModel {
        AppModel { cursor: after_last(self.items.len(), self.cursor), ..self }
    }

    /// The state after the tab to the left became active.
    pub open spec fn left(self) -> AppModel {
        AppModel {
            tab_index: if self.tab_index == 0 {
                (self.tabs.len() - 1) as usize
            } else {
                (self.tab_index - 1) as usize
            },
            ..self
        }
    }

    /// The state after the tab to the right became active.
    pub open spec fn right(self) -> AppModel {
        AppModel { tab_index: ((self.tab_index + 1) % (self.tabs.len() as int)) as usize, ..self }
    }

    /// The state after a character command: `/` starts typing the filter, `c`
    /// clears it, `G` goes to the last record, `h` `j` `k` `l` move left, down,
    /// up and right, `i` shows or hides the connection's details. Any other
    /// character changes nothing.
    pub open spec fn keyed(self, c: char) -> AppModel {
        if c == '/' {
            AppModel { mode: FilterMode::Typing, ..self }
        } else if c == 'c' {
            AppModel { input: Seq::empty(), regex: None, ..self }
        } else if c == 'G' {
            self.last()
        } else if c == 'h' {
            self.left()
        } else if c == 'j' {
            self.down()
        } else if c == 'k' {
            self.up()
        } else if c == 'l' {
            self.right()
        } else if c == 'i' {
            AppModel { show_connection_info: !self.show_connection_info, ..self }
        } else {
            self
        }
    }

    /// Whether the key is the second of two `g` in a row, outside typing.
    pub open spec fn second_g(self, key: KeyPress, previous: Option<KeyPress>) -> bool {
        self.mode == FilterMode::Normal && key.code == Key::Char('g') && is_plain_g(previous)
    }

    /// Whether the key makes the filter's pattern anew: while typing, a
    /// character, Backspace, Enter and Esc do.
    pub open spec fn recompiles(self, key: KeyPress) -> bool {
        self.mode == FilterMode::Typing && (key.code is Char || key.code == Key::Backspace
            || key.code == Key::Enter || key.code == Key::Esc)
    }

    /// The filter text after a key in typing mode: a character is appended,
    /// Backspace takes the last character away, other keys leave the text.
    pub open spec fn typed(self, key: KeyPress) -> Seq<char> {
        match key.code {
            Key::Char(c) => self.input.push(c),
            Key::Backspace => if self.input.len() == 0 {
                self.input
            } else {
                self.input.drop_last()
            },
            _ => self.input,
        }
    }

    /// The state after a key press outside typing mode. `q` quits, `?` shows
    /// or hides the help, `p` pauses or resumes, a second `g` goes to the
    /// first record and a first one does nothing, other characters are
    /// commands, the arrows move the cursor and change the tab, and Tab moves
    /// to the tab on the right.
    pub open spec fn commanded(self, key: KeyPress, previous: Option<KeyPress>) -> AppModel {
        match key.code {
            Key::Char(c) => if c == 'q' {
                AppModel { should_quit: true, ..self }
            } else if c == '?' {
                self.help_toggled()
            } else if c == 'p' {
                self.pause_toggled()
            } else if c == 'g' {
                if is_plain_g(previous) {
                    self.first()
                } else {
                    self
                }
            } else {
                self.keyed(c)
            },
            Key::Up => self.up(),
            Key::Down => self.down(),
            Key::Left => self.left(),
            Key::Right => self.right(),
            Key::Tab => self.right(),
            _ => self,
        }
    }

    /// The state after a key press, where `regex` is the pattern that
    /// compiling gave if the key recompiles the pattern. In typing mode Enter
    /// and Esc end typing, and characters and Backspace edit the filter text.
    pub open spec fn key_pressed(
        self,
        key: KeyPress,
        previous: Option<KeyPress>,
        regex: Option<Regex>,
    ) -> AppModel {
        match self.mode {
            FilterMode::Normal => self.commanded(key, previous),
            FilterMode::Typing => if self.recompiles(key) {
                AppModel {
                    input: self.typed(key),
                    mode: if key.code == Key::Enter || key.code == Key::Esc {
                        FilterMode::Normal
                    } else {
                        FilterMode::Typing
                    },
                    regex,
                    ..self
                }
            } else {
                self
            },
        }
    }
}

/// What a snapshot that was fetched, or the lack of one, stands for.
pub open spec fn snapshot_models(fetched: Option<Vec<SocketInfoWithProcName>>) -> Option<
    Seq<ConnectionModel>,
> {
    match fetched {
        Some(snapshot) => Some(models(snapshot@)),
        None => None,
    }
}

impl View for App {
    type V = AppModel;

    open spec fn view(&self) -> AppModel {
        AppModel {
            should_quit: self.should_quit,
            show_connection_info: self.show_connection_info,
            show_help: self.show_help,
            paused: self.is_paused,
            input: self.filter.input@,
            mode: self.filter.mode,
            regex: self.filter.regex,
            tabs: tab_models(self.tabs.items@),
            tab_index: self.tabs.index,
            connections: models(self.connections@),
            items: models(self.connection_table.items@),
            cursor: self.connection_table.cursor,
        }
    }
}

/// Copies a list of records.
fn copy_records(records: &Vec<SocketInfoWithProcName>) -> (copies: Vec<SocketInfoWithProcName>)
    ensures
        models(copies@) == models(records@),
{
    let mut copies: Vec<SocketInfoWithProcName> = Vec::new();
    let mut i: usize = 0;
    while i < records.len()
        invariant
            i <= records.len(),
            copies.len() == i,
            forall|j: int| 0 <= j < i ==> copies@[j]@ == records@[j]@,
        decreases records.len() - i,
    {
        copies.push(records[i].clone());
        i = i + 1;
    }
    assert(models(copies@) =~= models(records@));
    copies
}

impl App {
    /// Whether the state is one that commands can be applied to: there is an
    /// active tab.
    pub open spec fn wf(&self) -> bool {
        self@.wf()
    }

    /// The state that the dashboard starts in, given the first snapshot.
    pub fn new(initial_connections: Vec<SocketInfoWithProcName>) -> (app: App)
        ensures
            app@ == AppModel::started(models(initial_connections@)),
            app.wf(),
    {
        let sorted = sort_by_port(initial_connections);
        let shown = copy_records(&sorted);
        let mut tabs: Vec<StatefulTabItem> = Vec::new();
        tabs.push(
            StatefulTabItem { title: String::from_str("All"), protocol: ProtocolFlags::all() },
        );
        tabs.push(
            StatefulTabItem { title: String::from_str("TCP"), protocol: ProtocolFlags::tcp() },
        );
        tabs.push(
            StatefulTabItem { title: String::from_str("UDP"), protocol: ProtocolFlags::udp() },
        );
        assert(tab_models(tabs@) =~= standard_tabs());
        App {
            should_quit: false,
            show_connection_info: false,
            show_help: false,
            is_paused: false,
            filter: FilterField::new(),
            tabs: StatefulTabs::with_items(tabs),
            connections: sorted,
            connection_table: StatefulTable::with_items(shown),
        }
    }

    /// What the next refresh needs: nothing while paused, else a snapshot of
    /// the sockets of all the tabs' protocols.
    pub fn snapshot_request(&self) -> (wanted: Option<ProtocolFlags>)
        ensures
            wanted == if self@.paused {
                None
            } else {
                Some(all_protocols(self@.tabs))
            },
    {
        if self.is_paused {
            None
        } else {
            Some(self.tabs.every_protocol())
        }
    }

    /// Refreshes the list that is shown. `fetched` is the snapshot that was
    /// fetched for this refresh, or `None` where none was fetched or fetching
    /// failed.
    pub fn update_connections(&mut self, fetched: Option<Vec<SocketInfoWithProcName>>)
        requires
            old(self).wf(),
        ensures
            final(self)@ == old(self)@.refreshed(snapshot_models(fetched)),
            final(self).wf(),
    {
        let mask = self.tabs.selected_protocol();
        assert(mask == self@.mask());
        if self.is_paused {
            let shown = visible_records(&self.connections, mask, &self.filter.regex);
            self.connection_table.replace_items(shown);
        } else {
            match fetched {
                Some(snapshot) => {
                    let shown = visible_records(&snapshot, mask, &self.filter.regex);
                    self.connections = snapshot;
                    self.connection_table.replace_items(shown);
                },
                None => {},
            }
        }
    }

    /// Makes the filter's pattern anew from the filter text.
    pub fn update_regex(&mut self)
        ensures
            final(self)@ == old(self)@.with_pattern(final(self)@.regex),
            recompiled(old(self)@.regex, old(self)@.input, final(self)@.regex),
            old(self)@.input.len() == 0 ==> final(self)@.regex is None,
            old(self)@.input.len() > 0 && regex_compiles(escaped(old(self)@.input)) ==> (final(self)@.regex matches Some(compiled) && finds_literally(compiled, old(self)@.input)),
            old(self)@.input.len() > 0 && !regex_compiles(escaped(old(self)@.input)) ==> final(self)@.regex
                == old(self)@.regex,
    {
        self.filter.recompile();
    }

    /// What the status line says of the filter: whether there is one, and
    /// how many records are shown under it.
    pub fn match_status(&self) -> (status: MatchStatus)
        ensures
            status == self@.match_status(),
    {
        if self.filter.regex.is_none() {
            MatchStatus::Waiting
        } else if self.connection_table.items.len() == 0 {
            MatchStatus::NoMatches
        } else {
            MatchStatus::Matches(self.connection_table.items.len())
        }
    }

    /// Whether the refresh is paused.
    pub fn is_paused(&self) -> (paused: bool)
        ensures
            paused == self@.paused,
    {
        self.is_paused
    }

    /// Pauses the refresh, or resumes it when paused.
    pub fn on_pause(&mut self)
        ensures
            final(self)@ == old(self)@.pause_toggled(),
    {
        self.is_paused = !self.is_paused;
    }

    /// Shows the help, or hides it when shown.
    pub fn on_show_help(&mut self)
        ensures
            final(self)@ == old(self)@.help_toggled(),
    {
        self.show_help = !self.show_help;
    }

    /// Moves the cursor one record up.
    pub fn on_up(&mut self)
        ensures
            final(self)@ == old(self)@.up(),
    {
        self.connection_table.previous();
    }

    /// Moves the cursor one record down.
    pub fn on_down(&mut self)
        ensures
            final(self)@ == old(self)@.down(),
    {
        self.connection_table.next();
    }

    /// Moves the cursor to the first record.
    pub fn on_first(&mut self)
        ensures
            final(self)@ == old(self)@.first(),
    {
        self.connection_table.first();
    }

    /// Moves the cursor to the last record.
    pub fn on_last(&mut self)
        ensures
            final(self)@ == old(self)@.last(),
    {
        self.connection_table.last();
    }

    /// Makes the tab to the left active.
    pub fn on_left(&mut self)
        requires
            old(self).wf(),
        ensures
            final(self)@ == old(self)@.left(),
            final(self).wf(),
    {
        self.tabs.previous();
    }

    /// Makes the tab to the right active.
    pub fn on_right(&mut self)
        requires
            old(self).wf(),
        ensures
            final(self)@ == old(self)@.right(),
            final(self).wf(),
    {
        self.tabs.next();
    }

    /// Carries out a character command.
    pub fn on_key(&mut self, c: char)
        requires
            old(self).wf(),
        ensures
            final(self)@ == old(self)@.keyed(c),
            final(self).wf(),
    {
        match c {
            '/' => {
                self.filter.mode = FilterMode::Typing;
            },
            'c' => {
                self.filter.input.clear();
                self.update_regex();
            },
            'G' => {
                self.on_last();
            },
            'h' => {
                self.on_left();
            },
            'j' => {
                self.on_down();
            },
            'k' => {
                self.on_up();
            },
            'l' => {
                self.on_right();
            },
            'i' => {
                self.show_connection_info = !self.show_connection_info;
            },
            _ => {},
        }
    }

    /// Carries out a key press. `previous` is the key press that this
    /// function returned last, and `None` at the start: a second `g` is
    /// forgotten, so that a third one counts as a first.
    pub fn on_key_press(&mut self, key: KeyPress, previous: Option<KeyPress>) -> (remembered:
        Option<KeyPress>)
        requires
            old(self).wf(),
        ensures
            final(self)@ == old(self)@.key_pressed(key, previous, final(self)@.regex),
            old(self)@.recompiles(key) ==> recompiled(
                old(self)@.regex,
                final(self)@.input,
                final(self)@.regex,
            ),
            old(self)@.recompiles(key) ==> final(self)@.input == old(self)@.typed(key),
            old(self)@.recompiles(key) && old(self)@.typed(key).len() == 0 ==> final(self)@.regex
                is None,
            old(self)@.recompiles(key) && old(self)@.typed(key).len() > 0 && regex_compiles(
                escaped(old(self)@.typed(key)),
            ) ==> (final(self)@.regex matches Some(compiled) && finds_literally(
                compiled,
                old(self)@.typed(key),
            )),
            old(self)@.recompiles(key) && old(self)@.typed(key).len() > 0 && !regex_compiles(
                escaped(old(self)@.typed(key)),
            ) ==> final(self)@.regex == old(self)@.regex,
            !old(self)@.recompiles(key) && old(self)@.mode == FilterMode::Typing ==> final(self)@
                == old(self)@,
            remembered == if old(self)@.second_g(key, previous) {
                None
            } else {
                Some(key)
            },
            final(self).wf(),
    {
        let mut skip = false;
        match self.filter.mode {
            FilterMode::Normal => match key.code {
                Key::Char(c) => {
                    if c == 'q' {
                        self.should_quit = true;
                    } else if c == '?' {
                        self.on_show_help();
                    } else if c == 'p' {
                        self.on_pause();
                    } else if c == 'g' {
                        if was_plain_g(previous) {
                            self.on_first();
                            skip = true;
                        }
                    } else {
                        self.on_key(c);
                    }
                },
                Key::Up => {
                    self.on_up();
                },
                Key::Down => {
                    self.on_down();
                },
                Key::Left => {
                    self.on_left();
                },
                Key::Right => {
                    self.on_right();
                },
                Key::Tab => {
                    self.on_right();
                },
                _ => {},
            },
            FilterMode::Typing => match key.code {
                Key::Enter => {
                    self.update_regex();
                    self.filter.mode = FilterMode::Normal;
                },
                Key::Esc => {
                    self.update_regex();
                    self.filter.mode = FilterMode::Normal;
                },
                Key::Char(c) => {
                    self.filter.input.push(c);
                    self.update_regex();
                },
                Key::Backspace => {
                    self.filter.input.pop();
                    self.update_regex();
                },
                _ => {},
            },
        }
        if skip {
            None
        } else {
            Some(key)
        }
    }
}

/// While paused, a refresh shows the snapshot that is kept, whatever was
/// fetched, and keeps it: so the list that one refresh leaves is the list
/// that every further refresh leaves, as long as the pause lasts.
pub proof fn lemma_pause_freezes_items(
    app: AppModel,
    first: Option<Seq<ConnectionModel>>,
    second: Option<Seq<ConnectionModel>>,
)
    requires
        app.paused,
    ensures
        app.refreshed(first).items == visible(app.connections, app.mask(), app.regex),
        app.refreshed(first).connections == app.connections,
        app.refreshed(first).paused,
        app.refreshed(first).refreshed(second) == app.refreshed(first),
{
}

/// A refresh changes nothing but the snapshot that is kept and the list that
/// is shown: the cursor, the tabs, the filter and the switches stay.
pub proof fn lemma_refresh_keeps_the_rest(app: AppModel, fetched: Option<Seq<ConnectionModel>>)
    ensures
        app.refreshed(fetched) == (AppModel {
            connections: app.refreshed(fetched).connections,
            items: app.refreshed(fetched).items,
            ..app
        }),
{
}

/// A step to the tab on the right and a step back to the left, or the other
/// way round, lead back to the tab that was active, and change nothing else.
pub proof fn lemma_left_right_cancel(app: AppModel)
    requires
        app.wf(),
        app.tabs.len() <= usize::MAX,
    ensures
        app.right().left() == app,
        app.left().right() == app,
        app.right().wf(),
        app.left().wf(),
{
    let len = app.tabs.len() as int;
    let index = app.tab_index as int;
    if index + 1 < len {
        assert((index + 1) % len == index + 1) by (nonlinear_arith)
            requires
                0 <= index + 1 < len,
        ;
    } else {
        assert((index + 1) % len == 0) by (nonlinear_arith)
            requires
                index + 1 == len,
                len > 0,
        ;
    }
    if index == 0 {
        assert(((len - 1) + 1) % len == 0) by (nonlinear_arith)
            requires
                len > 0,
        ;
    } else {
        assert(((index - 1) + 1) % len == index) by (nonlinear_arith)
            requires
                0 <= index < len,
        ;
    }
}

/// Outside a pause, a refresh with a snapshot keeps the snapshot and shows
/// of it the records that belong under the active tab and pass the filter,
/// each as often as the snapshot holds it, in descending order of ports. The
/// cursor, the tabs, the filter and the switches stay as they were.
pub proof fn lemma_refresh_shows_the_snapshot(app: AppModel, snapshot: Seq<ConnectionModel>)
    requires
        !app.paused,
    ensures
        app.refreshed(Some(snapshot)).connections == snapshot,
        app.refreshed(Some(snapshot)).items == visible(snapshot, app.mask(), app.regex),
        app.refreshed(Some(snapshot)).items.to_multiset() == matching(
            under_tab(snapshot, app.mask()),
            app.regex,
        ).to_multiset(),
        is_descending(app.refreshed(Some(snapshot)).items),
        app.refreshed(Some(snapshot)) == (AppModel {
            connections: snapshot,
            items: visible(snapshot, app.mask(), app.regex),
            ..app
        }),
        app.refreshed(None) == app,
{
    lemma_visible_is_permutation(snapshot, app.mask(), app.regex);
    lemma_visible_is_descending(snapshot, app.mask(), app.regex);
}

} // verus!
