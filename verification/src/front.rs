//! The state of the terminal front end, and what the keys do to it.
//!
//! Drawing and reading keys are not done here: the program that runs the
//! terminal hands each key to [`on_key`], does what the returned
//! [`Action`] asks, and draws the state.

use crate::fakes::{fake_number, fake_text};
use crate::models::{AppTab, Dataset, Mode};
use crate::record::{pair_texts, texts};
use vstd::prelude::*;
use vstd::string::StringExecFns;

verus! {

/// Which entry of a list is picked, if any.
#[derive(Clone, Copy, Debug, PartialEq, Eq, Structural)]
pub struct ListState {
    pub selected: Option<usize>,
}

impl ListState {
    /// Picks an entry, or none.
    pub fn select(&mut self, index: Option<usize>)
        ensures
            final(self).selected == index,
    {
        self.selected = index;
    }

    /// The entry that is picked.
    pub fn selected(&self) -> (r: Option<usize>)
        ensures
            r == self.selected,
    {
        self.selected
    }
}

/// The state of the front end.
pub struct App {
    pub current_tab: AppTab,
    pub mode: Mode,
    pub datasets: Vec<Dataset>,
    pub databases: Vec<String>,
    pub ds_state: ListState,
    pub db_state: ListState,
    pub input: String,
}

/// The pick that follows `selected` in a list of `len` entries when it is
/// moved by `delta` and goes round at both ends; the first entry where
/// nothing was picked.
pub open spec fn wrapped(selected: Option<usize>, len: int, delta: int) -> int
    recommends
        len > 0,
{
    match selected {
        Some(i) => (i + delta) % len,
        None => 0,
    }
}

/// The pick that follows `selected` in a list of `len` entries when it is
/// moved by `delta` and stops at both ends; the first entry where nothing
/// was picked.
pub open spec fn clamped(selected: Option<usize>, len: int, delta: int) -> int
    recommends
        len > 0,
{
    match selected {
        Some(i) => if i + delta < 0 {
            0
        } else if i + delta >= len {
            len - 1
        } else {
            i + delta
        },
        None => 0,
    }
}

/// The pick of the list of the tab that is shown.
pub open spec fn shown_pick(app: App) -> Option<usize> {
    match app.current_tab {
        AppTab::Database => app.db_state.selected,
        AppTab::Dataset => app.ds_state.selected,
    }
}

/// The length of the list of the tab that is shown.
pub open spec fn shown_len(app: App) -> int {
    match app.current_tab {
        AppTab::Database => app.databases@.len() as int,
        AppTab::Dataset => app.datasets@.len() as int,
    }
}

/// `after` is `before` but for the pick of the list that is shown, which
/// is `pick`.
pub open spec fn pick_moved(before: App, after: App, pick: Option<usize>) -> bool {
    &&& after.current_tab == before.current_tab
    &&& after.mode == before.mode
    &&& after.datasets == before.datasets
    &&& after.databases == before.databases
    &&& after.input == before.input
    &&& shown_pick(after) == pick
    &&& match before.current_tab {
        AppTab::Database => after.ds_state == before.ds_state,
        AppTab::Dataset => after.db_state == before.db_state,
    }
}

/// `(i + delta) mod len`, computed without leaving the machine's numbers.
fn wrap_index(i: usize, len: usize, delta: i32) -> (r: usize)
    requires
        len > 0,
    ensures
        r == (i + delta) % (len as int),
{
    let m: i128 = len as i128;
    let x: i128 = i as i128 + delta as i128;
    if x >= 0 {
        let r: i128 = x % m;
        r as usize
    } else {
        let y: i128 = (-x) % m;
        proof {
            let n: int = -(x as int);
            let d: int = m as int;
            let q: int = n / d;
            vstd::arithmetic::div_mod::lemma_fundamental_div_mod(n, d);
            vstd::arithmetic::div_mod::lemma_mod_bound(n, d);
            assert(n == d * q + y);
            if y == 0 {
                assert(x as int == (-q) * d + 0) by (nonlinear_arith)
                    requires
                        -(x as int) == d * q,
                ;
                vstd::arithmetic::div_mod::lemma_fundamental_div_mod_converse_mod(
                    x as int,
                    d,
                    -q,
                    0,
                );
            } else {
                assert(x as int == (-q - 1) * d + (d - y)) by (nonlinear_arith)
                    requires
                        -(x as int) == d * q + y,
                ;
                vstd::arithmetic::div_mod::lemma_fundamental_div_mod_converse_mod(
                    x as int,
                    d,
                    -q - 1,
                    d - y,
                );
            }
        }
        if y == 0 {
            0
        } else {
            (m - y) as usize
        }
    }
}

/// `i + delta`, held between the first and the last of `len` entries.
fn clamp_index(i: usize, len: usize, delta: i32) -> (r: usize)
    requires
        len > 0,
    ensures
        r == clamped(Some(i), len as int, delta as int),
{
    let next: i128 = i as i128 + delta as i128;
    if next < 0 {
        0
    } else if next >= len as i128 {
        len - 1
    } else {
        next as usize
    }
}

impl App {
    /// The state at the start, with the datasets that were found: the tab
    /// of the datasets is shown, the first dataset picked where there is
    /// one, and the first of the three databases.
    pub fn new(datasets: Vec<Dataset>) -> (app: App)
        ensures
            app.current_tab == AppTab::Dataset,
            app.mode is Normal,
            app.datasets == datasets,
            app.ds_state.selected == (if datasets@.len() > 0 {
                Some(0usize)
            } else {
                None
            }),
            app.databases@.len() == 3,
            app.databases@[0]@ == "PostgreSQL_Prod"@,
            app.databases@[1]@ == "MySQL_Dev"@,
            app.databases@[2]@ == "Local_SQLite"@,
            app.db_state.selected == Some(0usize),
            app.input@.len() == 0,
    {
        let mut ds_state = ListState { selected: None };
        if datasets.len() > 0 {
            ds_state.select(Some(0));
        }
        let mut databases: Vec<String> = Vec::new();
        databases.push("PostgreSQL_Prod".to_owned());
        databases.push("MySQL_Dev".to_owned());
        databases.push("Local_SQLite".to_owned());
        let mut db_state = ListState { selected: None };
        db_state.select(Some(0));
        App {
            current_tab: AppTab::Dataset,
            mode: Mode::Normal,
            datasets,
            databases,
            ds_state,
            db_state,
            input: String::new(),
        }
    }

    /// Moves the pick of the list that is shown by `delta`, going round at
    /// both ends. Where nothing was picked, the first entry is. An empty
    /// list is left as it is.
    pub fn move_selection(&mut self, delta: i32)
        ensures
            shown_len(*old(self)) == 0 ==> *final(self) == *old(self),
            shown_len(*old(self)) > 0 ==> pick_moved(
                *old(self),
                *final(self),
                Some(
                    wrapped(shown_pick(*old(self)), shown_len(*old(self)), delta as int) as usize,
                ),
            ),
    {
        let len = match self.current_tab {
            AppTab::Database => self.databases.len(),
            AppTab::Dataset => self.datasets.len(),
        };
        if len == 0 {
            return ;
        }
        let picked = match self.current_tab {
            AppTab::Database => self.db_state.selected(),
            AppTab::Dataset => self.ds_state.selected(),
        };
        let i = match picked {
            Some(i) => wrap_index(i, len, delta),
            None => 0,
        };
        match self.current_tab {
            AppTab::Database => self.db_state.select(Some(i)),
            AppTab::Dataset => self.ds_state.select(Some(i)),
        }
    }
}

/// Moves the pick of the list that is shown by `delta`, stopping at both
/// ends. Where nothing was picked, the first entry is. An empty list is
/// left as it is.
pub fn move_selection(app: &mut App, delta: i32)
    ensures
        shown_len(*old(app)) == 0 ==> *final(app) == *old(app),
        shown_len(*old(app)) > 0 ==> pick_moved(
            *old(app),
            *final(app),
            Some(clamped(shown_pick(*old(app)), shown_len(*old(app)), delta as int) as usize),
        ),
{
    let len = match app.current_tab {
        AppTab::Database => app.databases.len(),
        AppTab::Dataset => app.datasets.len(),
    };
    if len == 0 {
        return ;
    }
    let picked = match app.current_tab {
        AppTab::Database => app.db_state.selected(),
        AppTab::Dataset => app.ds_state.selected(),
    };
    let i = match picked {
        Some(i) => clamp_index(i, len, delta),
        None => 0,
    };
    match app.current_tab {
        AppTab::Database => app.db_state.select(Some(i)),
        AppTab::Dataset => app.ds_state.select(Some(i)),
    }
}

/// How many rows a preview has.
pub const PREVIEW_ROWS: usize = 10;

/// Whether `value` may stand for a field in a preview: for the field
/// `name` any text, for the field `age` a number below 256 as it is
/// printed, for every other field `N/A`.
pub open spec fn is_value_for(field: Seq<char>, value: String) -> bool {
    if field == "name"@ {
        true
    } else if field == "age"@ {
        exists|n: u8| #[trigger] vstd::string::to_string_from_display_ensures::<u8>(&n, value)
    } else {
        value@ == "N/A"@
    }
}

/// Whether `cells` may stand for `fields`, one for one: each holds its
/// field and a value that may stand for it.
pub open spec fn are_cells_for(fields: Seq<String>, cells: Seq<(String, String)>) -> bool {
    &&& cells.len() == fields.len()
    &&& forall|i: int|
        0 <= i < fields.len() ==> (#[trigger] cells[i]).0@ == fields[i]@ && is_value_for(
            fields[i]@,
            cells[i].1,
        )
}

/// A field with its value: `field=value`.
pub open spec fn cell(field: Seq<char>, value: Seq<char>) -> Seq<char> {
    field + "="@ + value
}

/// The cells of a row with two spaces between them.
pub open spec fn joined_row(cells: Seq<(Seq<char>, Seq<char>)>) -> Seq<char>
    decreases cells.len(),
{
    if cells.len() == 0 {
        Seq::empty()
    } else if cells.len() == 1 {
        cell(cells[0].0, cells[0].1)
    } else {
        joined_row(cells.drop_last()) + "  "@ + cell(cells.last().0, cells.last().1)
    }
}

/// The cells of a row, each with two spaces after it.
pub open spec fn spaced_row(cells: Seq<(Seq<char>, Seq<char>)>) -> Seq<char>
    decreases cells.len(),
{
    if cells.len() == 0 {
        Seq::empty()
    } else {
        spaced_row(cells.drop_last()) + cell(cells.last().0, cells.last().1) + "  "@
    }
}

/// A value for a field of a preview, made up at random where the field
/// is `name` or `age`.
pub fn preview_value(field: &String) -> (value: String)
    ensures
        is_value_for(field@, value),
{
    let name = "name".to_owned();
    let age = "age".to_owned();
    if *field == name {
        fake_text()
    } else if *field == age {
        let n = fake_number();
        n.to_string()
    } else {
        "N/A".to_owned()
    }
}

/// A cell for each field of a preview: the field with a value for it.
pub fn preview_cells(fields: &Vec<String>) -> (cells: Vec<(String, String)>)
    ensures
        are_cells_for(fields@, cells@),
{
    let mut cells: Vec<(String, String)> = Vec::new();
    let mut i: usize = 0;
    while i < fields.len()
        invariant
            i <= fields.len(),
            cells.len() == i,
            forall|j: int|
                0 <= j < i ==> (#[trigger] cells[j]).0@ == fields[j]@ && is_value_for(
                    fields[j]@,
                    cells[j].1,
                ),
        decreases fields.len() - i,
    {
        let value = preview_value(&fields[i]);
        cells.push((fields[i].clone(), value));
        i = i + 1;
    }
    cells
}

/// The row of the cells, each `field=value`, with two spaces between one
/// cell and the next.
pub fn join_cells(cells: &Vec<(String, String)>) -> (row: String)
    ensures
        row@ == joined_row(pair_texts(cells@)),
{
    let ghost c = pair_texts(cells@);
    let mut row = String::new();
    let mut i: usize = 0;
    while i < cells.len()
        invariant
            i <= cells.len(),
            c == pair_texts(cells@),
            row@ == joined_row(c.take(i as int)),
        decreases cells.len() - i,
    {
        if i > 0 {
            row.append("  ");
        }
        row.append(cells[i].0.as_str());
        row.append("=");
        row.append(cells[i].1.as_str());
        proof {
            assert(c.take(i + 1).drop_last() =~= c.take(i as int));
            assert(row@ =~= joined_row(c.take(i + 1)));
        }
        i = i + 1;
    }
    proof {
        assert(c.take(cells.len() as int) =~= c);
    }
    row
}

/// The row of the cells, each `field=value` with two spaces after it.
pub fn space_cells(cells: &Vec<(String, String)>) -> (row: String)
    ensures
        row@ == spaced_row(pair_texts(cells@)),
{
    let ghost c = pair_texts(cells@);
    let mut row = String::new();
    let mut i: usize = 0;
    while i < cells.len()
        invariant
            i <= cells.len(),
            c == pair_texts(cells@),
            row@ == spaced_row(c.take(i as int)),
        decreases cells.len() - i,
    {
        row.append(cells[i].0.as_str());
        row.append("=");
        row.append(cells[i].1.as_str());
        row.append("  ");
        proof {
            assert(c.take(i + 1).drop_last() =~= c.take(i as int));
            assert(row@ =~= spaced_row(c.take(i + 1)));
        }
        i = i + 1;
    }
    proof {
        assert(c.take(cells.len() as int) =~= c);
    }
    row
}

/// Whether `row` is a row of a preview of these fields, the cells with
/// two spaces between them.
pub open spec fn is_joined_preview(fields: Seq<String>, row: Seq<char>) -> bool {
    exists|cells: Seq<(String, String)>| #[trigger]
        are_cells_for(fields, cells) && row == joined_row(pair_texts(cells))
}

/// Whether `row` is a row of a preview of these fields, each cell with
/// two spaces after it.
pub open spec fn is_spaced_preview(fields: Seq<String>, row: Seq<char>) -> bool {
    exists|cells: Seq<(String, String)>| #[trigger]
        are_cells_for(fields, cells) && row == spaced_row(pair_texts(cells))
}

impl App {
    /// Ten rows made up for a dataset. A row holds a cell `field=value`
    /// for each field, with two spaces between the cells.
    pub fn generate_preview(&self, dataset: &Dataset) -> (rows: Vec<String>)
        ensures
            rows.len() == PREVIEW_ROWS,
            forall|r: int|
                0 <= r < rows.len() ==> is_joined_preview(dataset.fields@, #[trigger] rows[r]@),
    {
        let mut rows: Vec<String> = Vec::new();
        let mut r: usize = 0;
        while r < PREVIEW_ROWS
            invariant
                r <= PREVIEW_ROWS,
                rows.len() == r,
                forall|k: int|
                    0 <= k < r ==> is_joined_preview(dataset.fields@, #[trigger] rows[k]@),
            decreases PREVIEW_ROWS - r,
        {
            let cells = preview_cells(&dataset.fields);
            let row = join_cells(&cells);
            assert(are_cells_for(dataset.fields@, cells@));
            rows.push(row);
            r = r + 1;
        }
        rows
    }
}

/// Ten rows made up for a dataset. A row holds a cell `field=value` for
/// each field, each cell with two spaces after it.
pub fn generate_preview(dataset: &Dataset) -> (rows: Vec<String>)
    ensures
        rows.len() == PREVIEW_ROWS,
        forall|r: int|
            0 <= r < rows.len() ==> is_spaced_preview(dataset.fields@, #[trigger] rows[r]@),
{
    let mut rows: Vec<String> = Vec::new();
    let mut r: usize = 0;
    while r < PREVIEW_ROWS
        invariant
            r <= PREVIEW_ROWS,
            rows.len() == r,
            forall|k: int| 0 <= k < r ==> is_spaced_preview(dataset.fields@, #[trigger] rows[k]@),
        decreases PREVIEW_ROWS - r,
    {
        let cells = preview_cells(&dataset.fields);
        let row = space_cells(&cells);
        assert(are_cells_for(dataset.fields@, cells@));
        rows.push(row);
        r = r + 1;
    }
    rows
}

/// A key, as far as the front end tells keys apart.
#[derive(Clone, Copy, Debug, PartialEq, Eq, Structural)]
pub enum Key {
    Esc,
    Enter,
    Backspace,
    Up,
    Down,
    /// A key that types a character.
    Char(char),
    /// A function key, by its number.
    F(u8),
    /// Any other key.
    Other,
}

/// What the program is to do after a key.
#[derive(Clone, Copy, Debug, PartialEq, Eq, Structural)]
pub enum Action {
    /// Go on.
    Continue,
    /// Write the datasets down, then go on.
    Save,
    /// Leave.
    Quit,
}

/// `String::push`: the character is added at the end.
pub assume_specification[ String::push ](s: &mut String, c: char)
    ensures
        final(s)@ == old(s)@.push(c),
;

/// `String::pop`: the last character leaves and is returned, where there
/// is one.
pub assume_specification[ String::pop ](s: &mut String) -> (r: Option<char>)
    ensures
        old(s)@.len() == 0 ==> r is None && final(s)@ == old(s)@,
        old(s)@.len() > 0 ==> r == Some(old(s)@.last()) && final(s)@ == old(s)@.drop_last(),
;

/// `String::clear`: nothing is left.
pub assume_specification[ String::clear ](s: &mut String)
    ensures
        final(s)@ == Seq::<char>::empty(),
;

/// The datasets with which the front end starts where none were written
/// down: one, `Default_Users`, with the fields `name` and `age`.
pub fn default_datasets() -> (datasets: Vec<Dataset>)
    ensures
        datasets@.len() == 1,
        datasets@[0].name@ == "Default_Users"@,
        is_new_dataset(datasets@[0], "Default_Users"@),
{
    let mut datasets: Vec<Dataset> = Vec::new();
    datasets.push(new_dataset("Default_Users".to_owned()));
    datasets
}

/// Whether `d` is a dataset as the front end creates it: the given name,
/// and the fields `name` and `age`.
pub open spec fn is_new_dataset(d: Dataset, name: Seq<char>) -> bool {
    &&& d.name@ == name
    &&& d.fields@.len() == 2
    &&& d.fields@[0]@ == "name"@
    &&& d.fields@[1]@ == "age"@
}

/// A dataset with the given name and the fields `name` and `age`.
pub fn new_dataset(name: String) -> (d: Dataset)
    ensures
        is_new_dataset(d, name@),
{
    let mut fields: Vec<String> = Vec::new();
    fields.push("name".to_owned());
    fields.push("age".to_owned());
    Dataset { name, fields }
}

/// `after` has the tabs, the lists and their picks of `before`: all but
/// the mode and what was typed.
pub open spec fn lists_kept(before: App, after: App) -> bool {
    &&& after.current_tab == before.current_tab
    &&& after.datasets == before.datasets
    &&& after.databases == before.databases
    &&& after.ds_state == before.ds_state
    &&& after.db_state == before.db_state
}

/// What a key does while a preview is shown: `Esc` closes it, no other
/// key does anything.
pub open spec fn preview_key_step(before: App, key: Key, after: App, action: Action) -> bool {
    &&& action == Action::Continue
    &&& lists_kept(before, after)
    &&& after.input == before.input
    &&& if key == Key::Esc {
        after.mode is Normal
    } else {
        after.mode == before.mode
    }
}

/// What a key does while a name is typed. A character is added to the
/// name and `Backspace` takes the last one away. `Enter` ends the typing:
/// where a name was typed, a dataset of that name is added at the end and
/// picked, and the datasets are to be written down. `Esc` ends the typing
/// and drops what was typed.
pub open spec fn creating_key_step(before: App, key: Key, after: App, action: Action) -> bool {
    match key {
        Key::Enter => {
            &&& after.mode is Normal
            &&& after.input@.len() == 0
            &&& after.current_tab == before.current_tab
            &&& after.databases == before.databases
            &&& after.db_state == before.db_state
            &&& if before.input@.len() > 0 {
                &&& action == Action::Save
                &&& after.datasets@.len() == before.datasets@.len() + 1
                &&& after.datasets@.drop_last() == before.datasets@
                &&& is_new_dataset(after.datasets@.last(), before.input@)
                &&& after.ds_state.selected == Some(before.datasets@.len() as usize)
            } else {
                &&& action == Action::Continue
                &&& after.datasets == before.datasets
                &&& after.ds_state == before.ds_state
            }
        },
        Key::Char(c) => {
            &&& action == Action::Continue
            &&& lists_kept(before, after)
            &&& after.mode is Creating
            &&& after.input@ == before.input@.push(c)
        },
        Key::Backspace => {
            &&& action == Action::Continue
            &&& lists_kept(before, after)
            &&& after.mode is Creating
            &&& after.input@ == if before.input@.len() > 0 {
                before.input@.drop_last()
            } else {
                before.input@
            }
        },
        Key::Esc => {
            &&& action == Action::Continue
            &&& lists_kept(before, after)
            &&& after.mode is Normal
            &&& after.input@.len() == 0
        },
        _ => action == Action::Continue && after == before,
    }
}

/// Whether `Enter` opens a preview: the tab of the datasets is shown and
/// one of them is picked.
pub open spec fn opens_preview(app: App) -> bool {
    &&& app.current_tab == AppTab::Dataset
    &&& app.ds_state.selected matches Some(i) && i < app.datasets@.len()
}

/// What a key does otherwise. `q` leaves. `F1` and `F2` show the tab of
/// the databases and that of the datasets. `n`, on the tab of the
/// datasets, starts the typing of a name. `Down` and `Up` move the pick
/// of the list that is shown by one, stopping at both ends. `Enter`, on
/// the tab of the datasets, opens a preview of the dataset that is picked.
pub open spec fn normal_key_step(before: App, key: Key, after: App, action: Action) -> bool {
    if key == Key::Char('q') {
        action == Action::Quit && after == before
    } else {
        &&& action == Action::Continue
        &&& if key == Key::F(1) || key == Key::F(2) {
            &&& after.current_tab == (if key == Key::F(1) {
                AppTab::Database
            } else {
                AppTab::Dataset
            })
            &&& after.mode == before.mode
            &&& after.datasets == before.datasets
            &&& after.databases == before.databases
            &&& after.ds_state == before.ds_state
            &&& after.db_state == before.db_state
            &&& after.input == before.input
        } else if key == Key::Char('n') && before.current_tab == AppTab::Dataset {
            lists_kept(before, after) && after.input == before.input && after.mode is Creating
        } else if key == Key::Down || key == Key::Up {
            let delta: int = if key == Key::Down {
                1
            } else {
                -1
            };
            if shown_len(before) == 0 {
                after == before
            } else {
                pick_moved(
                    before,
                    after,
                    Some(clamped(shown_pick(before), shown_len(before), delta) as usize),
                )
            }
        } else if key == Key::Enter && opens_preview(before) {
            &&& lists_kept(before, after)
            &&& after.input == before.input
            &&& after.mode matches Mode::Preview(rows) && rows@.len() == PREVIEW_ROWS
                && forall|r: int|
                0 <= r < rows@.len() ==> is_spaced_preview(
                    before.datasets@[before.ds_state.selected->Some_0 as int].fields@,
                    #[trigger] rows@[r]@,
                )
        } else {
            after == before
        }
    }
}

/// What a key does to the front end, and what the program is to do
/// after it.
pub open spec fn key_step(before: App, key: Key, after: App, action: Action) -> bool {
    match before.mode {
        Mode::Preview(_) => preview_key_step(before, key, after, action),
        Mode::Creating => creating_key_step(before, key, after, action),
        Mode::Normal => normal_key_step(before, key, after, action),
    }
}

/// Takes a key: changes the state as the key asks, and says what the
/// program is to do next.
pub fn on_key(app: &mut App, key: Key) -> (action: Action)
    ensures
        key_step(*old(app), key, *final(app), action),
{
    let previewing = match &app.mode {
        Mode::Preview(_) => true,
        _ => false,
    };
    let creating = match &app.mode {
        Mode::Creating => true,
        _ => false,
    };
    if previewing {
        if key == Key::Esc {
            app.mode = Mode::Normal;
        }
        Action::Continue
    } else if creating {
        match key {
            Key::Enter => {
                let mut action = Action::Continue;
                if !app.input.as_str().is_empty() {
                    let ghost before = app.datasets@;
                    let dataset = new_dataset(app.input.clone());
                    app.datasets.push(dataset);
                    action = Action::Save;
                    app.ds_state.select(Some(app.datasets.len() - 1));
                    assert(app.datasets@.drop_last() =~= before);
                }
                app.input.clear();
                app.mode = Mode::Normal;
                action
            },
            Key::Char(c) => {
                app.input.push(c);
                Action::Continue
            },
            Key::Backspace => {
                let _ = app.input.pop();
                Action::Continue
            },
            Key::Esc => {
                app.input.clear();
                app.mode = Mode::Normal;
                Action::Continue
            },
            _ => Action::Continue,
        }
    } else {
        match key {
            Key::Char(c) => {
                if c == 'q' {
                    return Action::Quit;
                }
                if c == 'n' && app.current_tab == AppTab::Dataset {
                    app.mode = Mode::Creating;
                }
            },
            Key::F(n) => {
                if n == 1 {
                    app.current_tab = AppTab::Database;
                } else if n == 2 {
                    app.current_tab = AppTab::Dataset;
                }
            },
            Key::Down => {
                move_selection(app, 1);
            },
            Key::Up => {
                move_selection(app, -1);
            },
            Key::Enter => {
                if app.current_tab == AppTab::Dataset {
                    match app.ds_state.selected() {
                        Some(i) => {
                            if i < app.datasets.len() {
                                let rows = generate_preview(&app.datasets[i]);
                                app.mode = Mode::Preview(rows);
                            }
                        },
                        None => {},
                    }
                }
            },
            _ => {},
        }
        Action::Continue
    }
}

/// The place of a tab in the row of tabs.
pub fn tab_index(tab: &AppTab) -> (i: usize)
    ensures
        i == (match *tab {
            AppTab::Database => 0usize,
            AppTab::Dataset => 1usize,
        }),
{
    match tab {
        AppTab::Database => 0,
        AppTab::Dataset => 1,
    }
}

/// The line of a database in its list.
pub fn database_label(name: &str) -> (label: String)
    ensures
        label@ == " 🗄️  "@ + name@,
{
    " 🗄️  ".to_owned().concat(name)
}

/// The line of a dataset in its list.
pub fn dataset_label(name: &str) -> (label: String)
    ensures
        label@ == " 📄 "@ + name@,
{
    " 📄 ".to_owned().concat(name)
}

/// The lines joined, with a line break between one and the next.
pub open spec fn joined_lines(lines: Seq<Seq<char>>) -> Seq<char>
    decreases lines.len(),
{
    if lines.len() == 0 {
        Seq::empty()
    } else if lines.len() == 1 {
        lines[0]
    } else {
        joined_lines(lines.drop_last()) + "\n"@ + lines.last()
    }
}

/// The rows of a preview as one text, a row to a line.
pub fn preview_text(rows: &Vec<String>) -> (text: String)
    ensures
        text@ == joined_lines(texts(rows@)),
{
    let ghost lines = texts(rows@);
    let mut text = String::new();
    let mut i: usize = 0;
    while i < rows.len()
        invariant
            i <= rows.len(),
            lines == texts(rows@),
            text@ == joined_lines(lines.take(i as int)),
        decreases rows.len() - i,
    {
        if i > 0 {
            text.append("\n");
        }
        text.append(rows[i].as_str());
        proof {
            assert(lines.take(i + 1).drop_last() =~= lines.take(i as int));
            assert(text@ =~= joined_lines(lines.take(i + 1)));
        }
        i = i + 1;
    }
    proof {
        assert(lines.take(rows.len() as int) =~= lines);
    }
    text
}

/// The hint at the foot of the screen: what is typed while a name is
/// typed, how to leave a preview, and else the keys of the tab that is
/// shown.
pub open spec fn hint_text(app: App) -> Seq<char> {
    match app.mode {
        Mode::Creating => " ➤ [新建模式] 输入名称: "@ + app.input@ + "_"@,
        Mode::Preview(_) => " ➤ [预览模式] 按 ESC 返回"@,
        Mode::Normal => match app.current_tab {
            AppTab::Database => " 方向键: 选择 | Enter: 管理 | Q: 退出 "@,
            AppTab::Dataset => " 方向键: 选择 | Enter: 预览 | N: 新建 | Q: 退出 "@,
        },
    }
}

/// The hint at the foot of the screen.
pub fn hint(app: &App) -> (text: String)
    ensures
        text@ == hint_text(*app),
{
    match &app.mode {
        Mode::Creating => " ➤ [新建模式] 输入名称: ".to_owned().concat(app.input.as_str()).concat(
            "_",
        ),
        Mode::Preview(_) => " ➤ [预览模式] 按 ESC 返回".to_owned(),
        Mode::Normal => match app.current_tab {
            AppTab::Database => " 方向键: 选择 | Enter: 管理 | Q: 退出 ".to_owned(),
            AppTab::Dataset => " 方向键: 选择 | Enter: 预览 | N: 新建 | Q: 退出 ".to_owned(),
        },
    }
}

/// The hint at the foot of the screen, in its shorter form: the same for
/// both tabs.
pub open spec fn short_hint_text(app: App) -> Seq<char> {
    match app.mode {
        Mode::Creating => " ➤ [新建] 名称: "@ + app.input@ + "_"@,
        Mode::Preview(_) => " ➤ [预览] ESC 返回"@,
        Mode::Normal => " Q: 退出 | F1/F2: 切换 | Enter: 确认 | N: 新建 "@,
    }
}

/// The hint at the foot of the screen, in its shorter form.
pub fn short_hint(app: &App) -> (text: String)
    ensures
        text@ == short_hint_text(*app),
{
    match &app.mode {
        Mode::Creating => " ➤ [新建] 名称: ".to_owned().concat(app.input.as_str()).concat("_"),
        Mode::Preview(_) => " ➤ [预览] ESC 返回".to_owned(),
        Mode::Normal => " Q: 退出 | F1/F2: 切换 | Enter: 确认 | N: 新建 ".to_owned(),
    }
}

} // verus!
