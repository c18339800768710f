//! The screen that edits the variables of an open profile: a list of rows,
//! one per variable, whose key or value can be edited in place.

use vstd::prelude::*;

use crate::env::{insert_all, plain_env, Env, EnvMap, EnvView};
use crate::text::{pop_char, push_char, trim, trim_str, without_last};
use crate::tui::input::{
    status_after_key, status_after_save, stepped, step_selection, Action, KeyCode, KeyPress,
    Status, StatusView,
};

verus! {

/// What is being edited: nothing, or the key or the value of a row.
#[derive(Clone, Copy, Debug, PartialEq, Eq, Structural)]
pub enum EditMode {
    Nothing,
    Key(usize),
    Value(usize),
}

/// The mathematical value of an [`EditScreen`].
pub struct EditView {
    pub envs: Seq<EnvView>,
    pub selected: Option<usize>,
    pub mode: EditMode,
    pub buffer: Seq<char>,
    pub status: StatusView,
}

/// The rows of the screen, the selected row, what is being edited and the
/// text typed so far, and the state of the last save.
pub struct EditScreen {
    envs: Vec<Env>,
    selected: Option<usize>,
    edit_mode: EditMode,
    edit_buffer: String,
    status: Status,
}

/// The values of a sequence of variables.
pub open spec fn env_views(envs: Seq<Env>) -> Seq<EnvView> {
    envs.map_values(|e: Env| e@)
}

impl View for EditScreen {
    type V = EditView;

    closed spec fn view(&self) -> EditView {
        EditView {
            envs: env_views(self.envs@),
            selected: self.selected,
            mode: self.edit_mode,
            buffer: self.edit_buffer@,
            status: self.status@,
        }
    }
}

/// The selection points at a row, and there is one whenever there are rows;
/// a row being edited is the selected one.
pub open spec fn edit_wf(v: EditView) -> bool {
    &&& (v.selected matches Some(i) ==> i < v.envs.len())
    &&& (v.envs.len() > 0 ==> v.selected is Some)
    &&& (v.mode matches EditMode::Key(i) ==> v.selected == Some(i))
    &&& (v.mode matches EditMode::Value(i) ==> v.selected == Some(i))
}

/// `v` with other rows and another selection.
pub open spec fn with_rows(v: EditView, envs: Seq<EnvView>, selected: Option<usize>) -> EditView {
    EditView { envs, selected, mode: v.mode, buffer: v.buffer, status: v.status }
}

/// `v` with another mode and edit text.
pub open spec fn with_edit(v: EditView, mode: EditMode, buffer: Seq<char>) -> EditView {
    EditView { envs: v.envs, selected: v.selected, mode, buffer, status: v.status }
}

/// The selection once the row at `idx` has been taken out of rows of which
/// `len` are left: the same place, or the last row, or none.
pub open spec fn selection_after_removal(idx: int, len: int) -> Option<usize> {
    if len == 0 {
        None
    } else if idx < len {
        Some(idx as usize)
    } else {
        Some((len - 1) as usize)
    }
}

/// `v` without the row at `idx`.
pub open spec fn without_row(v: EditView, idx: int) -> EditView {
    let envs = v.envs.remove(idx);
    with_rows(v, envs, selection_after_removal(idx, envs.len() as int))
}

/// `v` with the selection moved by `delta` rows.
pub open spec fn moved(v: EditView, delta: int) -> EditView {
    if v.envs.len() == 0 {
        v
    } else {
        with_rows(v, v.envs, Some(stepped(v.selected, delta, v.envs.len() as int) as usize))
    }
}

/// `v` editing the key of the selected row, if a row is selected.
pub open spec fn editing_key(v: EditView) -> EditView {
    match v.selected {
        Some(i) => if i < v.envs.len() {
            with_edit(v, EditMode::Key(i), v.envs[i as int].key)
        } else {
            v
        },
        None => v,
    }
}

/// `v` editing the value of the selected row, if a row is selected.
pub open spec fn editing_value(v: EditView) -> EditView {
    match v.selected {
        Some(i) => if i < v.envs.len() {
            with_edit(v, EditMode::Value(i), v.envs[i as int].value)
        } else {
            v
        },
        None => v,
    }
}

/// A row with neither key nor value.
pub open spec fn is_blank(e: EnvView) -> bool {
    e.key.len() == 0 && e.value.len() == 0
}

/// `e` with another key.
pub open spec fn with_key(e: EnvView, key: Seq<char>) -> EnvView {
    EnvView { key, value: e.value, comment: e.comment, expiration_date: e.expiration_date }
}

/// `e` with another value.
pub open spec fn with_value(e: EnvView, value: Seq<char>) -> EnvView {
    EnvView { key: e.key, value, comment: e.comment, expiration_date: e.expiration_date }
}

/// `v` with nothing being edited.
pub open spec fn not_editing(v: EditView) -> EditView {
    with_edit(v, EditMode::Nothing, Seq::empty())
}

/// `v` once the edit is finished: a key is stored trimmed, unless it is
/// empty, and then a blank row goes away; a value is stored as typed.
pub open spec fn finished(v: EditView) -> EditView {
    not_editing(
        match v.mode {
            EditMode::Key(i) => if i < v.envs.len() {
                let t = trim(v.buffer);
                if t.len() == 0 {
                    if is_blank(v.envs[i as int]) {
                        without_row(v, i as int)
                    } else {
                        v
                    }
                } else {
                    with_rows(v, v.envs.update(i as int, with_key(v.envs[i as int], t)), v.selected)
                }
            } else {
                v
            },
            EditMode::Value(i) => if i < v.envs.len() {
                with_rows(v, v.envs.update(i as int, with_value(v.envs[i as int], v.buffer)), v.selected)
            } else {
                v
            },
            EditMode::Nothing => v,
        },
    )
}

/// `v` once the edit is given up: a blank row whose key was being edited
/// goes away.
pub open spec fn cancelled(v: EditView) -> EditView {
    not_editing(
        match v.mode {
            EditMode::Key(i) => if i < v.envs.len() && is_blank(v.envs[i as int]) {
                without_row(v, i as int)
            } else {
                v
            },
            _ => v,
        },
    )
}

/// `v` with a blank row added last, selected, and its key being edited.
pub open spec fn with_new_row(v: EditView) -> EditView {
    editing_key(
        with_rows(v, v.envs.push(plain_env(Seq::empty(), Seq::empty())), Some(v.envs.len() as usize)),
    )
}

/// `v` without the selected row.
pub open spec fn deleted(v: EditView) -> EditView {
    match v.selected {
        Some(i) => if i < v.envs.len() {
            without_row(v, i as int)
        } else {
            v
        },
        None => v,
    }
}

/// `v` with another status.
pub open spec fn with_status(v: EditView, status: StatusView) -> EditView {
    EditView { envs: v.envs, selected: v.selected, mode: v.mode, buffer: v.buffer, status }
}

/// A key press that asks for a save: `s` while nothing is being edited.
pub open spec fn asks_save(v: EditView, k: KeyPress) -> bool {
    v.mode is Nothing && k.code == KeyCode::Char('s')
}

/// A key press that leaves the screen: Escape while nothing is being edited.
pub open spec fn asks_back(v: EditView, k: KeyPress) -> bool {
    v.mode is Nothing && k.code == KeyCode::Esc
}

/// The screen after the key press `k` on `v`.
pub open spec fn after_key(v0: EditView, k: KeyPress) -> EditView {
    let v = with_status(v0, status_after_key(v0.status));
    match v.mode {
        EditMode::Nothing => match k.code {
            KeyCode::Up => moved(v, -1),
            KeyCode::Down => moved(v, 1),
            KeyCode::Enter => editing_key(v),
            KeyCode::Right => editing_value(v),
            KeyCode::Char(c) => if c == 'k' {
                moved(v, -1)
            } else if c == 'j' {
                moved(v, 1)
            } else if c == 'a' {
                with_new_row(v)
            } else if c == 'd' {
                deleted(v)
            } else if c == 's' {
                with_status(v, StatusView::Saving)
            } else {
                v
            },
            _ => v,
        },
        _ => match k.code {
            KeyCode::Enter => finished(v),
            KeyCode::Esc => cancelled(v),
            KeyCode::Left => if v.mode is Value {
                editing_key(finished(v))
            } else {
                v
            },
            KeyCode::Right => if v.mode is Key {
                editing_value(finished(v))
            } else {
                v
            },
            KeyCode::Char(c) => with_edit(v, v.mode, v.buffer.push(c)),
            KeyCode::Backspace => with_edit(v, v.mode, without_last(v.buffer)),
            _ => v,
        },
    }
}

fn remove_row(envs: &mut Vec<Env>, selected: &mut Option<usize>, idx: usize)
    requires
        idx < old(envs)@.len(),
    ensures
        env_views(final(envs)@) == env_views(old(envs)@).remove(idx as int),
        *final(selected) == selection_after_removal(idx as int, final(envs)@.len() as int),
{
    envs.remove(idx);
    proof {
        assert(env_views(envs@) =~= env_views(old(envs)@).remove(idx as int));
    }
    if envs.len() == 0 {
        *selected = None;
    } else if idx < envs.len() {
        *selected = Some(idx);
    } else {
        *selected = Some(envs.len() - 1);
    }
}

/// What the row `i` shows: its key and value, with the text typed so far in
/// place of the one being edited.
pub open spec fn row_display(v: EditView, i: int) -> (Seq<char>, Seq<char>) {
    (
        if v.mode == EditMode::Key(i as usize) { v.buffer } else { v.envs[i].key },
        if v.mode == EditMode::Value(i as usize) { v.buffer } else { v.envs[i].value },
    )
}

impl EditScreen {
    /// The key and value each row shows, in order.
    pub fn display_rows(&self) -> (r: Vec<(String, String)>)
        ensures
            r@.len() == self@.envs.len(),
            forall|i: int| 0 <= i < r@.len() ==> ((#[trigger] r@[i]).0@, r@[i].1@) == row_display(self@, i),
    {
        let mut out: Vec<(String, String)> = Vec::new();
        let mut i: usize = 0;
        while i < self.envs.len()
            invariant
                i <= self.envs@.len(),
                out@.len() == i,
                forall|j: int| 0 <= j < i ==> ((#[trigger] out@[j]).0@, out@[j].1@) == row_display(self@, j),
            decreases self.envs@.len() - i,
        {
            let e = &self.envs[i];
            let key = match self.edit_mode {
                EditMode::Key(k) => if k == i { self.edit_buffer.clone() } else { e.key.clone() },
                _ => e.key.clone(),
            };
            let value = match self.edit_mode {
                EditMode::Value(k) => if k == i { self.edit_buffer.clone() } else { e.value.clone() },
                _ => e.value.clone(),
            };
            proof {
                assert(self@.envs[i as int] == self.envs@[i as int]@);
                assert((key@, value@) == row_display(self@, i as int));
            }
            out.push((key, value));
            i = i + 1;
        }
        out
    }

    /// A screen on the variables of `envs`, the first one selected.
    pub fn new(envs: &EnvMap) -> (r: EditScreen)
        ensures
            r@.envs == envs@,
            r@.selected == (if envs@.len() > 0 { Some(0usize) } else { None }),
            r@.mode == EditMode::Nothing,
            r@.buffer == Seq::<char>::empty(),
            r@.status == StatusView::Idle,
            edit_wf(r@),
    {
        proof {
            use_type_invariant(envs);
        }
        let rows = envs.values();
        let selected = if rows.len() > 0 { Some(0) } else { None };
        let r = EditScreen {
            envs: rows,
            selected,
            edit_mode: EditMode::Nothing,
            edit_buffer: String::new(),
            status: Status::Idle,
        };
        proof {
            assert(r@.envs =~= envs@);
        }
        r
    }

    /// The rows, in order.
    pub fn envs(&self) -> (r: &Vec<Env>)
        ensures
            env_views(r@) == self@.envs,
    {
        &self.envs
    }

    /// The selected row, if any.
    pub fn selected(&self) -> (r: Option<usize>)
        ensures
            r == self@.selected,
    {
        self.selected
    }

    /// What is being edited.
    pub fn edit_mode(&self) -> (r: EditMode)
        ensures
            r == self@.mode,
    {
        self.edit_mode
    }

    /// The text typed in the field being edited.
    pub fn edit_buffer(&self) -> (r: &str)
        ensures
            r@ == self@.buffer,
    {
        self.edit_buffer.as_str()
    }

    /// The state of the last save.
    pub fn status(&self) -> (r: &Status)
        ensures
            r@ == self@.status,
    {
        &self.status
    }

    /// Moves the selection by `delta` rows, staying inside the list.
    pub fn move_selection(&mut self, delta: i32)
        ensures
            final(self)@ == moved(old(self)@, delta as int),
            edit_wf(old(self)@) && old(self)@.mode is Nothing ==> edit_wf(final(self)@),
    {
        if self.envs.len() == 0 {
            return;
        }
        let new = step_selection(self.selected, delta, self.envs.len());
        self.selected = Some(new);
    }

    /// Starts editing the key of the selected row.
    pub fn start_edit_key(&mut self)
        ensures
            final(self)@ == editing_key(old(self)@),
    {
        if let Some(idx) = self.selected {
            if idx < self.envs.len() {
                self.edit_buffer = self.envs[idx].key.clone();
                self.edit_mode = EditMode::Key(idx);
            }
        }
    }

    /// Starts editing the value of the selected row.
    pub fn start_edit_value(&mut self)
        ensures
            final(self)@ == editing_value(old(self)@),
    {
        if let Some(idx) = self.selected {
            if idx < self.envs.len() {
                self.edit_buffer = self.envs[idx].value.clone();
                self.edit_mode = EditMode::Value(idx);
            }
        }
    }

    /// Stores what was typed into the row being edited.
    pub fn finish_edit(&mut self)
        ensures
            final(self)@ == finished(old(self)@),
            edit_wf(old(self)@) ==> edit_wf(final(self)@),
    {
        let ghost v = self@;
        match self.edit_mode {
            EditMode::Key(idx) => {
                if idx < self.envs.len() {
                    let trimmed = trim_str(self.edit_buffer.as_str()).to_owned();
                    if trimmed.as_str().is_empty() {
                        if self.envs[idx].key.as_str().is_empty() && self.envs[idx].value.as_str().is_empty() {
                            remove_row(&mut self.envs, &mut self.selected, idx);
                        }
                    } else {
                        let mut e = self.envs[idx].duplicate();
                        e.key = trimmed;
                        self.envs.set(idx, e);
                        proof {
                            assert(env_views(self.envs@) =~= v.envs.update(idx as int, with_key(v.envs[idx as int], trim(v.buffer))));
                        }
                    }
                }
            },
            EditMode::Value(idx) => {
                if idx < self.envs.len() {
                    let mut e = self.envs[idx].duplicate();
                    e.value = self.edit_buffer.clone();
                    self.envs.set(idx, e);
                    proof {
                        assert(env_views(self.envs@) =~= v.envs.update(idx as int, with_value(v.envs[idx as int], v.buffer)));
                    }
                }
            },
            EditMode::Nothing => {},
        }
        self.edit_mode = EditMode::Nothing;
        self.edit_buffer = String::new();
        proof {
            assert(self@.buffer =~= Seq::<char>::empty());
        }
    }

    /// Gives up the edit; a blank row whose key was being edited goes away.
    pub fn cancel_edit(&mut self)
        ensures
            final(self)@ == cancelled(old(self)@),
            edit_wf(old(self)@) ==> edit_wf(final(self)@),
    {
        if let EditMode::Key(idx) = self.edit_mode {
            if idx < self.envs.len() && self.envs[idx].key.as_str().is_empty()
                && self.envs[idx].value.as_str().is_empty()
            {
                remove_row(&mut self.envs, &mut self.selected, idx);
            }
        }
        self.edit_mode = EditMode::Nothing;
        self.edit_buffer = String::new();
        proof {
            assert(self@.buffer =~= Seq::<char>::empty());
        }
    }

    /// Adds a blank row at the end, selects it and starts editing its key.
    pub fn add_new_pair(&mut self)
        ensures
            final(self)@ == with_new_row(old(self)@),
            old(self)@.envs.len() < usize::MAX,
            edit_wf(old(self)@) ==> edit_wf(final(self)@),
    {
        let ghost v = self@;
        let new_env = Env::from_key_value(String::new(), String::new());
        self.envs.push(new_env);
        let new_idx = self.envs.len() - 1;
        self.selected = Some(new_idx);
        proof {
            assert(env_views(self.envs@) =~= v.envs.push(plain_env(Seq::empty(), Seq::empty())));
        }
        self.start_edit_key();
    }

    /// Removes the selected row.
    pub fn delete_current(&mut self)
        ensures
            final(self)@ == deleted(old(self)@),
            edit_wf(old(self)@) && old(self)@.mode is Nothing ==> edit_wf(final(self)@),
    {
        if let Some(idx) = self.selected {
            if idx < self.envs.len() {
                remove_row(&mut self.envs, &mut self.selected, idx);
            }
        }
    }

    /// Marks a save as under way and gives the rows as a map of variables,
    /// for the application to store in the profile and write out.
    pub fn save_changes(&mut self) -> (r: EnvMap)
        ensures
            final(self)@ == with_status(old(self)@, StatusView::Saving),
            r.wf(),
            r@ == insert_all(Seq::empty(), old(self)@.envs),
    {
        let mut rows: Vec<Env> = Vec::new();
        let mut i: usize = 0;
        while i < self.envs.len()
            invariant
                i <= self.envs@.len(),
                rows@.len() == i,
                forall|j: int| 0 <= j < i ==> #[trigger] rows@[j]@ == self.envs@[j]@,
            decreases self.envs@.len() - i,
        {
            rows.push(self.envs[i].duplicate());
            i = i + 1;
        }
        proof {
            assert(env_views(rows@) =~= env_views(self.envs@));
        }
        self.status = Status::Saving;
        EnvMap::from_envs(rows)
    }

    /// Records how the save under way ended (`None`: it has not ended).
    pub fn check_save(&mut self, outcome: Option<Result<(), String>>)
        ensures
            final(self)@ == with_status(old(self)@, status_after_save(old(self)@.status, outcome)),
    {
        self.status = self.status.after_save(outcome);
    }

    /// Handles a key press: moves, edits, adds, deletes, saves or leaves.
    pub fn handle_key_event(&mut self, key: KeyPress) -> (r: Action)
        ensures
            final(self)@ == after_key(old(self)@, key),
            edit_wf(old(self)@) ==> edit_wf(final(self)@),
            asks_back(old(self)@, key) ==> r is Back,
            asks_save(old(self)@, key) ==> (r matches Action::SaveEnvs(m) && m.wf()
                && m@ == insert_all(Seq::empty(), old(self)@.envs)),
            !asks_back(old(self)@, key) && !asks_save(old(self)@, key) ==> r is Nothing,
            old(self)@.mode is Nothing && key.code == KeyCode::Char('a') ==> old(self)@.envs.len() < usize::MAX,
    {
        self.status = self.status.after_key();
        match self.edit_mode {
            EditMode::Nothing => match key.code {
                KeyCode::Esc => Action::Back,
                KeyCode::Up => {
                    self.move_selection(-1);
                    Action::Nothing
                },
                KeyCode::Down => {
                    self.move_selection(1);
                    Action::Nothing
                },
                KeyCode::Enter => {
                    self.start_edit_key();
                    Action::Nothing
                },
                KeyCode::Right => {
                    self.start_edit_value();
                    Action::Nothing
                },
                KeyCode::Char(c) => {
                    if c == 'k' {
                        self.move_selection(-1);
                        Action::Nothing
                    } else if c == 'j' {
                        self.move_selection(1);
                        Action::Nothing
                    } else if c == 'a' {
                        self.add_new_pair();
                        Action::Nothing
                    } else if c == 'd' {
                        self.delete_current();
                        Action::Nothing
                    } else if c == 's' {
                        let m = self.save_changes();
                        Action::SaveEnvs(m)
                    } else {
                        Action::Nothing
                    }
                },
                _ => Action::Nothing,
            },
            _ => {
                match key.code {
                    KeyCode::Enter => self.finish_edit(),
                    KeyCode::Esc => self.cancel_edit(),
                    KeyCode::Left => {
                        if let EditMode::Value(_) = self.edit_mode {
                            self.finish_edit();
                            self.start_edit_key();
                        }
                    },
                    KeyCode::Right => {
                        if let EditMode::Key(_) = self.edit_mode {
                            self.finish_edit();
                            self.start_edit_value();
                        }
                    },
                    KeyCode::Char(c) => push_char(&mut self.edit_buffer, c),
                    KeyCode::Backspace => {
                        pop_char(&mut self.edit_buffer);
                    },
                    _ => {},
                }
                Action::Nothing
            },
        }
    }
}


/// Adding a row and then pressing Escape leaves the rows as they were, with
/// nothing being edited. A screen whose `a` key added a row had fewer than
/// `usize::MAX` rows before (see [`EditScreen::handle_key_event`]).
pub proof fn law_add_then_cancel(v: EditView, add: KeyPress, esc: KeyPress)
    requires
        edit_wf(v),
        v.mode is Nothing,
        v.envs.len() < usize::MAX,
        add.code == KeyCode::Char('a'),
        esc.code == KeyCode::Esc,
    ensures
        after_key(after_key(v, add), esc).envs == v.envs,
        after_key(after_key(v, add), esc).mode is Nothing,
        after_key(after_key(v, add), esc).buffer == Seq::<char>::empty(),
        !asks_back(v, add) && !asks_save(v, add),
        !asks_back(after_key(v, add), esc) && !asks_save(after_key(v, add), esc),
{
    let w = after_key(v, add);
    let n = v.envs.len();
    assert(w.envs == v.envs.push(plain_env(Seq::empty(), Seq::empty())));
    assert(w.mode == EditMode::Key(n as usize));
    assert(w.envs.remove(n as int) =~= v.envs);
}

} // verus!
