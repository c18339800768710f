//! The forms that create a profile and that edit a profile's name and
//! description.

use vstd::prelude::*;
use vstd::utf8::encode_utf8;

use crate::cipher::kind::all_kinds;
use crate::cipher::CipherKind;
use crate::profile::ProfileMetadata;
use crate::text::{pop_char, push_char, str_contains_char, trim, trim_str, without_last};
use crate::tui::input::{
    status_after_key, status_after_save, stepped, step_selection, Action, KeyCode, KeyPress,
    Status, StatusView,
};

verus! {

/// The fields of the form that creates a profile.
#[derive(Clone, Copy, Debug, PartialEq, Eq, Structural)]
pub enum CreateField {
    Name,
    Description,
    CipherKind,
    Key,
}

/// The parts of the key field: the passphrase, its confirmation, or the
/// choice of a GPG key.
#[derive(Clone, Copy, Debug, PartialEq, Eq, Structural)]
pub enum KeySubField {
    Passphrase,
    PassphraseConfirm,
    Gpg,
}

/// The mathematical value of a [`CreateProfileScreen`].
pub struct CreateView {
    pub name: Seq<char>,
    pub description: Seq<char>,
    pub cipher_selected: Option<usize>,
    pub cipher_kinds: Seq<CipherKind>,
    pub passphrase: Seq<char>,
    pub passphrase_confirm: Seq<char>,
    pub gpg_keys: Seq<(Seq<char>, Seq<char>)>,
    pub gpg_selected: Option<usize>,
    pub field: CreateField,
    pub sub_field: KeySubField,
    pub status: StatusView,
}

/// The form that creates a profile: its name, description, cipher kind, and
/// the passphrase or GPG key (a description of the key and its fingerprint).
pub struct CreateProfileScreen {
    name: String,
    description: String,
    cipher_selected: Option<usize>,
    cipher_kinds: Vec<CipherKind>,
    passphrase: String,
    passphrase_confirm: String,
    gpg_keys: Vec<(String, String)>,
    gpg_selected: Option<usize>,
    current_field: CreateField,
    key_sub_field: KeySubField,
    status: Status,
}

/// The characters of each part of pairs of strings.
pub open spec fn pair_views(ps: Seq<(String, String)>) -> Seq<(Seq<char>, Seq<char>)> {
    ps.map_values(|p: (String, String)| (p.0@, p.1@))
}

impl View for CreateProfileScreen {
    type V = CreateView;

    closed spec fn view(&self) -> CreateView {
        CreateView {
            name: self.name@,
            description: self.description@,
            cipher_selected: self.cipher_selected,
            cipher_kinds: self.cipher_kinds@,
            passphrase: self.passphrase@,
            passphrase_confirm: self.passphrase_confirm@,
            gpg_keys: pair_views(self.gpg_keys@),
            gpg_selected: self.gpg_selected,
            field: self.current_field,
            sub_field: self.key_sub_field,
            status: self.status@,
        }
    }
}

/// The kinds offered are all the kinds, and both selections point into
/// their lists.
pub open spec fn create_wf(v: CreateView) -> bool {
    &&& v.cipher_kinds == all_kinds()
    &&& (v.cipher_selected matches Some(i) ==> i < v.cipher_kinds.len())
    &&& (v.gpg_selected matches Some(i) ==> i < v.gpg_keys.len())
}

/// The cipher kind chosen.
pub open spec fn selected_kind(v: CreateView) -> CipherKind {
    match v.cipher_selected {
        Some(i) => v.cipher_kinds[i as int],
        None => v.cipher_kinds[0],
    }
}

/// The chosen kind asks for a key.
pub open spec fn needs_key(v: CreateView) -> bool {
    selected_kind(v) == CipherKind::PASSPHRASE || selected_kind(v) == CipherKind::GPG
}

/// `v` with another field and key part.
pub open spec fn at_field(v: CreateView, field: CreateField, sub_field: KeySubField) -> CreateView {
    CreateView {
        name: v.name,
        description: v.description,
        cipher_selected: v.cipher_selected,
        cipher_kinds: v.cipher_kinds,
        passphrase: v.passphrase,
        passphrase_confirm: v.passphrase_confirm,
        gpg_keys: v.gpg_keys,
        gpg_selected: v.gpg_selected,
        field,
        sub_field,
        status: v.status,
    }
}

/// `v` with other texts.
pub open spec fn with_texts(
    v: CreateView,
    name: Seq<char>,
    description: Seq<char>,
    passphrase: Seq<char>,
    passphrase_confirm: Seq<char>,
) -> CreateView {
    CreateView {
        name,
        description,
        cipher_selected: v.cipher_selected,
        cipher_kinds: v.cipher_kinds,
        passphrase,
        passphrase_confirm,
        gpg_keys: v.gpg_keys,
        gpg_selected: v.gpg_selected,
        field: v.field,
        sub_field: v.sub_field,
        status: v.status,
    }
}

/// `v` with other selections.
pub open spec fn with_selections(v: CreateView, cipher_selected: Option<usize>, gpg_selected: Option<usize>) -> CreateView {
    CreateView {
        name: v.name,
        description: v.description,
        cipher_selected,
        cipher_kinds: v.cipher_kinds,
        passphrase: v.passphrase,
        passphrase_confirm: v.passphrase_confirm,
        gpg_keys: v.gpg_keys,
        gpg_selected,
        field: v.field,
        sub_field: v.sub_field,
        status: v.status,
    }
}

/// `v` with another status.
pub open spec fn create_with_status(v: CreateView, status: StatusView) -> CreateView {
    CreateView {
        name: v.name,
        description: v.description,
        cipher_selected: v.cipher_selected,
        cipher_kinds: v.cipher_kinds,
        passphrase: v.passphrase,
        passphrase_confirm: v.passphrase_confirm,
        gpg_keys: v.gpg_keys,
        gpg_selected: v.gpg_selected,
        field: v.field,
        sub_field: v.sub_field,
        status,
    }
}

/// The field after the current one; the key field is visited only when the
/// kind asks for a key, and its part is chosen by the kind.
pub open spec fn next_field(v: CreateView) -> CreateView {
    match v.field {
        CreateField::Name => at_field(v, CreateField::Description, v.sub_field),
        CreateField::Description => at_field(v, CreateField::CipherKind, v.sub_field),
        CreateField::CipherKind => if needs_key(v) {
            at_field(
                v,
                CreateField::Key,
                if selected_kind(v) == CipherKind::GPG {
                    KeySubField::Gpg
                } else {
                    KeySubField::Passphrase
                },
            )
        } else {
            at_field(v, CreateField::Name, v.sub_field)
        },
        CreateField::Key => at_field(v, CreateField::Name, v.sub_field),
    }
}

/// The field before the current one.
pub open spec fn previous_field(v: CreateView) -> CreateView {
    match v.field {
        CreateField::Name => if needs_key(v) {
            at_field(v, CreateField::Key, v.sub_field)
        } else {
            at_field(v, CreateField::CipherKind, v.sub_field)
        },
        CreateField::Description => at_field(v, CreateField::Name, v.sub_field),
        CreateField::CipherKind => at_field(v, CreateField::Description, v.sub_field),
        CreateField::Key => at_field(v, CreateField::CipherKind, v.sub_field),
    }
}

/// `v` with the kind selection moved by `delta`: choosing GPG selects the GPG
/// key part, any other kind clears both passphrases.
pub open spec fn cipher_moved(v: CreateView, delta: int) -> CreateView {
    if v.cipher_kinds.len() == 0 {
        v
    } else {
        let w = with_selections(v, Some(stepped(v.cipher_selected, delta, v.cipher_kinds.len() as int) as usize), v.gpg_selected);
        if selected_kind(w) == CipherKind::GPG {
            at_field(w, w.field, KeySubField::Gpg)
        } else {
            at_field(with_texts(w, w.name, w.description, Seq::empty(), Seq::empty()), w.field, KeySubField::Passphrase)
        }
    }
}

/// `v` with the GPG key selection moved by `delta`.
pub open spec fn gpg_moved(v: CreateView, delta: int) -> CreateView {
    if v.gpg_keys.len() == 0 {
        v
    } else {
        with_selections(v, v.cipher_selected, Some(stepped(v.gpg_selected, delta, v.gpg_keys.len() as int) as usize))
    }
}

/// The message that refuses a profile name, if any.
pub open spec fn name_error(name: Seq<char>) -> Option<Seq<char>> {
    if trim(name).len() == 0 {
        Some("Name cannot be empty"@)
    } else if trim(name).contains(' ') {
        Some("Profile name cannot contain spaces"@)
    } else {
        None
    }
}

/// The message that refuses the form, if any.
pub open spec fn create_error(v: CreateView) -> Option<Seq<char>> {
    if name_error(v.name) is Some {
        name_error(v.name)
    } else if selected_kind(v) == CipherKind::PASSPHRASE || selected_kind(v) == CipherKind::AGE {
        if encode_utf8(v.passphrase).len() < 8 {
            Some("Passphrase must be at least 8 characters"@)
        } else if v.passphrase != v.passphrase_confirm {
            Some("Passphrases do not match"@)
        } else {
            None
        }
    } else if selected_kind(v) == CipherKind::GPG {
        if v.gpg_keys.len() == 0 {
            Some("Please select a GPG key"@)
        } else {
            None
        }
    } else {
        None
    }
}

/// The key handed on with a valid form: the passphrase, or the fingerprint of
/// the chosen GPG key, or none.
pub open spec fn create_key(v: CreateView) -> Option<Seq<char>> {
    if selected_kind(v) == CipherKind::PASSPHRASE || selected_kind(v) == CipherKind::AGE {
        Some(v.passphrase)
    } else if selected_kind(v) == CipherKind::GPG {
        Some(v.gpg_keys[match v.gpg_selected {
            Some(i) => i as int,
            None => 0,
        }].1)
    } else {
        None
    }
}

/// The form after a save is asked for: refused with a message, or under way.
pub open spec fn create_saved(v: CreateView) -> CreateView {
    match create_error(v) {
        Some(m) => create_with_status(v, StatusView::Error(m)),
        None => create_with_status(v, StatusView::Saving),
    }
}

/// `r` asks to create the profile that the valid form `v` describes.
pub open spec fn creates(v: CreateView, r: Action) -> bool {
    &&& create_error(v) is None
    &&& r matches Action::CreateProfile { name, description, cipher_kind, key }
    &&& name@ == trim(v.name)
    &&& description matches Some(d) && d@ == trim(v.description)
    &&& cipher_kind == selected_kind(v)
    &&& (match key {
        Some(k) => create_key(v) == Some(k@),
        None => create_key(v) is None,
    })
}

/// The answer to a request to save: a creation, or nothing when refused.
pub open spec fn save_answer(v: CreateView, r: Action) -> bool {
    if create_error(v) is None {
        creates(v, r)
    } else {
        r is Nothing
    }
}

/// The key is Control and `s`.
pub open spec fn is_save_key(k: KeyPress) -> bool {
    k.ctrl && k.code == KeyCode::Char('s')
}

/// The form after a key press in the cipher kind field.
pub open spec fn after_key_in_kind(v: CreateView, k: KeyPress) -> CreateView {
    match k.code {
        KeyCode::Up => cipher_moved(v, -1),
        KeyCode::Down => cipher_moved(v, 1),
        KeyCode::Char(c) => if c == 'k' {
            cipher_moved(v, -1)
        } else if c == 'j' {
            cipher_moved(v, 1)
        } else {
            v
        },
        KeyCode::Tab => next_field(v),
        KeyCode::Enter => next_field(v),
        KeyCode::BackTab => previous_field(v),
        _ => v,
    }
}

/// The form after a key press in the key field, with a GPG key to choose.
pub open spec fn after_key_in_gpg(v: CreateView, k: KeyPress) -> CreateView {
    match k.code {
        KeyCode::Up => gpg_moved(v, -1),
        KeyCode::Down => gpg_moved(v, 1),
        KeyCode::Char(c) => if c == 'k' {
            gpg_moved(v, -1)
        } else if c == 'j' {
            gpg_moved(v, 1)
        } else {
            v
        },
        KeyCode::Tab => next_field(v),
        KeyCode::Enter => next_field(v),
        KeyCode::BackTab => previous_field(v),
        _ => v,
    }
}

/// The form after Tab or Enter in the passphrase field.
pub open spec fn passphrase_forward(v: CreateView) -> CreateView {
    match v.sub_field {
        KeySubField::Passphrase => if v.passphrase.len() > 0 {
            at_field(v, v.field, KeySubField::PassphraseConfirm)
        } else {
            v
        },
        KeySubField::PassphraseConfirm => next_field(v),
        KeySubField::Gpg => v,
    }
}

/// The form after Shift-Tab in the passphrase field.
pub open spec fn passphrase_back(v: CreateView) -> CreateView {
    match v.sub_field {
        KeySubField::PassphraseConfirm => at_field(v, v.field, KeySubField::Passphrase),
        KeySubField::Passphrase => previous_field(v),
        KeySubField::Gpg => v,
    }
}

/// The form after a key press in the passphrase field.
pub open spec fn after_key_in_passphrase(v: CreateView, k: KeyPress) -> CreateView {
    match k.code {
        KeyCode::Tab => passphrase_forward(v),
        KeyCode::Enter => passphrase_forward(v),
        KeyCode::BackTab => passphrase_back(v),
        KeyCode::Char(c) => if is_save_key(k) {
            create_saved(v)
        } else {
            match v.sub_field {
                KeySubField::Passphrase => with_texts(v, v.name, v.description, v.passphrase.push(c), v.passphrase_confirm),
                KeySubField::PassphraseConfirm => with_texts(v, v.name, v.description, v.passphrase, v.passphrase_confirm.push(c)),
                KeySubField::Gpg => v,
            }
        },
        KeyCode::Backspace => match v.sub_field {
            KeySubField::Passphrase => with_texts(v, v.name, v.description, without_last(v.passphrase), v.passphrase_confirm),
            KeySubField::PassphraseConfirm => with_texts(v, v.name, v.description, v.passphrase, without_last(v.passphrase_confirm)),
            KeySubField::Gpg => v,
        },
        _ => v,
    }
}

/// The form after a key press in the name or description field; a space is
/// never typed into the name.
pub open spec fn after_key_in_text(v: CreateView, k: KeyPress) -> CreateView {
    match k.code {
        KeyCode::Tab => next_field(v),
        KeyCode::Enter => next_field(v),
        KeyCode::BackTab => previous_field(v),
        KeyCode::Char(c) => if is_save_key(k) {
            create_saved(v)
        } else if v.field == CreateField::Name {
            if c != ' ' {
                with_texts(v, v.name.push(c), v.description, v.passphrase, v.passphrase_confirm)
            } else {
                v
            }
        } else {
            with_texts(v, v.name, v.description.push(c), v.passphrase, v.passphrase_confirm)
        },
        KeyCode::Backspace => if v.field == CreateField::Name {
            with_texts(v, without_last(v.name), v.description, v.passphrase, v.passphrase_confirm)
        } else {
            with_texts(v, v.name, without_last(v.description), v.passphrase, v.passphrase_confirm)
        },
        _ => v,
    }
}

/// The form after the key press `k` on `v0`.
pub open spec fn create_after_key(v0: CreateView, k: KeyPress) -> CreateView {
    let v = create_with_status(v0, status_after_key(v0.status));
    match v.field {
        CreateField::CipherKind => after_key_in_kind(v, k),
        CreateField::Key => if selected_kind(v) == CipherKind::GPG {
            after_key_in_gpg(v, k)
        } else if selected_kind(v) == CipherKind::PASSPHRASE {
            after_key_in_passphrase(v, k)
        } else {
            v
        },
        _ => after_key_in_text(v, k),
    }
}

/// The key press `k` on `v` asks for a save.
pub open spec fn create_asks_save(v: CreateView, k: KeyPress) -> bool {
    &&& is_save_key(k)
    &&& (v.field == CreateField::Name || v.field == CreateField::Description
        || (v.field == CreateField::Key && selected_kind(v) == CipherKind::PASSPHRASE))
}

/// The key press `k` on `v` leaves the form.
pub open spec fn create_asks_back(v: CreateView, k: KeyPress) -> bool {
    &&& k.code == KeyCode::Esc
    &&& (v.field != CreateField::Key || selected_kind(v) == CipherKind::GPG
        || selected_kind(v) == CipherKind::PASSPHRASE)
}

impl CreateProfileScreen {
    /// An empty form offering every cipher kind, the first selected, and the
    /// GPG keys `gpg_keys`, the first selected.
    pub fn new(gpg_keys: Vec<(String, String)>) -> (r: CreateProfileScreen)
        ensures
            r@.name == Seq::<char>::empty(),
            r@.description == Seq::<char>::empty(),
            r@.cipher_selected == Some(0usize),
            r@.cipher_kinds == all_kinds(),
            r@.passphrase == Seq::<char>::empty(),
            r@.passphrase_confirm == Seq::<char>::empty(),
            r@.gpg_keys == pair_views(gpg_keys@),
            r@.gpg_selected == (if gpg_keys@.len() > 0 { Some(0usize) } else { None }),
            r@.field == CreateField::Name,
            r@.sub_field == KeySubField::Passphrase,
            r@.status == StatusView::Idle,
            create_wf(r@),
    {
        let cipher_kinds = CipherKind::all();
        let cipher_selected = if cipher_kinds.len() > 0 { Some(0) } else { None };
        let gpg_selected = if gpg_keys.len() > 0 { Some(0) } else { None };
        CreateProfileScreen {
            name: String::new(),
            description: String::new(),
            cipher_selected,
            cipher_kinds,
            passphrase: String::new(),
            passphrase_confirm: String::new(),
            gpg_keys,
            gpg_selected,
            current_field: CreateField::Name,
            key_sub_field: KeySubField::Passphrase,
            status: Status::Idle,
        }
    }

    /// The name typed.
    pub fn name(&self) -> (r: &str)
        ensures
            r@ == self@.name,
    {
        self.name.as_str()
    }

    /// The description typed.
    pub fn description(&self) -> (r: &str)
        ensures
            r@ == self@.description,
    {
        self.description.as_str()
    }

    /// The cipher kinds offered.
    pub fn cipher_kinds(&self) -> (r: &Vec<CipherKind>)
        ensures
            r@ == self@.cipher_kinds,
    {
        &self.cipher_kinds
    }

    /// The selected cipher kind row, if any.
    pub fn cipher_selected(&self) -> (r: Option<usize>)
        ensures
            r == self@.cipher_selected,
    {
        self.cipher_selected
    }

    /// The number of characters of the passphrase and of its confirmation.
    pub fn passphrase_lengths(&self) -> (r: (usize, usize))
        ensures
            r.0 == self@.passphrase.len(),
            r.1 == self@.passphrase_confirm.len(),
    {
        (self.passphrase.unicode_len(), self.passphrase_confirm.unicode_len())
    }

    /// The GPG keys offered.
    pub fn gpg_keys(&self) -> (r: &Vec<(String, String)>)
        ensures
            pair_views(r@) == self@.gpg_keys,
    {
        &self.gpg_keys
    }

    /// The selected GPG key row, if any.
    pub fn gpg_selected(&self) -> (r: Option<usize>)
        ensures
            r == self@.gpg_selected,
    {
        self.gpg_selected
    }

    /// The field being filled in.
    pub fn current_field(&self) -> (r: CreateField)
        ensures
            r == self@.field,
    {
        self.current_field
    }

    /// The part of the key field being filled in.
    pub fn key_sub_field(&self) -> (r: KeySubField)
        ensures
            r == self@.sub_field,
    {
        self.key_sub_field
    }

    /// The state of the last save.
    pub fn status(&self) -> (r: &Status)
        ensures
            r@ == self@.status,
    {
        &self.status
    }

    /// The cipher kind chosen.
    pub fn get_selected_cipher_kind(&self) -> (r: CipherKind)
        requires
            create_wf(self@),
        ensures
            r == selected_kind(self@),
    {
        match self.cipher_selected {
            Some(i) => self.cipher_kinds[i],
            None => self.cipher_kinds[0],
        }
    }

    /// Whether the chosen kind asks for a key.
    pub fn needs_key_input(&self) -> (r: bool)
        requires
            create_wf(self@),
        ensures
            r == needs_key(self@),
    {
        let k = self.get_selected_cipher_kind();
        k == CipherKind::PASSPHRASE || k == CipherKind::GPG
    }

    /// The fingerprint of the chosen GPG key, if there are keys.
    pub fn get_selected_gpg_key(&self) -> (r: Option<String>)
        requires
            create_wf(self@),
        ensures
            self@.gpg_keys.len() == 0 ==> r is None,
            self@.gpg_keys.len() > 0 ==> (r matches Some(k) && k@ == self@.gpg_keys[match self@.gpg_selected {
                Some(i) => i as int,
                None => 0,
            }].1),
    {
        if self.gpg_keys.len() == 0 {
            return None;
        }
        let i = match self.gpg_selected {
            Some(i) => i,
            None => 0,
        };
        Some(self.gpg_keys[i].1.clone())
    }

    /// Goes to the next field.
    pub fn move_to_next_field(&mut self)
        requires
            create_wf(old(self)@),
        ensures
            final(self)@ == next_field(old(self)@),
    {
        match self.current_field {
            CreateField::Name => self.current_field = CreateField::Description,
            CreateField::Description => self.current_field = CreateField::CipherKind,
            CreateField::CipherKind => {
                if self.needs_key_input() {
                    self.key_sub_field = if self.get_selected_cipher_kind() == CipherKind::GPG {
                        KeySubField::Gpg
                    } else {
                        KeySubField::Passphrase
                    };
                    self.current_field = CreateField::Key;
                } else {
                    self.current_field = CreateField::Name;
                }
            },
            CreateField::Key => self.current_field = CreateField::Name,
        }
    }

    /// Goes to the previous field.
    pub fn move_to_previous_field(&mut self)
        requires
            create_wf(old(self)@),
        ensures
            final(self)@ == previous_field(old(self)@),
    {
        match self.current_field {
            CreateField::Name => {
                if self.needs_key_input() {
                    self.current_field = CreateField::Key;
                } else {
                    self.current_field = CreateField::CipherKind;
                }
            },
            CreateField::Description => self.current_field = CreateField::Name,
            CreateField::CipherKind => self.current_field = CreateField::Description,
            CreateField::Key => self.current_field = CreateField::CipherKind,
        }
    }

    /// Moves the cipher kind selection by `delta`.
    pub fn move_cipher_selection(&mut self, delta: i32)
        requires
            create_wf(old(self)@),
        ensures
            final(self)@ == cipher_moved(old(self)@, delta as int),
            create_wf(final(self)@),
    {
        if self.cipher_kinds.len() == 0 {
            return;
        }
        let new = step_selection(self.cipher_selected, delta, self.cipher_kinds.len());
        self.cipher_selected = Some(new);
        if self.get_selected_cipher_kind() == CipherKind::GPG {
            self.key_sub_field = KeySubField::Gpg;
        } else {
            self.passphrase = String::new();
            self.passphrase_confirm = String::new();
            self.key_sub_field = KeySubField::Passphrase;
        }
    }

    /// Moves the GPG key selection by `delta`.
    pub fn move_gpg_selection(&mut self, delta: i32)
        requires
            create_wf(old(self)@),
        ensures
            final(self)@ == gpg_moved(old(self)@, delta as int),
            create_wf(final(self)@),
    {
        if self.gpg_keys.len() == 0 {
            return;
        }
        let new = step_selection(self.gpg_selected, delta, self.gpg_keys.len());
        self.gpg_selected = Some(new);
    }

    /// Checks the form; when it is valid, marks the save as under way and
    /// asks for the profile to be created, else shows why it is refused.
    pub fn save(&mut self) -> (r: Action)
        requires
            create_wf(old(self)@),
        ensures
            final(self)@ == create_saved(old(self)@),
            save_answer(old(self)@, r),
    {
        proof {
            reveal_strlit("Name cannot be empty");
            reveal_strlit("Profile name cannot contain spaces");
            reveal_strlit("Passphrase must be at least 8 characters");
            reveal_strlit("Passphrases do not match");
            reveal_strlit("Please select a GPG key");
        }
        let name = trim_str(self.name.as_str());
        if name.is_empty() {
            self.status = Status::Error("Name cannot be empty".to_owned());
            return Action::Nothing;
        }
        if str_contains_char(name, ' ') {
            self.status = Status::Error("Profile name cannot contain spaces".to_owned());
            return Action::Nothing;
        }
        let kind = self.get_selected_cipher_kind();
        let key = if kind == CipherKind::PASSPHRASE || kind == CipherKind::AGE {
            if self.passphrase.as_str().as_bytes().len() < 8 {
                self.status = Status::Error("Passphrase must be at least 8 characters".to_owned());
                return Action::Nothing;
            }
            if !crate::text::str_eq(self.passphrase.as_str(), self.passphrase_confirm.as_str()) {
                self.status = Status::Error("Passphrases do not match".to_owned());
                return Action::Nothing;
            }
            Some(self.passphrase.clone())
        } else if kind == CipherKind::GPG {
            match self.get_selected_gpg_key() {
                Some(k) => Some(k),
                None => {
                    self.status = Status::Error("Please select a GPG key".to_owned());
                    return Action::Nothing;
                },
            }
        } else {
            None
        };
        self.status = Status::Saving;
        Action::CreateProfile {
            name: name.to_owned(),
            description: Some(trim_str(self.description.as_str()).to_owned()),
            cipher_kind: kind,
            key,
        }
    }

    /// Records how the save under way ended (`None`: it has not ended).
    pub fn check_save(&mut self, outcome: Option<Result<(), String>>)
        ensures
            final(self)@ == create_with_status(old(self)@, status_after_save(old(self)@.status, outcome)),
    {
        self.status = self.status.after_save(outcome);
    }

    /// Handles a key press: moves between fields and choices, types, saves or
    /// leaves.
    pub fn handle_key_event(&mut self, key: KeyPress) -> (r: Action)
        requires
            create_wf(old(self)@),
        ensures
            final(self)@ == create_after_key(old(self)@, key),
            create_wf(final(self)@),
            create_asks_back(old(self)@, key) ==> r is Back,
            create_asks_save(old(self)@, key) ==> save_answer(
                create_with_status(old(self)@, status_after_key(old(self)@.status)),
                r,
            ),
            !create_asks_back(old(self)@, key) && !create_asks_save(old(self)@, key) ==> r is Nothing,
    {
        self.status = self.status.after_key();
        match self.current_field {
            CreateField::CipherKind => {
                match key.code {
                    KeyCode::Up => self.move_cipher_selection(-1),
                    KeyCode::Down => self.move_cipher_selection(1),
                    KeyCode::Char(c) => {
                        if c == 'k' {
                            self.move_cipher_selection(-1);
                        } else if c == 'j' {
                            self.move_cipher_selection(1);
                        }
                    },
                    KeyCode::Tab | KeyCode::Enter => self.move_to_next_field(),
                    KeyCode::BackTab => self.move_to_previous_field(),
                    KeyCode::Esc => return Action::Back,
                    _ => {},
                }
                Action::Nothing
            },
            CreateField::Key => {
                let kind = self.get_selected_cipher_kind();
                if kind == CipherKind::GPG {
                    match key.code {
                        KeyCode::Up => self.move_gpg_selection(-1),
                        KeyCode::Down => self.move_gpg_selection(1),
                        KeyCode::Char(c) => {
                            if c == 'k' {
                                self.move_gpg_selection(-1);
                            } else if c == 'j' {
                                self.move_gpg_selection(1);
                            }
                        },
                        KeyCode::Tab | KeyCode::Enter => self.move_to_next_field(),
                        KeyCode::BackTab => self.move_to_previous_field(),
                        KeyCode::Esc => return Action::Back,
                        _ => {},
                    }
                    Action::Nothing
                } else if kind == CipherKind::PASSPHRASE {
                    match key.code {
                        KeyCode::Tab | KeyCode::Enter => {
                            match self.key_sub_field {
                                KeySubField::Passphrase => {
                                    if !self.passphrase.as_str().is_empty() {
                                        self.key_sub_field = KeySubField::PassphraseConfirm;
                                    }
                                },
                                KeySubField::PassphraseConfirm => self.move_to_next_field(),
                                KeySubField::Gpg => {},
                            }
                            Action::Nothing
                        },
                        KeyCode::BackTab => {
                            match self.key_sub_field {
                                KeySubField::PassphraseConfirm => self.key_sub_field = KeySubField::Passphrase,
                                KeySubField::Passphrase => self.move_to_previous_field(),
                                KeySubField::Gpg => {},
                            }
                            Action::Nothing
                        },
                        KeyCode::Char(c) => {
                            if key.ctrl && c == 's' {
                                self.save()
                            } else {
                                match self.key_sub_field {
                                    KeySubField::Passphrase => push_char(&mut self.passphrase, c),
                                    KeySubField::PassphraseConfirm => push_char(&mut self.passphrase_confirm, c),
                                    KeySubField::Gpg => {},
                                }
                                Action::Nothing
                            }
                        },
                        KeyCode::Backspace => {
                            match self.key_sub_field {
                                KeySubField::Passphrase => {
                                    pop_char(&mut self.passphrase);
                                },
                                KeySubField::PassphraseConfirm => {
                                    pop_char(&mut self.passphrase_confirm);
                                },
                                KeySubField::Gpg => {},
                            }
                            Action::Nothing
                        },
                        KeyCode::Esc => Action::Back,
                        _ => Action::Nothing,
                    }
                } else {
                    Action::Nothing
                }
            },
            _ => {
                match key.code {
                    KeyCode::Tab | KeyCode::Enter => {
                        self.move_to_next_field();
                        Action::Nothing
                    },
                    KeyCode::BackTab => {
                        self.move_to_previous_field();
                        Action::Nothing
                    },
                    KeyCode::Char(c) => {
                        if key.ctrl && c == 's' {
                            self.save()
                        } else {
                            if self.current_field == CreateField::Name {
                                if c != ' ' {
                                    push_char(&mut self.name, c);
                                }
                            } else {
                                push_char(&mut self.description, c);
                            }
                            Action::Nothing
                        }
                    },
                    KeyCode::Backspace => {
                        if self.current_field == CreateField::Name {
                            pop_char(&mut self.name);
                        } else {
                            pop_char(&mut self.description);
                        }
                        Action::Nothing
                    },
                    KeyCode::Esc => Action::Back,
                    _ => Action::Nothing,
                }
            },
        }
    }
}

// ---------------------------------------------------------------------------
// The form that edits a profile's name and description.
// ---------------------------------------------------------------------------

/// The fields of the form that edits a profile.
#[derive(Clone, Copy, Debug, PartialEq, Eq, Structural)]
pub enum EditField {
    Name,
    Description,
}

/// The mathematical value of an [`EditProfileScreen`].
pub struct EditProfileView {
    pub profile_name: Seq<char>,
    pub name: Seq<char>,
    pub description: Seq<char>,
    pub field: EditField,
    pub status: StatusView,
}

/// The form that renames a profile and changes its description.
pub struct EditProfileScreen {
    profile_name: String,
    name: String,
    description: String,
    current_field: EditField,
    status: Status,
}

impl View for EditProfileScreen {
    type V = EditProfileView;

    closed spec fn view(&self) -> EditProfileView {
        EditProfileView {
            profile_name: self.profile_name@,
            name: self.name@,
            description: self.description@,
            field: self.current_field,
            status: self.status@,
        }
    }
}

/// `v` with other texts, field and status.
pub open spec fn edit_form(v: EditProfileView, name: Seq<char>, description: Seq<char>, field: EditField, status: StatusView) -> EditProfileView {
    EditProfileView { profile_name: v.profile_name, name, description, field, status }
}

/// The other field.
pub open spec fn other_field(f: EditField) -> EditField {
    match f {
        EditField::Name => EditField::Description,
        EditField::Description => EditField::Name,
    }
}

/// The description handed on: the trimmed text, or none when it is empty.
pub open spec fn trimmed_description(d: Seq<char>) -> Option<Seq<char>> {
    if trim(d).len() == 0 {
        None
    } else {
        Some(trim(d))
    }
}

/// The form after a save is asked for.
pub open spec fn edit_form_saved(v: EditProfileView) -> EditProfileView {
    match name_error(v.name) {
        Some(m) => edit_form(v, v.name, v.description, v.field, StatusView::Error(m)),
        None => v,
    }
}

/// The answer to a request to save the edit form.
pub open spec fn edit_save_answer(v: EditProfileView, r: Action) -> bool {
    match name_error(v.name) {
        Some(_) => r is Nothing,
        None => r matches Action::UpdateProfile { old_name, name, description }
            && old_name@ == v.profile_name && name@ == trim(v.name) && (match description {
                Some(d) => trimmed_description(v.description) == Some(d@),
                None => trimmed_description(v.description) is None,
            }),
    }
}

/// The edit form after the key press `k` on `v0`.
pub open spec fn edit_form_after_key(v0: EditProfileView, k: KeyPress) -> EditProfileView {
    let v = edit_form(v0, v0.name, v0.description, v0.field, status_after_key(v0.status));
    match k.code {
        KeyCode::Tab => edit_form(v, v.name, v.description, other_field(v.field), v.status),
        KeyCode::Enter => edit_form(v, v.name, v.description, other_field(v.field), v.status),
        KeyCode::BackTab => edit_form(v, v.name, v.description, other_field(v.field), v.status),
        KeyCode::Char(c) => if is_save_key(k) {
            edit_form_saved(v)
        } else if v.field == EditField::Name {
            if c != ' ' {
                edit_form(v, v.name.push(c), v.description, v.field, v.status)
            } else {
                v
            }
        } else {
            edit_form(v, v.name, v.description.push(c), v.field, v.status)
        },
        KeyCode::Backspace => if v.field == EditField::Name {
            edit_form(v, without_last(v.name), v.description, v.field, v.status)
        } else {
            edit_form(v, v.name, without_last(v.description), v.field, v.status)
        },
        _ => v,
    }
}

impl EditProfileScreen {
    /// A form on the profile `profile_name`, filled from its metadata.
    pub fn new(profile_name: String, metadata: &ProfileMetadata) -> (r: EditProfileScreen)
        ensures
            r@.profile_name == profile_name@,
            r@.name == metadata.name@,
            r@.description == (match metadata.description {
                Some(d) => d@,
                None => Seq::<char>::empty(),
            }),
            r@.field == EditField::Name,
            r@.status == StatusView::Idle,
    {
        let description = match &metadata.description {
            Some(d) => d.clone(),
            None => String::new(),
        };
        EditProfileScreen {
            profile_name,
            name: metadata.name.clone(),
            description,
            current_field: EditField::Name,
            status: Status::Idle,
        }
    }

    /// The name typed.
    pub fn name(&self) -> (r: &str)
        ensures
            r@ == self@.name,
    {
        self.name.as_str()
    }

    /// The description typed.
    pub fn description(&self) -> (r: &str)
        ensures
            r@ == self@.description,
    {
        self.description.as_str()
    }

    /// The field being filled in.
    pub fn current_field(&self) -> (r: EditField)
        ensures
            r == self@.field,
    {
        self.current_field
    }

    /// The state of the last save.
    pub fn status(&self) -> (r: &Status)
        ensures
            r@ == self@.status,
    {
        &self.status
    }

    /// Goes to the next field.
    pub fn move_to_next_field(&mut self)
        ensures
            final(self)@ == edit_form(old(self)@, old(self)@.name, old(self)@.description,
                other_field(old(self)@.field), old(self)@.status),
    {
        self.current_field = match self.current_field {
            EditField::Name => EditField::Description,
            EditField::Description => EditField::Name,
        };
    }

    /// Goes to the previous field.
    pub fn move_to_previous_field(&mut self)
        ensures
            final(self)@ == edit_form(old(self)@, old(self)@.name, old(self)@.description,
                other_field(old(self)@.field), old(self)@.status),
    {
        self.current_field = match self.current_field {
            EditField::Name => EditField::Description,
            EditField::Description => EditField::Name,
        };
    }

    /// Checks the name; when it is valid, asks for the profile to be renamed
    /// and described anew, else shows why it is refused.
    pub fn save(&mut self) -> (r: Action)
        ensures
            final(self)@ == edit_form_saved(old(self)@),
            edit_save_answer(old(self)@, r),
    {
        proof {
            reveal_strlit("Name cannot be empty");
            reveal_strlit("Profile name cannot contain spaces");
        }
        let name = trim_str(self.name.as_str());
        if name.is_empty() {
            self.status = Status::Error("Name cannot be empty".to_owned());
            return Action::Nothing;
        }
        if str_contains_char(name, ' ') {
            self.status = Status::Error("Profile name cannot contain spaces".to_owned());
            return Action::Nothing;
        }
        let description = trim_str(self.description.as_str());
        let description = if description.is_empty() {
            None
        } else {
            Some(description.to_owned())
        };
        Action::UpdateProfile { old_name: self.profile_name.clone(), name: name.to_owned(), description }
    }

    /// Records that the profile was saved.
    pub fn mark_saved(&mut self)
        ensures
            final(self)@ == edit_form(old(self)@, old(self)@.name, old(self)@.description,
                old(self)@.field, StatusView::Saved),
    {
        self.status = Status::Saved;
    }

    /// Handles a key press: moves between the fields, types, saves or leaves.
    pub fn handle_key_event(&mut self, key: KeyPress) -> (r: Action)
        ensures
            final(self)@ == edit_form_after_key(old(self)@, key),
            key.code == KeyCode::Esc ==> r is Back,
            is_save_key(key) ==> edit_save_answer(old(self)@, r),
            key.code != KeyCode::Esc && !is_save_key(key) ==> r is Nothing,
    {
        self.status = self.status.after_key();
        match key.code {
            KeyCode::Tab | KeyCode::Enter => {
                self.move_to_next_field();
                Action::Nothing
            },
            KeyCode::BackTab => {
                self.move_to_previous_field();
                Action::Nothing
            },
            KeyCode::Char(c) => {
                if key.ctrl && c == 's' {
                    self.save()
                } else {
                    match self.current_field {
                        EditField::Name => {
                            if c != ' ' {
                                push_char(&mut self.name, c);
                            }
                        },
                        EditField::Description => push_char(&mut self.description, c),
                    }
                    Action::Nothing
                }
            },
            KeyCode::Backspace => {
                match self.current_field {
                    EditField::Name => {
                        pop_char(&mut self.name);
                    },
                    EditField::Description => {
                        pop_char(&mut self.description);
                    },
                }
                Action::Nothing
            },
            KeyCode::Esc => Action::Back,
            _ => Action::Nothing,
        }
    }
}

} // verus!
