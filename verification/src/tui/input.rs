use vstd::prelude::*;

use crate::cipher::CipherKind;

verus! {

/// A key of the keyboard, as the screens tell them apart.
#[derive(Clone, Copy, Debug, PartialEq, Eq, Structural)]
pub enum KeyCode {
    Char(char),
    Enter,
    Esc,
    Backspace,
    Left,
    Right,
    Up,
    Down,
    Tab,
    BackTab,
    Other,
}

/// A key press: the key, and whether Control was held.
#[derive(Clone, Copy, Debug, PartialEq, Eq, Structural)]
pub struct KeyPress {
    pub code: KeyCode,
    pub ctrl: bool,
}

impl KeyPress {
    /// A press of `code` without Control.
    pub fn plain(code: KeyCode) -> (r: KeyPress)
        ensures
            r == (KeyPress { code, ctrl: false }),
    {
        KeyPress { code, ctrl: false }
    }

    /// A press of `code` with Control held.
    pub fn with_ctrl(code: KeyCode) -> (r: KeyPress)
        ensures
            r == (KeyPress { code, ctrl: true }),
    {
        KeyPress { code, ctrl: true }
    }
}

/// What a screen asks of the application after a key press.
pub enum Action {
    /// Nothing.
    Nothing,
    /// Leave the interface.
    Exit,
    /// Open the profile of this name.
    OpenProfile(String),
    /// Show the form that creates a profile.
    NewProfile,
    /// Show the form that edits the profile of this name.
    EditProfile(String),
    /// Delete the profile of this name, then reload the list.
    DeleteProfile(String),
    /// Go back to the previous screen.
    Back,
    /// Store these variables in the profile being edited and save it.
    SaveEnvs(crate::env::EnvMap),
    /// Create a profile.
    CreateProfile {
        name: String,
        description: Option<String>,
        cipher_kind: CipherKind,
        key: Option<String>,
    },
    /// Decrypt the profile `name` with `passphrase`.
    Decrypt {
        name: String,
        passphrase: String,
    },
    /// Rename the profile `old_name` to `name` and give it `description`.
    UpdateProfile {
        old_name: String,
        name: String,
        description: Option<String>,
    },
}

/// The state of the last save of a screen.
#[derive(Clone, Debug)]
pub enum Status {
    Idle,
    Saving,
    Saved,
    Error(String),
}

/// The mathematical value of a [`Status`].
pub enum StatusView {
    Idle,
    Saving,
    Saved,
    Error(Seq<char>),
}

impl View for Status {
    type V = StatusView;

    open spec fn view(&self) -> StatusView {
        match self {
            Status::Idle => StatusView::Idle,
            Status::Saving => StatusView::Saving,
            Status::Saved => StatusView::Saved,
            Status::Error(m) => StatusView::Error(m@),
        }
    }
}

/// The status after a key press: a save under way stays so, any other
/// status is cleared.
pub open spec fn status_after_key(s: StatusView) -> StatusView {
    if s is Saving {
        StatusView::Saving
    } else {
        StatusView::Idle
    }
}

/// The status once a save has ended with `outcome` (`None`: no save ended).
pub open spec fn status_after_save(s: StatusView, outcome: Option<Result<(), String>>) -> StatusView {
    match outcome {
        None => s,
        Some(Ok(())) => StatusView::Saved,
        Some(Err(m)) => StatusView::Error(m@),
    }
}

impl Status {
    /// The status after a key press.
    pub fn after_key(&self) -> (r: Status)
        ensures
            r@ == status_after_key(self@),
    {
        match self {
            Status::Saving => Status::Saving,
            _ => Status::Idle,
        }
    }

    /// The status once a save has ended with `outcome`.
    pub fn after_save(&self, outcome: Option<Result<(), String>>) -> (r: Status)
        ensures
            r@ == status_after_save(self@, outcome),
    {
        match outcome {
            None => match self {
                Status::Idle => Status::Idle,
                Status::Saving => Status::Saving,
                Status::Saved => Status::Saved,
                Status::Error(m) => Status::Error(m.clone()),
            },
            Some(Ok(())) => Status::Saved,
            Some(Err(m)) => Status::Error(m),
        }
    }
}

/// The row a selection moves to in a list of `len` rows: `delta` rows away
/// from the selected one (the first when none is), kept inside the list.
pub open spec fn stepped(current: Option<usize>, delta: int, len: int) -> int {
    let c: int = match current {
        Some(i) => i as int,
        None => 0,
    };
    if c + delta < 0 {
        0
    } else if c + delta > len - 1 {
        len - 1
    } else {
        c + delta
    }
}

/// The row a selection moves to, as [`stepped`] gives it.
pub fn step_selection(current: Option<usize>, delta: i32, len: usize) -> (r: usize)
    requires
        len > 0,
    ensures
        r == stepped(current, delta as int, len as int),
        r < len,
        current matches Some(c) ==> (0 <= c + delta <= len - 1 ==> r == c + delta),
        current is None && 0 <= delta <= len - 1 ==> r == delta,
        current matches Some(c) ==> (c + delta < 0 ==> r == 0),
        current matches Some(c) ==> (c + delta > len - 1 ==> r == len - 1),
{
    let c: i128 = match current {
        Some(i) => i as i128,
        None => 0,
    };
    let t: i128 = c + delta as i128;
    let last: i128 = len as i128 - 1;
    if t < 0 {
        0
    } else if t > last {
        len - 1
    } else {
        t as usize
    }
}


/// What a text field shows: its text, or the placeholder while it is empty;
/// the flag says whether the placeholder is shown.
pub fn field_display(text: &str, placeholder: &str) -> (r: (String, bool))
    ensures
        r.1 == (text@.len() == 0),
        r.1 ==> r.0@ == placeholder@,
        !r.1 ==> r.0@ == text@,
{
    if text.unicode_len() == 0 {
        (placeholder.to_owned(), true)
    } else {
        (text.to_owned(), false)
    }
}

/// What a secret field shows: a `*` for each byte of the secret, or the
/// placeholder while it is empty; the flag says whether the placeholder is
/// shown.
pub fn secret_display(secret: &str, placeholder: &str) -> (r: (String, bool))
    ensures
        r.1 == (secret@.len() == 0),
        r.1 ==> r.0@ == placeholder@,
        !r.1 ==> r.0@ == Seq::new(vstd::utf8::encode_utf8(secret@).len(), |i: int| '*'),
{
    if secret.unicode_len() == 0 {
        return (placeholder.to_owned(), true);
    }
    let n = secret.as_bytes().len();
    assert(n == vstd::utf8::encode_utf8(secret@).len());
    let mut out = String::new();
    let mut i: usize = 0;
    while i < n
        invariant
            i <= n,
            n == vstd::utf8::encode_utf8(secret@).len(),
            out@ == Seq::new(i as nat, |j: int| '*'),
        decreases n - i,
    {
        crate::text::push_char(&mut out, '*');
        proof {
            assert(out@ =~= Seq::new((i + 1) as nat, |j: int| '*'));
        }
        i = i + 1;
    }
    (out, false)
}

/// The column of the cursor in a field that starts at column `x` and is
/// `width` wide, after a text of `len` bytes: just after the text, but no
/// further than the last column inside the border.
pub fn cursor_column(x: u16, width: u16, len: usize) -> (r: u16)
    requires
        2 <= width,
        x + width <= u16::MAX,
        x + 1 + len <= u16::MAX,
    ensures
        r == (if x + 1 + len <= x + width - 2 { x + 1 + len } else { x + width - 2 }),
{
    let after: u16 = x + 1 + (len as u16);
    let last: u16 = x + width - 2;
    if after <= last {
        after
    } else {
        last
    }
}


/// Moving a selection by `delta` rows lands exactly `delta` rows away from
/// the selected row (the first when none is) whenever that row is in the
/// list; otherwise it stops at the first or the last row. It always lands on
/// a row of the list.
pub proof fn law_step_moves_by_delta(current: Option<usize>, delta: int, len: int)
    requires
        len > 0,
    ensures
        0 <= stepped(current, delta, len) < len,
        current matches Some(c) ==> (0 <= c + delta <= len - 1 ==> stepped(current, delta, len) == c + delta),
        current is None && 0 <= delta <= len - 1 ==> stepped(current, delta, len) == delta,
        current matches Some(c) ==> (c + delta < 0 ==> stepped(current, delta, len) == 0),
        current matches Some(c) ==> (c + delta > len - 1 ==> stepped(current, delta, len) == len - 1),
{
}

/// Moving by one row and then back by one row returns to the same row when
/// neither move reaches past the ends of the list.
pub proof fn law_step_there_and_back(c: usize, delta: int, len: int)
    requires
        0 < len <= usize::MAX,
        c < len,
        0 <= c + delta < len,
    ensures
        stepped(Some(stepped(Some(c), delta, len) as usize), -delta, len) == c,
{
}

} // verus!
