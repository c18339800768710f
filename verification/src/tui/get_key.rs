//! The screen that asks for the key of an encrypted profile.

use vstd::prelude::*;

use crate::text::{pop_char, push_char, without_last};
use crate::tui::input::{Action, KeyCode, KeyPress};

verus! {

/// What the screen tells about the last attempt.
#[derive(Clone, Debug)]
pub enum Feedback {
    Decrypting,
    IncorrectKey,
    DecryptionFailed(String),
}

/// How an attempt to decrypt ended: the profile was read, the key was wrong
/// (or the profile could not be read), or the attempt stopped abnormally.
#[derive(Clone, Copy, Debug, PartialEq, Eq, Structural)]
pub enum DecryptOutcome {
    Decrypted,
    Failed,
    Panicked,
}

/// The mathematical value of a [`Feedback`].
pub enum FeedbackView {
    Decrypting,
    IncorrectKey,
    DecryptionFailed(Seq<char>),
}

/// The mathematical value of a [`GetKeyScreen`].
pub struct GetKeyView {
    pub profile_name: Seq<char>,
    pub key: Seq<char>,
    pub feedback: Option<FeedbackView>,
}

/// The name of the profile, the key typed so far, and the feedback shown.
pub struct GetKeyScreen {
    profile_name: String,
    key: String,
    feedback: Option<Feedback>,
}

/// The mathematical value of an optional feedback.
pub open spec fn feedback_view(f: Option<Feedback>) -> Option<FeedbackView> {
    match f {
        Some(Feedback::Decrypting) => Some(FeedbackView::Decrypting),
        Some(Feedback::IncorrectKey) => Some(FeedbackView::IncorrectKey),
        Some(Feedback::DecryptionFailed(m)) => Some(FeedbackView::DecryptionFailed(m@)),
        None => None,
    }
}

impl View for GetKeyScreen {
    type V = GetKeyView;

    closed spec fn view(&self) -> GetKeyView {
        GetKeyView { profile_name: self.profile_name@, key: self.key@, feedback: feedback_view(self.feedback) }
    }
}

/// The screen after the key press `k` on `v`.
pub open spec fn get_key_after(v: GetKeyView, k: KeyPress) -> GetKeyView {
    match k.code {
        KeyCode::Enter => GetKeyView { profile_name: v.profile_name, key: v.key, feedback: Some(FeedbackView::Decrypting) },
        KeyCode::Char(c) => GetKeyView { profile_name: v.profile_name, key: v.key.push(c), feedback: None },
        KeyCode::Backspace => GetKeyView { profile_name: v.profile_name, key: without_last(v.key), feedback: None },
        _ => v,
    }
}

/// The screen once an attempt has ended with `outcome`.
pub open spec fn get_key_after_attempt(v: GetKeyView, outcome: DecryptOutcome) -> GetKeyView {
    GetKeyView {
        profile_name: v.profile_name,
        key: v.key,
        feedback: match outcome {
            DecryptOutcome::Decrypted => None,
            DecryptOutcome::Failed => Some(FeedbackView::IncorrectKey),
            DecryptOutcome::Panicked => Some(FeedbackView::DecryptionFailed("Decryption thread panicked"@)),
        },
    }
}

impl GetKeyScreen {
    /// A screen asking for the key of `profile_name`, with nothing typed.
    pub fn new(profile_name: String) -> (r: GetKeyScreen)
        ensures
            r@ == (GetKeyView { profile_name: profile_name@, key: Seq::empty(), feedback: None }),
    {
        GetKeyScreen { profile_name, key: String::new(), feedback: None }
    }

    /// The name of the profile.
    pub fn profile_name(&self) -> (r: &str)
        ensures
            r@ == self@.profile_name,
    {
        self.profile_name.as_str()
    }

    /// The number of characters typed.
    pub fn key_len(&self) -> (r: usize)
        ensures
            r == self@.key.len(),
    {
        self.key.unicode_len()
    }

    /// The feedback shown, if any.
    pub fn feedback(&self) -> (r: &Option<Feedback>)
        ensures
            feedback_view(*r) == self@.feedback,
    {
        &self.feedback
    }

    /// Handles a key press: types, erases, asks for the profile to be
    /// decrypted with the key typed, or leaves.
    pub fn handle_key_event(&mut self, key: KeyPress) -> (r: Action)
        ensures
            final(self)@ == get_key_after(old(self)@, key),
            key.code == KeyCode::Enter ==> (r matches Action::Decrypt { name, passphrase: k } && name@ == old(self)@.profile_name
                && k@ == old(self)@.key),
            key.code == KeyCode::Esc ==> r is Back,
            key.code != KeyCode::Enter && key.code != KeyCode::Esc ==> r is Nothing,
    {
        match key.code {
            KeyCode::Enter => {
                self.feedback = Some(Feedback::Decrypting);
                Action::Decrypt { name: self.profile_name.clone(), passphrase: self.key.clone() }
            },
            KeyCode::Char(c) => {
                push_char(&mut self.key, c);
                self.feedback = None;
                Action::Nothing
            },
            KeyCode::Backspace => {
                pop_char(&mut self.key);
                self.feedback = None;
                Action::Nothing
            },
            KeyCode::Esc => Action::Back,
            _ => Action::Nothing,
        }
    }

    /// Records how the attempt to decrypt ended (`None`: it has not ended);
    /// answers whether the profile was decrypted.
    pub fn check_decrypt(&mut self, outcome: Option<DecryptOutcome>) -> (r: bool)
        ensures
            outcome is None ==> final(self)@ == old(self)@ && !r,
            outcome matches Some(o) ==> final(self)@ == get_key_after_attempt(old(self)@, o)
                && r == (o == DecryptOutcome::Decrypted),
    {
        match outcome {
            None => false,
            Some(DecryptOutcome::Decrypted) => {
                self.feedback = None;
                true
            },
            Some(DecryptOutcome::Failed) => {
                self.feedback = Some(Feedback::IncorrectKey);
                false
            },
            Some(DecryptOutcome::Panicked) => {
                proof {
                    reveal_strlit("Decryption thread panicked");
                }
                self.feedback = Some(Feedback::DecryptionFailed("Decryption thread panicked".to_owned()));
                false
            },
        }
    }
}

} // verus!
