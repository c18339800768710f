//! The decisions of the terminal interface between screens: where each
//! request of a screen leads.

use vstd::prelude::*;

use crate::cipher::CipherKind;
use crate::tui::input::Action;
use crate::tui::navigation::{NavigationStack, ScreenId, MAX_DEPTH};

verus! {

/// The history after going to `id`.
pub open spec fn pushed(s: Seq<ScreenId>, id: ScreenId) -> Seq<ScreenId> {
    if s.len() < MAX_DEPTH {
        s.push(id)
    } else {
        s.drop_first().push(id)
    }
}

/// The history after going back.
pub open spec fn popped(s: Seq<ScreenId>) -> Seq<ScreenId> {
    if s.len() > 1 {
        s.drop_last()
    } else {
        s
    }
}

/// The history of screens and whether the interface is to be left.
pub struct TuiApp {
    navigation: NavigationStack,
    exit: bool,
}

impl TuiApp {
    /// The screens of the history, oldest first.
    pub closed spec fn spec_stack(&self) -> Seq<ScreenId> {
        self.navigation.spec_stack()
    }

    /// The screen shown over the top one, if any.
    pub closed spec fn spec_overlay(&self) -> Option<ScreenId> {
        self.navigation.spec_overlay()
    }

    /// Whether the interface is to be left.
    pub closed spec fn spec_exit(&self) -> bool {
        self.exit
    }

    /// An interface showing the list of profiles.
    pub fn new() -> (r: TuiApp)
        ensures
            r.spec_stack() == seq![ScreenId::Select],
            r.spec_overlay() is None,
            !r.spec_exit(),
    {
        TuiApp { navigation: NavigationStack::new(ScreenId::Select), exit: false }
    }

    /// The history of screens.
    pub fn navigation(&self) -> (r: &NavigationStack)
        ensures
            r.spec_stack() == self.spec_stack(),
            r.spec_overlay() == self.spec_overlay(),
            r.wf(),
    {
        proof {
            use_type_invariant(&self.navigation);
            self.navigation.lemma_inv_wf();
        }
        &self.navigation
    }

    /// Whether the interface is to be left.
    pub fn exit(&self) -> (r: bool)
        ensures
            r == self.spec_exit(),
    {
        self.exit
    }

    /// Follows what a screen asked for: leaves, creates or edits a profile,
    /// or goes back; hands back what needs work outside (opening, saving,
    /// deleting or decrypting a profile).
    pub fn handle_action(&mut self, action: Action) -> (r: Option<Action>)
        ensures
            action is Exit ==> final(self).spec_exit() && final(self).spec_stack() == old(self).spec_stack()
                && final(self).spec_overlay() == old(self).spec_overlay() && r is None,
            action is NewProfile ==> final(self).spec_stack() == pushed(old(self).spec_stack(), ScreenId::CreateProfile)
                && final(self).spec_overlay() is None && final(self).spec_exit() == old(self).spec_exit() && r is None,
            action matches Action::EditProfile(n) ==> final(self).spec_stack() == pushed(
                old(self).spec_stack(),
                ScreenId::EditProfile(n),
            ) && final(self).spec_overlay() is None && final(self).spec_exit() == old(self).spec_exit() && r is None,
            action is Back ==> final(self).spec_stack() == popped(old(self).spec_stack())
                && final(self).spec_overlay() is None && final(self).spec_exit() == old(self).spec_exit() && r is None,
            action is Nothing ==> final(self).spec_stack() == old(self).spec_stack() && final(self).spec_overlay()
                == old(self).spec_overlay() && final(self).spec_exit() == old(self).spec_exit() && r is None,
            !(action is Exit || action is NewProfile || action is EditProfile || action is Back || action is Nothing)
                ==> final(self).spec_stack() == old(self).spec_stack() && final(self).spec_overlay()
                == old(self).spec_overlay() && final(self).spec_exit() == old(self).spec_exit() && r == Some(action),
    {
        match action {
            Action::Exit => {
                self.exit = true;
                None
            },
            Action::NewProfile => {
                let _ = self.navigation.push(ScreenId::CreateProfile);
                None
            },
            Action::EditProfile(name) => {
                let _ = self.navigation.push(ScreenId::EditProfile(name));
                None
            },
            Action::Back => {
                let _ = self.navigation.pop();
                None
            },
            Action::Nothing => None,
            other => Some(other),
        }
    }

    /// Opens the profile `name`, protected by `kind`: a passphrase-protected
    /// profile goes to the editing screen when it is cached and to the key
    /// screen, over the current one, when it is not. Answers whether the
    /// profile is to be read as it is, without a key.
    pub fn open_profile(&mut self, name: String, kind: CipherKind, cached: bool) -> (r: bool)
        ensures
            final(self).spec_exit() == old(self).spec_exit(),
            r == !(kind == CipherKind::PASSPHRASE || kind == CipherKind::AGE),
            r ==> final(self).spec_stack() == old(self).spec_stack() && final(self).spec_overlay() == old(self).spec_overlay(),
            !r && cached ==> final(self).spec_stack() == pushed(old(self).spec_stack(), ScreenId::Edit(name))
                && final(self).spec_overlay() is None,
            !r && !cached ==> final(self).spec_stack() == old(self).spec_stack() && final(self).spec_overlay()
                == Some(ScreenId::GetKey(name)),
    {
        if kind == CipherKind::PASSPHRASE || kind == CipherKind::AGE {
            if cached {
                let _ = self.navigation.push(ScreenId::Edit(name));
            } else {
                let _ = self.navigation.push_overlay(ScreenId::GetKey(name));
            }
            false
        } else {
            true
        }
    }

    /// Goes to the editing screen of the profile `name`, once it was read.
    pub fn profile_opened(&mut self, name: String)
        ensures
            final(self).spec_exit() == old(self).spec_exit(),
            final(self).spec_stack() == pushed(old(self).spec_stack(), ScreenId::Edit(name)),
            final(self).spec_overlay() is None,
    {
        let _ = self.navigation.push(ScreenId::Edit(name));
    }
}

} // verus!
