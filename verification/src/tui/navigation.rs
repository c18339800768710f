use vstd::prelude::*;

use crate::error::Result;

verus! {

/// The screens of the terminal interface.
#[derive(Clone, Debug)]
pub enum ScreenId {
    Select,
    CreateProfile,
    EditProfile(String),
    GetKey(String),
    Edit(String),
}

/// The mathematical value of a [`ScreenId`].
pub enum ScreenKey {
    Select,
    CreateProfile,
    EditProfile(Seq<char>),
    GetKey(Seq<char>),
    Edit(Seq<char>),
}

impl View for ScreenId {
    type V = ScreenKey;

    open spec fn view(&self) -> ScreenKey {
        match self {
            ScreenId::Select => ScreenKey::Select,
            ScreenId::CreateProfile => ScreenKey::CreateProfile,
            ScreenId::EditProfile(n) => ScreenKey::EditProfile(n@),
            ScreenId::GetKey(n) => ScreenKey::GetKey(n@),
            ScreenId::Edit(n) => ScreenKey::Edit(n@),
        }
    }
}

impl ScreenId {
    /// Whether `self` and `other` are the same screen.
    pub fn same_as(&self, other: &ScreenId) -> (r: bool)
        ensures
            r == (self@ == other@),
    {
        match (self, other) {
            (ScreenId::Select, ScreenId::Select) => true,
            (ScreenId::CreateProfile, ScreenId::CreateProfile) => true,
            (ScreenId::EditProfile(a), ScreenId::EditProfile(b)) => crate::text::str_eq(a.as_str(), b.as_str()),
            (ScreenId::GetKey(a), ScreenId::GetKey(b)) => crate::text::str_eq(a.as_str(), b.as_str()),
            (ScreenId::Edit(a), ScreenId::Edit(b)) => crate::text::str_eq(a.as_str(), b.as_str()),
            _ => false,
        }
    }
}

/// The most screens the history keeps.
pub const MAX_DEPTH: usize = 50;

/// A step of navigation: going to a screen, showing one over the top screen,
/// or going back.
pub enum NavStep {
    Push(ScreenId),
    Overlay(ScreenId),
    Pop,
}

/// The history and overlay after `step`, from the history `stack` and the
/// overlay `overlay`.
pub open spec fn after_step(stack: Seq<ScreenId>, overlay: Option<ScreenId>, step: NavStep) -> (Seq<ScreenId>, Option<ScreenId>) {
    match step {
        NavStep::Push(id) => (
            if stack.len() < MAX_DEPTH { stack.push(id) } else { stack.drop_first().push(id) },
            None,
        ),
        NavStep::Overlay(id) => (stack, Some(id)),
        NavStep::Pop => (if stack.len() > 1 { stack.drop_last() } else { stack }, None),
    }
}

/// The history and overlay after `steps`, from a history holding only
/// `initial`.
pub open spec fn after_steps(initial: ScreenId, steps: Seq<NavStep>) -> (Seq<ScreenId>, Option<ScreenId>)
    decreases steps.len(),
{
    if steps.len() == 0 {
        (seq![initial], None)
    } else {
        let p = after_steps(initial, steps.drop_last());
        after_step(p.0, p.1, steps.last())
    }
}

/// The screen shown: the overlay if there is one, else the top of the
/// history.
pub open spec fn shown(stack: Seq<ScreenId>, overlay: Option<ScreenId>) -> ScreenId {
    match overlay {
        Some(o) => o,
        None => stack.last(),
    }
}

/// Whatever steps are taken from a new history, the history is never empty
/// nor longer than its limit, so a screen is always shown: the one last shown
/// over the top when the last step did so, else the top of the history.
pub proof fn law_a_screen_is_always_shown(initial: ScreenId, steps: Seq<NavStep>)
    ensures
        1 <= after_steps(initial, steps).0.len() <= MAX_DEPTH,
        steps.len() > 0 ==> (steps.last() matches NavStep::Overlay(o) ==> after_steps(initial, steps).1 == Some(o)),
        steps.len() == 0 || !(steps.last() is Overlay) ==> after_steps(initial, steps).1 is None,
    decreases steps.len(),
{
    if steps.len() > 0 {
        law_a_screen_is_always_shown(initial, steps.drop_last());
    }
}

/// The history of screens, with an optional screen shown over the top one.
pub struct NavigationStack {
    stack: Vec<ScreenId>,
    overlay: Option<ScreenId>,
    max_depth: usize,
}

impl NavigationStack {
    /// The screens of the history, oldest first.
    pub closed spec fn spec_stack(&self) -> Seq<ScreenId> {
        self.stack@
    }

    /// The screen shown over the top one, if any.
    pub closed spec fn spec_overlay(&self) -> Option<ScreenId> {
        self.overlay
    }

    /// The history is never empty and never longer than its limit.
    #[verifier::type_invariant]
    pub closed spec fn inv(&self) -> bool {
        &&& self.max_depth == MAX_DEPTH
        &&& 1 <= self.stack@.len() <= MAX_DEPTH
    }

    /// The history is not empty and not longer than its limit, as it always
    /// is.
    pub closed spec fn wf(&self) -> bool {
        1 <= self.stack@.len() <= MAX_DEPTH
    }

    /// A history whose invariant holds is well formed.
    pub proof fn lemma_inv_wf(&self)
        requires
            self.inv(),
        ensures
            self.wf(),
    {
    }

    /// A history holding only `initial_screen`.
    pub fn new(initial_screen: ScreenId) -> (r: NavigationStack)
        ensures
            r.wf(),
            r.spec_stack() == seq![initial_screen],
            r.spec_overlay() is None,
    {
        let r = NavigationStack { stack: vec![initial_screen], overlay: None, max_depth: MAX_DEPTH };
        assert(r.stack@ =~= seq![initial_screen]);
        r
    }

    /// The screen shown: the overlay if there is one, else the top of the
    /// history.
    pub fn current(&self) -> (r: Option<&ScreenId>)
        ensures
            r == Some(&shown(self.spec_stack(), self.spec_overlay())),
            match self.spec_overlay() {
                Some(o) => r == Some(&o),
                None => r == Some(&self.spec_stack().last()),
            },
    {
        proof {
            use_type_invariant(self);
        }
        match &self.overlay {
            Some(o) => Some(o),
            None => {
                let n = self.stack.len();
                Some(&self.stack[n - 1])
            },
        }
    }

    /// Goes to `screen_id`: drops the overlay and puts the screen on top,
    /// dropping the oldest screen when the history is full.
    pub fn push(&mut self, screen_id: ScreenId) -> (r: Result<()>)
        ensures
            final(self).wf(),
            r is Ok,
            final(self).spec_overlay() is None,
            old(self).spec_stack().len() < MAX_DEPTH ==> final(self).spec_stack() == old(self).spec_stack().push(screen_id),
            old(self).spec_stack().len() >= MAX_DEPTH ==> final(self).spec_stack() == old(self).spec_stack().drop_first().push(screen_id),
            (final(self).spec_stack(), final(self).spec_overlay()) == after_step(
                old(self).spec_stack(),
                old(self).spec_overlay(),
                NavStep::Push(screen_id),
            ),
    {
        proof {
            use_type_invariant(&*self);
        }
        let mut taken = NavigationStack::new(ScreenId::Select);
        std::mem::swap(self, &mut taken);
        proof {
            use_type_invariant(&taken);
        }
        let NavigationStack { mut stack, overlay: _, max_depth } = taken;
        if stack.len() >= max_depth {
            stack.remove(0);
            assert(stack@ =~= old(self).stack@.drop_first());
        }
        stack.push(screen_id);
        *self = NavigationStack { stack, overlay: None, max_depth };
        Ok(())
    }

    /// Shows `id` over the top screen, in place of any overlay.
    pub fn push_overlay(&mut self, id: ScreenId) -> (r: Result<()>)
        ensures
            final(self).wf(),
            r is Ok,
            final(self).spec_overlay() == Some(id),
            final(self).spec_stack() == old(self).spec_stack(),
            (final(self).spec_stack(), final(self).spec_overlay()) == after_step(
                old(self).spec_stack(),
                old(self).spec_overlay(),
                NavStep::Overlay(id),
            ),
    {
        proof {
            use_type_invariant(&*self);
        }
        self.overlay = Some(id);
        Ok(())
    }

    /// Goes back: drops the overlay, and takes the top screen off unless it
    /// is the only one.
    pub fn pop(&mut self) -> (r: Option<ScreenId>)
        ensures
            final(self).wf(),
            final(self).spec_overlay() is None,
            old(self).spec_stack().len() > 1 ==> r == Some(old(self).spec_stack().last())
                && final(self).spec_stack() == old(self).spec_stack().drop_last(),
            old(self).spec_stack().len() <= 1 ==> r is None && final(self).spec_stack() == old(self).spec_stack(),
            (final(self).spec_stack(), final(self).spec_overlay()) == after_step(
                old(self).spec_stack(),
                old(self).spec_overlay(),
                NavStep::Pop,
            ),
    {
        proof {
            use_type_invariant(&*self);
        }
        let mut taken = NavigationStack::new(ScreenId::Select);
        std::mem::swap(self, &mut taken);
        proof {
            use_type_invariant(&taken);
        }
        let NavigationStack { mut stack, overlay: _, max_depth } = taken;
        let r = if stack.len() > 1 {
            let top = stack.pop();
            assert(stack@ =~= old(self).stack@.drop_last());
            top
        } else {
            None
        };
        *self = NavigationStack { stack, overlay: None, max_depth };
        r
    }
}

/// Going back after going to a screen returns that screen and restores the
/// history, when the history was not full.
pub proof fn law_pop_undoes_push(before: Seq<ScreenId>, id: ScreenId)
    requires
        1 <= before.len() < MAX_DEPTH,
    ensures
        before.push(id).len() > 1,
        before.push(id).last() == id,
        before.push(id).drop_last() == before,
{
    assert(before.push(id).drop_last() =~= before);
}

} // verus!
