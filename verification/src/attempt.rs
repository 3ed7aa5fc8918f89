//! The close-attempt gate: a pending request to do something disruptive,
//! held until it is safe.
//!
//! A request to replace or close the document is recorded as the pending
//! action of an attempt.  The attempt resolves — the caller may proceed —
//! only once no background save is writing and either the document is
//! registered and saved or the user has explicitly confirmed discarding the
//! changes for this very attempt.  Cancelling an attempt, or starting a new
//! one, drops any earlier confirmation: an override never outlives its
//! attempt.

use vstd::prelude::*;

verus! {

/// The disruptive action a close attempt asks for.
#[derive(Clone, Copy, Debug, PartialEq, Eq, Structural)]
pub enum CloseAction {
    /// Replace the document with a fresh empty one.
    NewDocument,
    /// Replace the document with one opened from disk.
    OpenDocument,
    /// End the session and close the window.
    CloseSession,
}

/// The mathematical model of an attempt's state: `pending` is `None` while
/// idle, and the override is meaningful only while attempting.
pub ghost struct AttemptModel {
    pub pending: Option<CloseAction>,
    pub override_active: bool,
}

/// The state after arming a fresh attempt: the new attempt starts
/// unconfirmed, whatever went before.
pub open spec fn spec_request(m: AttemptModel, action: CloseAction) -> AttemptModel {
    AttemptModel { pending: Some(action), override_active: false }
}

/// The state after cancelling: idle, with no confirmation retained.
pub open spec fn spec_cancel(m: AttemptModel) -> AttemptModel {
    AttemptModel { pending: None, override_active: false }
}

/// The idle state: nothing pending, nothing confirmed.
pub open spec fn spec_idle() -> AttemptModel {
    AttemptModel { pending: None, override_active: false }
}

/// The state after the user confirms discarding changes: meaningful only
/// while an attempt is pending, a no-op otherwise.
pub open spec fn spec_override(m: AttemptModel) -> AttemptModel {
    if m.pending is Some {
        AttemptModel { override_active: true, ..m }
    } else {
        m
    }
}

/// Whether an attempt in state `m` may resolve: something is pending, no
/// background save is writing, and the document is safe (registered and
/// saved) or the user confirmed discarding the changes.
pub open spec fn spec_allowed(m: AttemptModel, writing: bool, registered_and_saved: bool) -> bool {
    &&& m.pending is Some
    &&& !writing
    &&& (registered_and_saved || m.override_active)
}

/// The close-attempt gate.
pub struct CloseAttempt {
    pending_action: Option<CloseAction>,
    override_active: bool,
}

impl View for CloseAttempt {
    type V = AttemptModel;

    closed spec fn view(&self) -> AttemptModel {
        AttemptModel { pending: self.pending_action, override_active: self.override_active }
    }
}

impl Default for CloseAttempt {
    /// Idle: nothing pending, nothing confirmed.
    fn default() -> (r: Self)
        ensures
            r@ == spec_idle(),
    {
        CloseAttempt { pending_action: None, override_active: false }
    }
}

impl CloseAttempt {
    /// Idle: nothing pending, nothing confirmed.
    pub fn new() -> (r: Self)
        ensures
            r@ == spec_idle(),
    {
        CloseAttempt::default()
    }

    /// Whether an attempt is pending.
    pub fn is_attempting(&self) -> (r: bool)
        ensures
            r == (self@.pending is Some),
    {
        self.pending_action.is_some()
    }

    /// The pending action, if any.
    pub fn pending_action(&self) -> (r: Option<CloseAction>)
        ensures
            r == self@.pending,
    {
        self.pending_action
    }

    /// Arms an attempt to perform `action`.  The attempt starts
    /// unconfirmed: no override from an earlier attempt carries over.
    pub fn request_close(&mut self, action: CloseAction)
        ensures
            final(self)@ == spec_request(old(self)@, action),
    {
        self.pending_action = Some(action);
        self.override_active = false;
    }

    /// Abandons the attempt and drops any confirmation given for it.
    pub fn cancel(&mut self)
        ensures
            final(self)@ == spec_cancel(old(self)@),
    {
        self.pending_action = None;
        self.override_active = false;
    }

    /// Records the user's confirmation to discard unsaved changes, valid
    /// for exactly the current attempt.
    pub fn override_condition(&mut self)
        ensures
            final(self)@ == spec_override(old(self)@),
    {
        if self.pending_action.is_some() {
            self.override_active = true;
        }
    }

    /// Resolves the attempt if it is safe to proceed: returns the pending
    /// action and resets to idle exactly when [`spec_allowed`] holds of the
    /// given conditions.  While a background save is writing, nothing
    /// resolves — not even a confirmed attempt — and the state is left
    /// untouched for re-evaluation once the completion is observed.
    pub fn try_resolve(&mut self, writing: bool, registered_and_saved: bool) -> (r: Option<
        CloseAction,
    >)
        ensures
            writing ==> r is None && final(self)@ == old(self)@,
            match r {
                Some(action) => {
                    &&& spec_allowed(old(self)@, writing, registered_and_saved)
                    &&& old(self)@.pending == Some(action)
                    &&& final(self)@ == spec_idle()
                },
                None => {
                    &&& !spec_allowed(old(self)@, writing, registered_and_saved)
                    &&& final(self)@ == old(self)@
                },
            },
    {
        if writing {
            return None;
        }
        match self.pending_action {
            None => None,
            Some(action) => {
                if registered_and_saved || self.override_active {
                    self.pending_action = None;
                    self.override_active = false;
                    Some(action)
                } else {
                    None
                }
            },
        }
    }
}

/// Confirming an attempt, cancelling it, and arming a fresh one leaves the
/// new attempt unconfirmed: without a new confirmation the fresh attempt
/// does not resolve while the document is unsaved.
pub proof fn lemma_override_not_retained(m: AttemptModel, action: CloseAction)
    ensures
        ({
            let fresh = spec_request(spec_cancel(spec_override(m)), action);
            &&& !fresh.override_active
            &&& forall|writing: bool| !spec_allowed(fresh, writing, false)
        }),
{
}

} // verus!
