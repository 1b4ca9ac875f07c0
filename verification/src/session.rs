use vstd::prelude::*;
use crate::config::{Opacity, StoredFile};

verus! {

/// Where a window stands on screen, its size, opacity and page.
#[derive(Debug, Clone)]
pub struct WindowState {
    pub url: String,
    pub opacity: Opacity,
    pub x: i32,
    pub y: i32,
    pub width: u32,
    pub height: u32,
}

/// The open windows, shared between the windows of the application and kept
/// on disk across runs.
#[derive(Debug, Clone)]
pub struct SessionState {
    pub windows: Vec<WindowState>,
    pub last_update: String,
}

/// The session with no window.
pub open spec fn is_empty_session(s: SessionState) -> bool {
    s.windows@.len() == 0 && s.last_update@ == Seq::<char>::empty()
}

impl Default for SessionState {
    fn default() -> (s: SessionState)
        ensures
            is_empty_session(s),
    {
        SessionState { windows: Vec::new(), last_update: String::new() }
    }
}

/// The session after a message from another window: the session it carried,
/// when it could be read, replaces the old one whole.
pub open spec fn after_update(state: SessionState, received: Option<SessionState>) -> SessionState {
    match received {
        Some(new_state) => new_state,
        None => state,
    }
}

/// The session after several messages, handled one at a time in order.
pub open spec fn after_updates(state: SessionState, received: Seq<Option<SessionState>>) -> SessionState
    decreases received.len(),
{
    if received.len() == 0 {
        state
    } else {
        after_updates(after_update(state, received[0]), received.drop_first())
    }
}

/// A message that could be read replaces the session by its own; one that
/// could not leaves the session as it was.
pub proof fn law_update_replaces_whole(state: SessionState, received: Option<SessionState>)
    ensures
        received is Some ==> after_update(state, received) == received->0,
        received is None ==> after_update(state, received) == state,
{
}

/// Messages that could not be read change nothing.
proof fn lemma_unreadable_updates(state: SessionState, received: Seq<Option<SessionState>>)
    requires
        forall|k: int| 0 <= k < received.len() ==> received[k] is None,
    ensures
        after_updates(state, received) == state,
    decreases received.len(),
{
    if received.len() > 0 {
        assert(received[0] is None);
        lemma_unreadable_updates(state, received.drop_first());
    }
}

/// Of several messages handled in order, the last one that could be read
/// decides the session, never a mixture of two.
pub proof fn lemma_last_update_wins(
    state: SessionState,
    received: Seq<Option<SessionState>>,
    last: int,
)
    requires
        0 <= last < received.len(),
        received[last] is Some,
        forall|k: int| last < k < received.len() ==> received[k] is None,
    ensures
        after_updates(state, received) == received[last]->0,
    decreases received.len(),
{
    let rest = received.drop_first();
    if last == 0 {
        assert forall|k: int| 0 <= k < rest.len() implies rest[k] is None by {
            assert(rest[k] == received[k + 1]);
        }
        lemma_unreadable_updates(after_update(state, received[0]), rest);
    } else {
        assert forall|k: int| last - 1 < k < rest.len() implies rest[k] is None by {
            assert(rest[k] == received[k + 1]);
        }
        lemma_last_update_wins(after_update(state, received[0]), rest, last - 1);
    }
}

impl SessionState {
    /// Decides the session state at start-up from what was found in the
    /// session file: the stored session if it could be read, else the empty
    /// session.
    pub fn load_or_default(stored: StoredFile<SessionState>) -> (s: SessionState)
        ensures
            match stored {
                StoredFile::Parsed(stored_session) => s == stored_session,
                _ => is_empty_session(s),
            },
    {
        match stored {
            StoredFile::Parsed(s) => s,
            _ => SessionState::default(),
        }
    }

    /// Records a newly opened window after the others.
    pub fn record_window(&mut self, window: WindowState)
        ensures
            final(self).windows@ == old(self).windows@.push(window),
            final(self).last_update == old(self).last_update,
    {
        self.windows.push(window);
    }

    /// Takes the session that another window sent, if it could be read: it
    /// replaces this one whole. Returns whether it did, in which case the
    /// session is to be saved.
    pub fn accept_update(&mut self, received: Option<SessionState>) -> (replaced: bool)
        ensures
            replaced == received is Some,
            *final(self) == after_update(*old(self), received),
            match received {
                Some(new_state) => *final(self) == new_state,
                None => *final(self) == *old(self),
            },
    {
        match received {
            Some(new_state) => {
                *self = new_state;
                true
            },
            None => false,
        }
    }
}

} // verus!
