//! Whether a window that exists at most once is open, and whether it should
//! take the focus.
use vstd::prelude::*;

pub mod about_window;
pub mod project_window;
pub mod welcome_window;

verus! {

/// The window is closed.
pub const SINGLETON_WINDOW_OPEN_STATE_CLOSED: u8 = 0;

/// The window is open.
pub const SINGLETON_WINDOW_OPEN_STATE_OPEN: u8 = 1;

/// The window is open and should take the focus.
pub const SINGLETON_WINDOW_OPEN_STATE_OPEN_DESIRING_FOCUS: u8 = 2;

/// The open state of a window that exists at most once.
#[derive(Clone, Copy)]
pub struct SingletonWindowOpenState {
    state: u8,
}

impl SingletonWindowOpenState {
    /// The state as a number: closed, open, or open and desiring the focus.
    pub closed spec fn code(self) -> u8 {
        self.state
    }

    /// The state's consistency: one of the three states.
    #[verifier::type_invariant]
    pub closed spec fn wf(self) -> bool {
        self.state <= SINGLETON_WINDOW_OPEN_STATE_OPEN_DESIRING_FOCUS
    }

    /// Whether the window is open.
    pub open spec fn spec_is_open(self) -> bool {
        self.code() != SINGLETON_WINDOW_OPEN_STATE_CLOSED
    }

    /// Whether the window should take the focus.
    pub open spec fn desires_focus(self) -> bool {
        self.code() == SINGLETON_WINDOW_OPEN_STATE_OPEN_DESIRING_FOCUS
    }

    /// The state after opening.
    pub closed spec fn opened(self) -> Self {
        SingletonWindowOpenState { state: SINGLETON_WINDOW_OPEN_STATE_OPEN_DESIRING_FOCUS }
    }

    /// The state after closing.
    pub closed spec fn closed(self) -> Self {
        SingletonWindowOpenState { state: SINGLETON_WINDOW_OPEN_STATE_CLOSED }
    }

    /// The answer to whether the window should take the focus, and the state
    /// after the question: the wish is answered once.
    pub closed spec fn popped(self) -> (bool, Self) {
        if self.state == SINGLETON_WINDOW_OPEN_STATE_OPEN_DESIRING_FOCUS {
            (true, SingletonWindowOpenState { state: SINGLETON_WINDOW_OPEN_STATE_OPEN })
        } else {
            (false, self)
        }
    }

    /// A closed window.
    pub fn new() -> (r: Self)
        ensures
            r.wf(),
            r.code() == SINGLETON_WINDOW_OPEN_STATE_CLOSED,
    {
        SingletonWindowOpenState { state: SINGLETON_WINDOW_OPEN_STATE_CLOSED }
    }

    /// Opens the window and asks for the focus.
    pub fn open(&mut self)
        ensures
            *final(self) == old(self).opened(),
            final(self).wf(),
            final(self).code() == SINGLETON_WINDOW_OPEN_STATE_OPEN_DESIRING_FOCUS,
    {
        self.state = SINGLETON_WINDOW_OPEN_STATE_OPEN_DESIRING_FOCUS;
    }

    /// Closes the window.
    pub fn close(&mut self)
        ensures
            *final(self) == old(self).closed(),
            final(self).wf(),
            final(self).code() == SINGLETON_WINDOW_OPEN_STATE_CLOSED,
    {
        self.state = SINGLETON_WINDOW_OPEN_STATE_CLOSED;
    }

    /// Whether the window is open.
    pub fn is_open(&self) -> (r: bool)
        ensures
            r == self.spec_is_open(),
    {
        self.state != SINGLETON_WINDOW_OPEN_STATE_CLOSED
    }

    /// Whether the window should take the focus; the wish is answered once:
    /// an open window that desired the focus stays open without the wish.
    pub fn pop_is_desiring_focus(&mut self) -> (r: bool)
        ensures
            (r, *final(self)) == old(self).popped(),
            final(self).wf(),
            r == old(self).desires_focus(),
            r ==> final(self).code() == SINGLETON_WINDOW_OPEN_STATE_OPEN,
            !r ==> *final(self) == *old(self),
    {
        proof {
            use_type_invariant(&*self);
        }
        let is_desiring_focus = self.state == SINGLETON_WINDOW_OPEN_STATE_OPEN_DESIRING_FOCUS;
        if is_desiring_focus {
            self.state = SINGLETON_WINDOW_OPEN_STATE_OPEN;
        }
        is_desiring_focus
    }
}

/// Opening a window asks for the focus once, whatever the state before: the
/// first question after it is answered yes and leaves the window open, the
/// next is answered no and leaves it open too.
pub proof fn law_focus_asked_once(s: SingletonWindowOpenState)
    requires
        s.wf(),
    ensures
        s.opened().spec_is_open(),
        s.opened().popped().0,
        s.opened().popped().1.spec_is_open(),
        !s.opened().popped().1.popped().0,
        s.opened().popped().1.popped().1.spec_is_open(),
{
}

/// A closed window is not open and does not ask for the focus, whatever the
/// state before.
pub proof fn law_closed_stays_quiet(s: SingletonWindowOpenState)
    requires
        s.wf(),
    ensures
        !s.closed().spec_is_open(),
        !s.closed().popped().0,
        s.closed().popped().1 == s.closed(),
{
}

/// Asking whether the window should take the focus never opens or closes it.
pub proof fn law_pop_keeps_openness(s: SingletonWindowOpenState)
    requires
        s.wf(),
    ensures
        s.popped().1.spec_is_open() == s.spec_is_open(),
        s.popped().1.wf(),
{
}

} // verus!
