//! The window that tells about the application.
use vstd::prelude::*;

use crate::l10n::{Term, L10N};
use crate::l10n::languages::eng_us::english_tl;
use crate::textbuf::push_str;

verus! {

/// The application's name.
pub open spec fn app_name() -> Seq<char> {
    "Voĉa Gridder"@
}

/// The window that tells about the application.
pub struct AboutWindow {
    l: L10N,
}

impl AboutWindow {
    /// The choice of language the window reads its texts with.
    pub closed spec fn language(&self) -> L10N {
        self.l
    }

    /// A window that reads its texts with the given choice of language.
    pub fn new(l: L10N) -> (r: Self)
        ensures
            r.language() == l,
    {
        Self { l }
    }

    /// The window's title: the word for "about", then the application's name.
    pub fn title(&self) -> (r: String)
        ensures
            r@ == english_tl(Term::About) + " "@ + app_name(),
    {
        let mut s = self.l.tl(&Term::About);
        push_str(&mut s, " ");
        push_str(&mut s, "Voĉa Gridder");
        s
    }
}

/// What the window shows.
pub struct AboutWidget {
    l: L10N,
}

impl AboutWidget {
    /// The choice of language the widget reads its texts with.
    pub closed spec fn language(&self) -> L10N {
        self.l
    }

    /// The widget of a window, reading its texts as the window does.
    pub fn from_window_ref(window: &AboutWindow) -> (r: Self)
        ensures
            r.language() == window.language(),
    {
        Self { l: window.l }
    }
}

} // verus!
