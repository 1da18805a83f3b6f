//! The editor's settings: its language and its theme.
use vstd::prelude::*;

use crate::l10n::{language_codes, L10NMut, L10N};

verus! {

/// The themes of the interface.
#[derive(Debug, Clone, Copy, PartialEq, Eq, Structural)]
pub enum Theme {
    Dark,
    Light,
}

/// The editor's settings: the handle on the choice of language, the theme,
/// and whether the theme changed since it was last applied.
pub struct Settings {
    l10n_mut: L10NMut,
    theme: Theme,
    is_theme_dirty: bool,
}

impl Settings {
    /// The choice of language.
    pub closed spec fn language(&self) -> L10N {
        self.l10n_mut.view_inner()
    }

    /// The theme.
    pub closed spec fn current_theme(&self) -> Theme {
        self.theme
    }

    /// Whether the theme changed since it was last applied.
    pub closed spec fn dirty(&self) -> bool {
        self.is_theme_dirty
    }

    /// Settings with the given choice of language and the dark theme, which
    /// is still to be applied.
    pub fn new(l10n_mut: L10NMut) -> (r: Self)
        ensures
            r.language() == l10n_mut.view_inner(),
            r.current_theme() == Theme::Dark,
            r.dirty(),
    {
        Self { l10n_mut, theme: Theme::Dark, is_theme_dirty: true }
    }

    /// Chooses the language of a code; a code that names no language one can
    /// choose changes nothing.
    pub fn set_current_language(&mut self, language_code: &'static str)
        ensures
            (exists|i: int| 0 <= i < language_codes().len() && language_codes()[i] == language_code@)
                ==> language_codes()[final(self).language().index()] == language_code@,
            !(exists|i: int| 0 <= i < language_codes().len() && language_codes()[i] == language_code@)
                ==> final(self).language().index() == old(self).language().index(),
            final(self).current_theme() == old(self).current_theme(),
            final(self).dirty() == old(self).dirty(),
    {
        self.l10n_mut.set_current_language(language_code);
    }

    /// Sets the theme; a different theme is to be applied.
    pub fn set_theme(&mut self, theme: Theme)
        ensures
            final(self).current_theme() == theme,
            final(self).dirty() == (old(self).dirty() || old(self).current_theme() != theme),
            final(self).language() == old(self).language(),
    {
        if self.theme != theme {
            self.theme = theme;
            self.is_theme_dirty = true;
        }
    }

    /// The theme to apply, once after each change.
    pub fn pop_dirty_theme(&mut self) -> (r: Option<Theme>)
        ensures
            r == (if old(self).dirty() { Some(old(self).current_theme()) } else { None }),
            !final(self).dirty(),
            final(self).current_theme() == old(self).current_theme(),
            final(self).language() == old(self).language(),
    {
        if self.is_theme_dirty {
            self.is_theme_dirty = false;
            Some(self.theme)
        } else {
            None
        }
    }
}

} // verus!
