//! The light/dark theme owned by the application root and shared with
//! the toggle control.

use vstd::prelude::*;

verus! {

/// The UI theme. Its value domain is exactly two states, rendered as
/// the strings "light" and "dark".
#[derive(Clone, Copy, PartialEq, Eq, Structural, Debug)]
pub enum Theme {
    Light,
    Dark,
}

impl Theme {
    /// The theme every session starts in.
    pub fn initial() -> (t: Theme)
        ensures
            t == Theme::Light,
    {
        Theme::Light
    }

    /// The other theme: `Light` and `Dark` swap places.
    pub open spec fn spec_toggled(self) -> Theme {
        match self {
            Theme::Light => Theme::Dark,
            Theme::Dark => Theme::Light,
        }
    }

    /// Flip between the two themes.
    pub fn toggle(&mut self)
        ensures
            *final(self) == old(self).spec_toggled(),
    {
        *self = match *self {
            Theme::Light => Theme::Dark,
            Theme::Dark => Theme::Light,
        };
    }

    /// The theme's name; the two names are its whole value domain.
    pub fn label(&self) -> (r: &'static str)
        ensures
            *self == Theme::Light ==> r@ == "light"@,
            *self == Theme::Dark ==> r@ == "dark"@,
    {
        match *self {
            Theme::Light => "light",
            Theme::Dark => "dark",
        }
    }

    /// The caption on the toggle button: an icon and the name of the
    /// theme a click would switch to, not the current one.
    pub fn toggle_caption(&self) -> (r: &'static str)
        ensures
            *self == Theme::Dark ==> r@ == "\u{2600}\u{fe0f} Light"@,
            *self == Theme::Light ==> r@ == "\u{1f319} Dark"@,
    {
        match *self {
            Theme::Dark => "\u{2600}\u{fe0f} Light",
            Theme::Light => "\u{1f319} Dark",
        }
    }

    /// The style class the root view derives from the theme.
    pub fn class(&self) -> (r: &'static str)
        ensures
            *self == Theme::Dark ==> r@ == "bg-gray-900 text-white min-h-screen"@,
            *self == Theme::Light ==> r@ == "bg-gray-50 text-gray-900 min-h-screen"@,
    {
        match *self {
            Theme::Dark => "bg-gray-900 text-white min-h-screen",
            Theme::Light => "bg-gray-50 text-gray-900 min-h-screen",
        }
    }
}

/// Toggling is an involution: two toggles return any theme to where it
/// started, and the value never leaves the two-element domain.
pub proof fn lemma_toggle_involution(t: Theme)
    ensures
        t.spec_toggled().spec_toggled() == t,
        t.spec_toggled() == Theme::Light || t.spec_toggled() == Theme::Dark,
{
}

} // verus!
