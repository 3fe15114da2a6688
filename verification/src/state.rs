//! The page the application shows.

use vstd::prelude::*;

verus! {

/// Application pages.
#[derive(Clone, Copy, Debug, PartialEq, Eq, Structural)]
pub enum Page {
    Main,
}

/// The themes the user can switch between, in the order they are offered.
#[derive(Clone, Copy, Debug, PartialEq, Eq, Structural)]
pub enum Theme {
    StandardDark,
    StandardLight,
    CarlDark,
}

/// The name a theme is offered under.
pub open spec fn theme_text(t: Theme) -> Seq<char> {
    match t {
        Theme::StandardDark => "Standard Dark"@,
        Theme::StandardLight => "Standard Light"@,
        Theme::CarlDark => "Carl Dark"@,
    }
}

impl Theme {
    /// The name the theme is offered under.
    pub fn name(&self) -> (r: &'static str)
        ensures
            r@ == theme_text(*self),
    {
        match self {
            Theme::StandardDark => "Standard Dark",
            Theme::StandardLight => "Standard Light",
            Theme::CarlDark => "Carl Dark",
        }
    }

    /// Whether the theme is a dark one.
    pub fn is_dark(&self) -> (r: bool)
        ensures
            r == (*self != Theme::StandardLight),
    {
        !matches!(self, Theme::StandardLight)
    }
}

/// Application state.
#[derive(Clone, Copy, Debug, PartialEq, Eq, Structural)]
pub struct ApplicationState {
    /// The currently selected page.
    pub active_page: Page,
    /// The active theme.
    pub active_theme: Theme,
}

impl ApplicationState {
    /// A new state, on the main page, with the first theme offered active.
    pub fn new() -> (r: Self)
        ensures
            r.active_page == Page::Main,
            r.active_theme == Theme::StandardDark,
    {
        ApplicationState { active_page: Page::Main, active_theme: Theme::StandardDark }
    }
}

impl Default for ApplicationState {
    /// The default state is on the main page, with the first theme offered.
    fn default() -> (r: Self)
        ensures
            r.active_page == Page::Main,
            r.active_theme == Theme::StandardDark,
    {
        ApplicationState::new()
    }
}

} // verus!
