//! Interface state that does not depend on rendering: panels and overlays.
use vstd::prelude::*;

verus! {

/// The panel shown in the main view.
#[derive(Debug, Clone, Copy, PartialEq, Eq, Default, Structural)]
pub enum ActivePanel {
    #[default]
    DangerZones,
    Hotspots,
    DustyFiles,
    Todos,
    BusFactor,
    Tests,
}

pub open spec fn panel_index(p: ActivePanel) -> nat {
    match p {
        ActivePanel::DangerZones => 0,
        ActivePanel::Hotspots => 1,
        ActivePanel::DustyFiles => 2,
        ActivePanel::Todos => 3,
        ActivePanel::BusFactor => 4,
        ActivePanel::Tests => 5,
    }
}

impl ActivePanel {
    /// The panel's position among the tabs.
    pub fn index(&self) -> (r: usize)
        ensures
            r == panel_index(*self),
    {
        match self {
            ActivePanel::DangerZones => 0,
            ActivePanel::Hotspots => 1,
            ActivePanel::DustyFiles => 2,
            ActivePanel::Todos => 3,
            ActivePanel::BusFactor => 4,
            ActivePanel::Tests => 5,
        }
    }

    /// The panel at a tab position; positions past the last give the first.
    pub fn from_index(index: usize) -> (r: ActivePanel)
        ensures
            index < 6 ==> panel_index(r) == index,
            index >= 6 ==> r == ActivePanel::DangerZones,
    {
        match index {
            0 => ActivePanel::DangerZones,
            1 => ActivePanel::Hotspots,
            2 => ActivePanel::DustyFiles,
            3 => ActivePanel::Todos,
            4 => ActivePanel::BusFactor,
            5 => ActivePanel::Tests,
            _ => ActivePanel::DangerZones,
        }
    }

    /// How many panels there are.
    pub fn count() -> (r: usize)
        ensures
            r == 6,
    {
        6
    }

    /// The next panel, wrapping after the last.
    pub fn next(&self) -> (r: ActivePanel)
        ensures
            panel_index(r) == (panel_index(*self) + 1) % 6,
    {
        ActivePanel::from_index((self.index() + 1) % ActivePanel::count())
    }

    /// The previous panel, wrapping before the first.
    pub fn prev(&self) -> (r: ActivePanel)
        ensures
            panel_index(r) == (panel_index(*self) + 5) % 6,
    {
        ActivePanel::from_index((self.index() + ActivePanel::count() - 1) % ActivePanel::count())
    }
}

/// What is drawn over the main view.
#[derive(Debug, Clone, PartialEq, Eq, Default)]
pub enum Overlay {
    /// Nothing is drawn over the main view.
    #[default]
    Hidden,
    Help,
    ActionMenu,
    /// Holds a preview of the copied prompt.
    PromptCopied(String),
}

} // verus!
