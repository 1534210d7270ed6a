//! The pilot's handbook window: whether it is open, and which tab it shows.

use vstd::prelude::*;

verus! {

/// A tab of the handbook.
#[derive(Clone, Copy, Debug, PartialEq, Eq, Structural)]
pub enum Tab {
    Overview,
    Controls,
    Engine,
    FlightMechanics,
    HudReference,
    Airports,
    DayNight,
    Terrain,
}

/// The caption of a tab.
pub open spec fn caption(tab: Tab) -> Seq<char> {
    match tab {
        Tab::Overview => "Overview"@,
        Tab::Controls => "Controls"@,
        Tab::Engine => "Engine"@,
        Tab::FlightMechanics => "Flight"@,
        Tab::HudReference => "HUD"@,
        Tab::Airports => "Airports"@,
        Tab::DayNight => "Day / Night"@,
        Tab::Terrain => "Terrain"@,
    }
}

impl Tab {
    /// The tabs in the order in which they are offered.
    pub fn all() -> (tabs: [Tab; 8])
        ensures
            tabs@ == seq![
                Tab::Overview,
                Tab::Controls,
                Tab::Engine,
                Tab::FlightMechanics,
                Tab::HudReference,
                Tab::Airports,
                Tab::DayNight,
                Tab::Terrain,
            ],
    {
        let tabs: [Tab; 8] = [
            Tab::Overview,
            Tab::Controls,
            Tab::Engine,
            Tab::FlightMechanics,
            Tab::HudReference,
            Tab::Airports,
            Tab::DayNight,
            Tab::Terrain,
        ];
        assert(tabs@ =~= seq![
            Tab::Overview,
            Tab::Controls,
            Tab::Engine,
            Tab::FlightMechanics,
            Tab::HudReference,
            Tab::Airports,
            Tab::DayNight,
            Tab::Terrain,
        ]);
        tabs
    }

    /// The caption of a tab.
    pub fn label(&self) -> (text: &'static str)
        ensures
            text@ == caption(*self),
    {
        match self {
            Tab::Overview => "Overview",
            Tab::Controls => "Controls",
            Tab::Engine => "Engine",
            Tab::FlightMechanics => "Flight",
            Tab::HudReference => "HUD",
            Tab::Airports => "Airports",
            Tab::DayNight => "Day / Night",
            Tab::Terrain => "Terrain",
        }
    }
}

/// The tab that is shown; whether the window is open is the menu bar's.
#[derive(Clone, Copy, Debug, PartialEq, Eq, Structural)]
pub struct HandbookTab {
    pub tab: Tab,
}

impl Default for HandbookTab {
    fn default() -> (state: Self)
        ensures
            state.tab == Tab::Overview,
    {
        HandbookTab { tab: Tab::Overview }
    }
}

/// The handbook for a frame: its key opens and closes the window, and an open
/// window shows the tab that was clicked last. Returned is the tab to show.
pub fn draw_handbook(
    pressed: bool,
    open: &mut bool,
    state: &mut HandbookTab,
    clicked: Option<Tab>,
) -> (shown: Option<Tab>)
    ensures
        *final(open) == (*old(open) != pressed),
        *final(open) ==> {
            &&& final(state).tab == match clicked {
                Some(tab) => tab,
                None => old(state).tab,
            }
            &&& shown == Some(final(state).tab)
        },
        !*final(open) ==> shown is None && *final(state) == *old(state),
{
    if pressed {
        *open = !*open;
    }
    if !*open {
        return None;
    }
    if let Some(tab) = clicked {
        state.tab = tab;
    }
    Some(state.tab)
}

}
