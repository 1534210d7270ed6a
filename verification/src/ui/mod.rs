//! What the windows show and what their controls do.

pub mod handbook;
pub mod instrument_panel;
pub mod levers;
pub mod panel_laws;
pub mod tuning;
pub mod weather;
