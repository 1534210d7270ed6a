//! The in-game world map: its view and interaction state, the breadcrumb trail,
//! and how its background texture is filled.

pub mod map_laws;
pub mod render;
pub mod state;
pub mod trail;
pub mod window;
