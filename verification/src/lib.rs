//! Logic of a browser flight simulator: terrain streaming, runway layout,
//! engine and control handling, mass and balance, cameras, the map and the
//! instruments.

pub mod angle;
pub mod camera;
pub mod fixed;
pub mod fog;
pub mod gizmos;
pub mod hud;
pub mod lights;
pub mod map;
pub mod order;
pub mod physics;
pub mod plane;
pub mod scene_laws;
pub mod sky;
pub mod sky_laws;
pub mod terrain;
pub mod text;
pub mod ui;
pub mod vector;
pub mod waypoints;
