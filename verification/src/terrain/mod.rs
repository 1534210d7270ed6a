//! The world under the aircraft: chunk streaming, runways and terrain rules.

pub mod cells;
pub mod chunk;
pub mod detail_laws;
pub mod generator;
pub mod hash;
pub mod land_laws;
pub mod levelling;
pub mod mesh;
pub mod ramp_laws;
pub mod runway;
pub mod runway_fixtures;
pub mod streaming;
pub mod streaming_laws;
pub mod world;
