//! The flight model: tunable constants, mass and balance, engine and controls,
//! aerodynamic surfaces and ground contact.

pub mod aero_model;
pub mod aero_surface;
pub mod aero_surface_config;
pub mod aircraft_physics;
pub mod airplane_controller;
pub mod arcade_laws;
pub mod balance_laws;
pub mod bi_vector3;
pub mod control_laws;
pub mod drag_laws;
pub mod flight_config;
pub mod flow_laws;
pub mod gear_laws;
pub mod hull_collision;
pub mod landing_gear;
pub mod lift_laws;
pub mod mass;
pub mod motion_laws;
pub mod rigid_body;
pub mod simple;
pub mod stall_laws;
pub mod wheels;
