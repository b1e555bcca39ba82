//! Game-logic core for a small real-time-strategy space game.
//!
//! All world geometry is carried in fixed-point integers: a coordinate is a
//! number of *milliunits*, thousandths of one world unit, and an angle is a
//! number of microradians. The modules hold the steering and movement
//! decisions, fleet bookkeeping keyed by destination, the trade-route cycle,
//! planet production and ownership rules, selection, and the small state
//! machines around them. Rendering, input and the physics engine stay
//! outside; they hand these functions plain values and apply what comes back.

pub mod angles;
pub mod camera;
pub mod combat;
pub mod config;
pub mod geom;
pub mod layers;
pub mod fleets;
pub mod movement;
pub mod players;
pub mod production;
pub mod selection;
pub mod ships;
pub mod state;
pub mod trade;
pub mod ui;
