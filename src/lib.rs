//! Decision core for a car-soccer bot: ball forecasts, the interception race, route planning
//! and the hierarchical task engine that turns them into one command per physics tick.
//!
//! Quantities are integers: time in physics ticks (120 per second), lengths in unreal units,
//! speeds in unreal units per second.
pub mod brain;
pub mod car1d;
pub mod collect;
pub mod command;
pub mod engine;
pub mod field;
pub mod geometry;
pub mod maneuvers;
pub mod routing;
pub mod rules;
pub mod scenario;
pub mod trajectory;
