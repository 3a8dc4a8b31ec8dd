//! Authoritative simulation core for a persistent space-strategy game:
//! a deterministic world generator that derives the universe from a seed
//! chain, an order-resolution engine that commits time-delayed unit moves
//! and detects encounters, and a bounded fan-out event bus.

pub mod bus;
pub mod codec;
pub mod dtos;
pub mod engine;
pub mod error;
pub mod location;
pub mod models;
pub mod publish;
pub mod store;
pub mod worldgen;
