//! Simulation core of a tile-based city builder: resource storage, building
//! lists, a recycling unit pool, the world that owns them and a fixed-step
//! simulation clock.
pub mod resources;
pub mod storage;
pub mod tiles;
pub mod map;
pub mod placement;
pub mod building;
pub mod config;
pub mod building_list;
pub mod unit;
pub mod world;
pub mod sim;
pub mod presets;
