//! Dutch auctions: their description, their price, and their life.

pub mod action;
pub mod commitment;
pub mod description;
pub mod engine;
pub mod guard;
pub mod history;
pub mod id;
pub mod lifecycle;
pub mod params;
pub mod price;
pub mod scheduler;
pub mod state;
pub mod store;
