//! Low-interference OpenZFS observability: parsing kernel statistics, turning
//! counters into rates, keeping bounded histories and deciding what the
//! terminal shows.

pub mod app_state;
pub mod arrangement;
pub mod clock;
pub mod collector;
pub mod config;
pub mod drawing;
pub mod kstat;
pub mod mock;
pub mod model;
pub mod pools;
pub mod quantity;
pub mod ring;
pub mod series;
pub mod text;
pub mod totals;
