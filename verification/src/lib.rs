//! Verified core of a buy-versus-rent Monte Carlo housing simulator.
pub mod aggregate;
pub mod app_state;
pub mod csv;
pub mod engine;
pub mod format;
pub mod histogram;
pub mod parameters;
pub mod theme;
