//! NOAA SWPC space-weather feeds: reading JSON tables and picking the values
//! the viewer shows (aurora probabilities, Kp index, solar wind).
pub mod fetcher;
pub mod readings;
pub mod grid;
pub mod ovation;
pub mod feeds;
pub mod state;
pub mod status;
pub mod messages;
