//! Verified data side of a satellite-tracking globe viewer: TLE handling,
//! caching and satellite records; NOAA space-weather tables, the aurora grid
//! and the polling schedule; Launch Library feeds; and the satellite panel.
pub mod text;
pub mod time;
pub mod floatbits;
pub mod json;
pub mod space_weather;
pub mod tle;
pub mod launch_library;
pub mod panel;
pub mod coord;
pub mod coordinates;
