//! Launch Library 2 feeds: upcoming launches and events, and the polling
//! bookkeeping that keeps them fresh.
pub mod pads;
pub mod parse;
pub mod request;
pub mod state;
