//! Core logic of the desktop calendar: world clocks, weather cache policy,
//! place labels and taskbar hit testing, with their contracts.

pub mod clocks;
pub mod domain;
pub mod location;
pub mod taskbar;
pub mod text;
pub mod weather;
pub mod world_time;
