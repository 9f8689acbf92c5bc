//! Frame buffer, bus transactions and proximity animation for a spherical
//! point-light display driven through daisy-chained shift registers.
pub mod bus;
pub mod lights;
pub mod geometry;
pub mod animation;
