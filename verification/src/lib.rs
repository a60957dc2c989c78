//! Small verified exercises: temperature conversion, Fibonacci numbers,
//! rectangle areas, and a cumulative-song verse builder, together with the
//! decimal-text parsing their interactive front ends rely on.

pub mod fibonacci;
pub mod parse;
pub mod rectangle;
pub mod temperature;
pub mod twelve_days;
