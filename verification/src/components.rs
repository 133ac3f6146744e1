pub mod chart;
pub mod input;
