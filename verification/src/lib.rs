//! A chart engine for initial-value problems: it integrates `y' = f(x, y)`
//! with the classical Runge-Kutta method, keeps the solved curves in plot
//! order, plans the axes that cover them and lays out the frame to draw.

pub mod components;
pub mod scalar;
pub mod integrator;
pub mod color;
pub mod axis;
pub mod frame;
pub mod fixed;
