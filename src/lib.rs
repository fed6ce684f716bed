//! Runner for small daily puzzle routines: command-line model, registry of
//! days, dispatch planning, per-part timing reports and duration formatting.

pub mod cli;
pub mod day;
pub mod day_template;
pub mod dispatch;
pub mod duration;
pub mod registry;
pub mod text;
