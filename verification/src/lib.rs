//! Plugin execution engine of a fault-injection runner: duration and
//! schedule arithmetic, the per-plugin run and status loops as state
//! machines, plugin resolution, status parsing, metric assembly and line
//! styling, each stated as a contract over mathematical models.

pub mod text;
pub mod literal;
pub mod dict;
pub mod config;
pub mod intervals;
pub mod worker;
pub mod stdout_styling;
pub mod monitoring;
pub mod plug;
pub mod bash_plugin;
pub mod native_plugin;
pub mod python_plugin;
pub mod supervisor;
pub mod plugin_logger;
pub mod install;
pub mod deathloop;
