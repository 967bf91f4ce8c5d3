//! The commands of `wt`, each as the plan of what it does.

pub mod config_init;
pub mod list;
pub mod new;
pub mod remove;
pub mod shell_init;
