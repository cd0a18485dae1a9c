//! Compilation unit manager for C++ projects: decides which sources must be compiled again,
//! builds an ordered plan of compile, link, run and file-system steps, and drives that plan
//! step by step while collecting diagnostics.

pub mod arg_parser;
pub mod args_specification;
pub mod config;
pub mod config_parser;
pub mod dependency_analyzer;
pub mod diagnostics;
pub mod errors;
pub mod execution;
pub mod fs_manager;
pub mod meta;
pub mod plan;
pub mod planner;
pub mod proc_output;
pub mod step;
pub mod table;
pub mod test_utils;
pub mod text;
pub mod timer;
