//! The decisions of a small container runtime.

pub mod binary64;
pub mod cgroup;
pub mod container;
pub mod course;
pub mod creation;
pub mod effects;
pub mod filesystem;
pub mod ipc;
pub mod mapping;
pub mod message;
pub mod path;
pub mod plan;
pub mod procedure;
pub mod request;
pub mod run_args;
pub mod runtime;
pub mod startup;
pub mod text;
pub mod wait;
