pub mod client;
pub mod cmd;
pub mod datetime;
pub mod ipc;
pub mod runner;
pub mod scheduler;
pub mod service;
pub mod task;
