pub mod camera;
pub mod config;
pub mod motor;
pub mod proto;
pub mod tasks;
pub mod ws;
