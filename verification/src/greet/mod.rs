pub mod sessions;
pub mod cli;
pub mod secure_buf;
pub mod state;
pub mod ipc;
pub mod frame;
pub mod login;
