//! Verified core of the life* desktop tools: the notification daemon's text
//! handling, frames and queue (`note`), the lock screen's indicator machine
//! and Game of Life (`lock`), the greeter's session picker, phase machine and
//! password buffer (`greet`), and the theming tool's colour and config
//! helpers (`conf`).
pub mod chars;
pub mod raster;
pub mod num;
pub mod note;
pub mod lock;
pub mod greet;
pub mod conf;
