pub mod input;
pub mod life;
pub mod colour;
pub mod auth;
pub mod frame;
pub mod session;
pub mod scene;
pub mod atlas;
pub mod sim;
pub mod effects;
