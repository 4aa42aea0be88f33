pub mod theme;
pub mod model;
pub mod cmd;
pub mod niri_kdl;
pub mod paths;
pub mod presets;
pub mod ansi16;
pub mod gen;
pub mod gui;
pub mod edit;
pub mod keys;
pub mod scene;
pub mod paint;
pub mod editor;
