pub mod audio;
pub mod config;
pub mod graphic;
pub mod keyboard;
pub mod note;
pub mod pane;
pub mod pubsub;
pub mod spectrum;
