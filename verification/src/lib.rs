//! A terminal audio player's engine, library browser, key handling and
//! display text, with their behaviour stated and proved.
pub mod text;
pub mod paths;
pub mod audio_engine;
pub mod browser;
pub mod channel;
pub mod app;
pub mod tui;
pub mod layout;
