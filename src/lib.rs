pub mod keyboard;
pub mod input;
pub mod config;
pub mod text;
pub mod sheet;
pub mod challenge;
pub mod util;
