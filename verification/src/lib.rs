pub mod clean;
pub mod config;
pub mod path;
pub mod text;
pub mod rename;
pub mod order;
pub mod discover;
pub mod execute;
pub mod wizard;
pub mod report;
pub mod ui_text;
