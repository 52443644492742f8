pub mod browser;
pub mod clock;
pub mod config;
pub mod models;
pub mod report;
pub mod scrape;
pub mod session;
pub mod text;
pub mod web_check;
