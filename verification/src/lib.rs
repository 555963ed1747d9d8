pub mod driver;
pub mod models;
pub mod parser;
pub mod round;
pub mod stats;
pub mod text;
