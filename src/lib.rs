pub mod config;
pub mod nalu;
pub mod reader;
pub mod table;
pub mod track;
