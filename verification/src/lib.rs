pub mod agent;
pub mod client;
pub mod grouper;
pub mod parser;
pub mod protocol;
pub mod text;
