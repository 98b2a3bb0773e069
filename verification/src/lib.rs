pub mod cluster;
pub mod engine;
pub mod ordering;
pub mod outside;
pub mod server;
pub mod text;
pub mod transaction;
