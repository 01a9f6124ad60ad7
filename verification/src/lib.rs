pub mod auth;
pub mod data;
pub mod db;
pub mod error;
pub mod ids;
pub mod keys;
pub mod oauth;
