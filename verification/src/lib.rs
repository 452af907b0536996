//! Verified core of a restaurant point-of-sale: the rules that decide what the
//! billing, kitchen and table commands may do and what they write.
pub mod text;
pub mod status;
pub mod audit;
pub mod kitchen;
pub mod model;
pub mod auth;
pub mod orders;
pub mod tables;
pub mod billing;
pub mod catalog;
pub mod seed;
pub mod migration;
