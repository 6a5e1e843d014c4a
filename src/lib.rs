pub mod text;
pub mod store;
pub mod query;
pub mod resolve;
pub mod igdb;
pub mod filters;
pub mod review;
