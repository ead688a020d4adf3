pub mod listing;
pub mod parse;
pub mod response;
pub mod route;
pub mod service;
