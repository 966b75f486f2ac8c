pub mod response;
pub mod text;
pub mod dates;
pub mod ranking;
pub mod errors;
pub mod query_utils;
pub mod security;
pub mod jwt;
pub mod validation;
