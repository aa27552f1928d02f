pub mod auth;
pub mod codec;
pub mod config;
pub mod decimal;
pub mod error;
pub mod model;
pub mod pagination;
pub mod routes;
pub mod sandbox;
pub mod template;
pub mod text;
pub mod util;
pub mod return_to;
pub mod time;
pub mod password;
pub mod if_post;
pub mod form;
