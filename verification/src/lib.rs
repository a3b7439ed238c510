//! Verified core of a small web service: frequency tallies of generated
//! numbers, credential parsing for basic authentication, and the replies of
//! its record endpoints.

pub mod frequency;
pub mod service;
pub mod json;
pub mod hyper_service;
pub mod credentials;
pub mod database;
pub mod reply;
pub mod handlers;
pub mod text;
pub mod forwarding;
pub mod auth;
pub mod client;
