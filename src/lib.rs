//! Core logic of a language-learning back end: init-data authentication,
//! session claims, the two-tier read-through cache, user synchronisation and
//! lesson selection.

pub mod bytes;
pub mod validator;
pub mod extractor;
pub mod error;
pub mod middleware;
pub mod cache;
pub mod model;
pub mod sync_user;
pub mod lesson;
pub mod response;
pub mod llm;
pub mod auth;
pub mod handler;
