//! Spotify Web API integration: response data, errors, the OAuth
//! Authorization Code flow with token refresh, request building and paging.
pub mod api;
pub mod auth;
pub mod client;
pub mod error;
pub mod requests;
