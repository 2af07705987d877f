//! Core domain logic for a small session-authenticated user backend:
//! validated value objects (email, password), the user entity, the user-store
//! port with an in-memory adapter, the identity-resolution (account-linking)
//! service, the credential check, and the error-to-HTTP mapping.

pub mod auth;
pub mod config;
pub mod db;
pub mod dto;
pub mod entities;
pub mod errors;
pub mod http;
pub mod memory;
pub mod repositories;
pub mod services;
pub mod text;
pub mod value_objects;
