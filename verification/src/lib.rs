//! SighFar: a cipher workbench library — layered classical ciphers, a
//! passphrase-sealed envelope, a carrier-file trailer format and the
//! encrypted stores that keep history and RSA keys.

pub mod builder;
pub mod carrier;
pub mod cipher;
pub mod config;
pub mod workflow;
pub mod error;
pub mod github;
pub mod history;
pub mod keys;
pub mod models;
pub mod primitives;
pub mod morse;
pub mod rail_fence;
pub mod screens;
pub mod secure;
pub mod store;
pub mod terminal;
pub mod text;

