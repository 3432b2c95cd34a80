//! The credential and session core of a social-media backend: password
//! hashing and verification, RSA-signed access and refresh tokens with a
//! verified wire codec, the signup / sign-in / refresh / whoami flows, and
//! the request-time bearer-credential gate.
//!
//! Storage, HTTP routing, configuration loading and logging are external
//! collaborators: the serving layer performs the I/O and hands plain values
//! in and out, so every rule and decision in this crate is verified. The
//! cryptographic and encoding primitives of outside crates stand behind
//! trusted wrappers whose contracts name exactly what each call returns.

pub mod auth_service;
pub mod authenticate;
pub mod claims;
pub mod configuration;
pub mod error;
pub mod ident;
pub mod jwt;
pub mod parse;
pub mod password;
pub mod roundtrip;
pub mod text;
pub mod validation;
