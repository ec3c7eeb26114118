//! Storage-and-cryptography backend for a secret-management service.
//!
//! Secrets are persisted as individually encrypted files under a directory
//! hierarchy.  The encryption identity ("recipient") used for a secret is
//! resolved by walking the directory hierarchy upward looking for marker
//! files, and every failure mode is classified into a closed taxonomy that a
//! remote-procedure protocol layer can consume.
//!
//! This crate holds the pure logic of that backend: path resolution, the
//! recipient walk, permission-mode derivation, encryption-tool argument
//! construction and outcome classification, and the error taxonomy with its
//! protocol mapping.  The filesystem and subprocess work itself is performed
//! by an unverified shell around this library, which hands the results back
//! as plain values.

pub mod error;
pub mod pass;
pub mod text;
