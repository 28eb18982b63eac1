//! Audit events and the audit-log sink abstraction.
//!
//! Every encrypt and decrypt operation emits one event through an injected
//! [`AuditLogger`]. The core never depends on a concrete logging backend: it
//! only fills in the event and hands it to the sink.

use chrono::Utc;
use vstd::prelude::*;

verus! {

/// One audited operation.
#[derive(Debug, Clone)]
pub struct AuditLog {
    /// Milliseconds since the Unix epoch at which the event was recorded.
    pub timestamp_millis: i64,
    /// Caller-supplied identifier of the request.
    pub event_id: String,
    /// The service on whose behalf the operation ran.
    pub service: String,
    /// The user on whose behalf the operation ran.
    pub user: String,
    /// What was done.
    pub action: Action,
}

/// The kind of audited operation, each with its details.
#[derive(Debug, Clone)]
pub enum Action {
    /// Data was encrypted.
    Encryption(EncryptionAction),
    /// Data was decrypted.
    Decryption(DecryptionAction),
    /// A key advanced to a new version.
    KeyRotation(KeyRotationAction),
    /// A key was deleted.
    KeyDeletion(KeyDeletionAction),
    /// A key was created.
    KeyCreation(KeyCreationAction),
    /// Data was signed.
    Signing(SigningAction),
    /// A signature was verified.
    Verification(VerificationAction),
}

/// Details of an encryption event.
#[derive(Debug, Clone)]
pub struct EncryptionAction {
    /// The data key involved, if any.
    pub data_key: Option<String>,
    /// The algorithm used.
    pub algorithm: String,
    /// The identifier of the key used.
    pub key_id: String,
}

/// Details of a decryption event.
#[derive(Debug, Clone)]
pub struct DecryptionAction {
    /// The data key involved, if any.
    pub data_key: Option<String>,
    /// The algorithm used.
    pub algorithm: String,
    /// The identifier of the key used.
    pub key_id: String,
}

/// Details of a key-rotation event.
#[derive(Debug, Clone)]
pub struct KeyRotationAction {
    /// The algorithm of the rotated key.
    pub algorithm: String,
    /// The identifier of the rotated key.
    pub key_id: String,
}

/// Details of a key-deletion event.
#[derive(Debug, Clone)]
pub struct KeyDeletionAction {
    /// The algorithm of the deleted key.
    pub algorithm: String,
    /// The identifier of the deleted key.
    pub key_id: String,
}

/// Details of a key-creation event.
#[derive(Debug, Clone)]
pub struct KeyCreationAction {
    /// The algorithm of the created key.
    pub algorithm: String,
    /// The identifier of the created key.
    pub key_id: String,
}

/// Details of a signing event.
#[derive(Debug, Clone)]
pub struct SigningAction {
    /// The data key involved, if any.
    pub data_key: Option<String>,
    /// The algorithm used.
    pub algorithm: String,
    /// The identifier of the key used.
    pub key_id: String,
}

/// Details of a verification event.
#[derive(Debug, Clone)]
pub struct VerificationAction {
    /// The data key involved, if any.
    pub data_key: Option<String>,
    /// The algorithm used.
    pub algorithm: String,
    /// The identifier of the key used.
    pub key_id: String,
}

/// An audit-log sink. The core calls `log` once per audited operation;
/// implementations deliver the event wherever their backend lives.
pub trait AuditLogger: Sized {
    /// Record one event.
    fn log(&mut self, entry: AuditLog);
}

/// A sink that drops every event.
#[derive(Debug, Clone, Copy)]
pub struct NoopAuditLogger;

impl AuditLogger for NoopAuditLogger {
    fn log(&mut self, entry: AuditLog) {
        let _ = entry;
    }
}

/// Relies on `chrono::Utc::now`: the wall clock, as milliseconds since the
/// Unix epoch. The value depends on the machine's clock; nothing is assumed
/// of it.
#[verifier::external_body]
pub fn now_unix_millis() -> (r: i64) {
    Utc::now().timestamp_millis()
}

} // verus!
