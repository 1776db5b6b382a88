//! Request and response records of the authority's API, and the error
//! taxonomy of its operations.

use vstd::prelude::*;

verus! {

/// An authentication request: the presented license key, the product the
/// caller wants to use it for, and the caller's hardware fingerprint.
#[derive(Debug)]
pub struct AuthRequest {
    pub license: String,
    pub product_id: String,
    pub hwid: String,
}

/// A successful authentication: when the license window opened, how long it
/// lasts, and how many seconds of it are left.
#[derive(Debug)]
pub struct AuthResponse {
    pub license_start: u64,
    pub license_duration: u64,
    pub time_remaining: i64,
}

/// An administrative request to issue a license: validity in days, the admin
/// secret, and the products the new key shall authorize.
#[derive(Debug)]
pub struct CreateRequest {
    pub days: u64,
    pub key: String,
    pub product_ids: Vec<String>,
}

/// The key of a freshly issued license.
#[derive(Debug)]
pub struct CreateResponse {
    pub license: String,
}

/// An administrative request to ban or unban a hardware fingerprint.
#[derive(Debug)]
pub struct HwidRequest {
    pub hwid: String,
    pub key: String,
}

/// A human-readable message, used for error bodies and acknowledgements.
#[derive(Debug)]
pub struct ErrorResponse {
    pub error: String,
}

impl ErrorResponse {
    pub fn new(error: &str) -> (r: Self)
        ensures
            r.error@ == error@,
    {
        ErrorResponse { error: error.to_owned() }
    }
}

/// Every way an operation of the authority can fail.
#[derive(Clone, Copy, Debug, PartialEq, Eq, Structural)]
pub enum AuthError {
    /// The presented admin secret was wrong.
    Unauthorized,
    /// `days * 86400` does not fit the duration field.
    InvalidDuration,
    /// No unique key was found within the bounded number of attempts.
    ExhaustedRetries,
    /// The caller's hardware fingerprint is banned.
    HwidBanned,
    /// The presented key is not a 16-character uppercase alphanumeric string.
    MalformedLicense,
    /// No active license carries this key for this product.
    InvalidLicense,
    /// The license's window has closed; the record was archived.
    LicenseExpired,
}

impl AuthError {
    /// The message the authority reports for this failure.
    pub fn message(&self) -> (r: String)
        ensures
            *self is Unauthorized ==> r@ == "Invalid API key."@,
            *self is InvalidDuration ==> r@ == "Invalid number of days."@,
            *self is ExhaustedRetries ==> r@ == "Failed to generate a unique license key."@,
            *self is HwidBanned ==> r@ == "Your HWID is banned."@,
            *self is MalformedLicense ==> r@ == "Not a valid license."@,
            *self is InvalidLicense ==> r@ == "Not a valid license."@,
            *self is LicenseExpired ==> r@ == "Your license has expired."@,
    {
        match self {
            AuthError::Unauthorized => "Invalid API key.".to_owned(),
            AuthError::InvalidDuration => "Invalid number of days.".to_owned(),
            AuthError::ExhaustedRetries => "Failed to generate a unique license key.".to_owned(),
            AuthError::HwidBanned => "Your HWID is banned.".to_owned(),
            AuthError::MalformedLicense => "Not a valid license.".to_owned(),
            AuthError::InvalidLicense => "Not a valid license.".to_owned(),
            AuthError::LicenseExpired => "Your license has expired.".to_owned(),
        }
    }
}

} // verus!
