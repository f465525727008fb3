use reqwest::Error as ReqwestError;
use serde_json::Error as JsonError;
use vstd::prelude::*;

verus! {

/// `url::ParseError` is a field-less enum whose variants are declared as the
/// url crate has them, so contracts can say which one is returned.
#[verifier::external_type_specification]
pub struct ExUrlParseError(url::ParseError);

#[verifier::external_type_specification]
#[verifier::external_body]
pub struct ExReqwestError(ReqwestError);

#[verifier::external_type_specification]
#[verifier::external_body]
pub struct ExIoError(std::io::Error);

#[verifier::external_type_specification]
#[verifier::external_body]
pub struct ExJsonError(JsonError);

/// Possible errors from the HTTP client.
#[derive(Debug)]
pub enum Error {
    /// Errors from the underlying HTTP library.
    Network(ReqwestError),
    /// IO error.
    Io(std::io::Error),
    /// JSON encode/decode error.
    Json(JsonError),
    /// Invalid URL.
    InvalidUrl(url::ParseError),
}

} // verus!
