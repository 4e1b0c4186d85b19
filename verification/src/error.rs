//! What can go wrong while the configuration is read and the instances are set up.

use vstd::prelude::*;

verus! {

/// `reqwest::Error`, the error with which no HTTP client could be built. It
/// is carried, never looked into.
#[verifier::external_type_specification]
#[verifier::external_body]
pub struct ExRequestError(reqwest::Error);

/// `reqwest::header::InvalidHeaderValue`, the error with which a text was
/// refused as the value of a header. It is carried, never looked into.
#[verifier::external_type_specification]
#[verifier::external_body]
pub struct ExInvalidHeaderValue(reqwest::header::InvalidHeaderValue);

/// An error of this library.
#[derive(Debug)]
pub enum GSError {
    /// The configuration lacks the key.
    ConfigKeyMissing(String),
    /// The configuration holds the key, with a value of another type than the
    /// one named.
    ConfigKeyTypeWrong(String, &'static str),
    /// The HTTP client could not be set up.
    RequestError(reqwest::Error),
    /// A header value was refused; most likely the API token holds a
    /// character that no header may hold.
    InvalidHeader(reqwest::header::InvalidHeaderValue),
}

/// The view of a [`GSError`]: the kind of error and the texts it carries.
pub enum GSErrorView {
    ConfigKeyMissing(Seq<char>),
    ConfigKeyTypeWrong(Seq<char>, Seq<char>),
    RequestError,
    InvalidHeader,
}

impl View for GSError {
    type V = GSErrorView;

    open spec fn view(&self) -> GSErrorView {
        match self {
            GSError::ConfigKeyMissing(key) => GSErrorView::ConfigKeyMissing(key@),
            GSError::ConfigKeyTypeWrong(key, wanted) => GSErrorView::ConfigKeyTypeWrong(
                key@,
                wanted@,
            ),
            GSError::RequestError(_) => GSErrorView::RequestError,
            GSError::InvalidHeader(_) => GSErrorView::InvalidHeader,
        }
    }
}

} // verus!
