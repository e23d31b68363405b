//! Authentication tokens for IAM database authentication on Amazon RDS.
//!
//! A [`Signer`] holds the target of a connection: host, port, database user,
//! region and the validity of a token. From that, a set of [`Credentials`]
//! and the current time it produces a presigned `connect` request, returned
//! without its scheme, which the database accepts as a password.
//!
//! The library performs no I/O. Credentials, the ambient region and the clock
//! are handed in by the caller.

use vstd::prelude::*;
use vstd::string::*;

pub mod address;
pub mod credentials;
pub mod presign;
pub mod sign;
pub mod text;

pub use credentials::Credentials;
pub use presign::QueryParam;
pub use sign::{Signer, SignerBuilder};

verus! {

/// The ways in which producing a token can fail.
#[derive(Debug)]
pub enum Error {
    /// A URL could not be parsed or put together again.
    ParseError(String),
    /// The request could not be signed.
    SignerError(String),
    /// A setting could not be read from the environment.
    EnvVarError(String),
}

/// The mathematical value of an [`Error`]: its kind and the text it carries.
pub enum ErrorView {
    ParseError(Seq<char>),
    SignerError(Seq<char>),
    EnvVarError(Seq<char>),
}

impl View for Error {
    type V = ErrorView;

    open spec fn view(&self) -> ErrorView {
        match self {
            Error::ParseError(e) => ErrorView::ParseError(e@),
            Error::SignerError(e) => ErrorView::SignerError(e@),
            Error::EnvVarError(e) => ErrorView::EnvVarError(e@),
        }
    }
}

impl ErrorView {
    /// The text shown for an error: the name of its kind, a colon, a space
    /// and the text it carries.
    pub open spec fn rendered(self) -> Seq<char> {
        match self {
            ErrorView::ParseError(e) => "ParseError: "@ + e,
            ErrorView::SignerError(e) => "SignerError: "@ + e,
            ErrorView::EnvVarError(e) => "EnvVarError: "@ + e,
        }
    }
}

/// The mathematical value of an outcome that is a text or an [`Error`].
pub open spec fn outcome(result: Result<String, Error>) -> Result<Seq<char>, ErrorView> {
    match result {
        Ok(text) => Ok(text@),
        Err(error) => Err(error@),
    }
}

impl Error {
    /// Renders the error as text.
    pub fn to_string(&self) -> (out: String)
        ensures
            out@ == self@.rendered(),
    {
        match self {
            Error::ParseError(e) => String::from_str("ParseError: ").concat(e.as_str()),
            Error::SignerError(e) => String::from_str("SignerError: ").concat(e.as_str()),
            Error::EnvVarError(e) => String::from_str("EnvVarError: ").concat(e.as_str()),
        }
    }
}

} // verus!
