//! The identity a request is signed with.

use vstd::prelude::*;

verus! {

/// An access key, its secret and, for temporary credentials, a session token.
pub struct Credentials {
    access_key_id: String,
    secret_access_key: String,
    session_token: Option<String>,
}

/// The mathematical value of [`Credentials`].
pub struct CredentialsView {
    pub access_key_id: Seq<char>,
    pub secret_access_key: Seq<char>,
    pub session_token: Option<Seq<char>>,
}

impl View for Credentials {
    type V = CredentialsView;

    closed spec fn view(&self) -> CredentialsView {
        CredentialsView {
            access_key_id: self.access_key_id@,
            secret_access_key: self.secret_access_key@,
            session_token: match self.session_token {
                Some(token) => Some(token@),
                None => None,
            },
        }
    }
}

impl Credentials {
    /// Credentials made of the given parts.
    pub fn new(access_key_id: &str, secret_access_key: &str, session_token: Option<&str>) -> (out:
        Self)
        ensures
            out@.access_key_id == access_key_id@,
            out@.secret_access_key == secret_access_key@,
            out@.session_token == match session_token {
                Some(token) => Some(token@),
                None => None,
            },
    {
        Credentials {
            access_key_id: access_key_id.to_owned(),
            secret_access_key: secret_access_key.to_owned(),
            session_token: match session_token {
                Some(token) => Some(token.to_owned()),
                None => None,
            },
        }
    }

    /// The access key id.
    pub fn access_key_id(&self) -> (out: &str)
        ensures
            out@ == self@.access_key_id,
    {
        self.access_key_id.as_str()
    }

    /// The secret access key.
    pub fn secret_access_key(&self) -> (out: &str)
        ensures
            out@ == self@.secret_access_key,
    {
        self.secret_access_key.as_str()
    }

    /// The session token, if the credentials are temporary.
    pub fn session_token(&self) -> (out: Option<&str>)
        ensures
            match out {
                Some(token) => self@.session_token == Some(token@),
                None => self@.session_token is None,
            },
    {
        match &self.session_token {
            Some(token) => Some(token.as_str()),
            None => None,
        }
    }
}

} // verus!
