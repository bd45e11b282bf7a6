//! What the exporter needs from its environment to start.

use vstd::prelude::*;

use crate::portal::client::{Credentials, Secret};

verus! {

/// What can be missing at the start.
#[derive(Debug, Clone, Copy, PartialEq, Eq, Structural)]
pub enum StartupError {
    /// The name of the user is not set.
    MissingUsername,
    /// The password is not set.
    MissingPassword,
    /// The name of the user or the password is empty.
    EmptyCredentials,
    /// The key of the Monitoring API is not set.
    MissingApiKey,
    /// The key of the Monitoring API is empty.
    EmptyApiKey,
}

impl StartupError {
    /// What is missing, in words.
    pub open spec fn words(self) -> Seq<char> {
        match self {
            StartupError::MissingUsername => {
                "SOLAREDGE_USERNAME env var is required but not set"@
            },
            StartupError::MissingPassword => {
                "SOLAREDGE_PASSWORD env var is required but not set"@
            },
            StartupError::EmptyCredentials => {
                "SOLAREDGE_USERNAME and SOLAREDGE_PASSWORD must be non-empty"@
            },
            StartupError::MissingApiKey => "SOLAREDGE_API_KEY env var is required but not set"@,
            StartupError::EmptyApiKey => "SOLAREDGE_API_KEY must be non-empty"@,
        }
    }

    /// What is missing, in words.
    pub fn message(&self) -> (r: &'static str)
        ensures
            r@ == self.words(),
    {
        match self {
            StartupError::MissingUsername => "SOLAREDGE_USERNAME env var is required but not set",
            StartupError::MissingPassword => "SOLAREDGE_PASSWORD env var is required but not set",
            StartupError::EmptyCredentials => {
                "SOLAREDGE_USERNAME and SOLAREDGE_PASSWORD must be non-empty"
            },
            StartupError::MissingApiKey => "SOLAREDGE_API_KEY env var is required but not set",
            StartupError::EmptyApiKey => "SOLAREDGE_API_KEY must be non-empty",
        }
    }
}

/// Takes credentials from what the environment holds.
pub fn load_credentials(username: Option<String>, password: Option<String>) -> (r: Result<
    Credentials,
    StartupError,
>)
    ensures
        match (username, password) {
            (None, _) => r == Err::<Credentials, StartupError>(StartupError::MissingUsername),
            (Some(_), None) => r == Err::<Credentials, StartupError>(
                StartupError::MissingPassword,
            ),
            (Some(name), Some(word)) => if name@.len() == 0 || word@.len() == 0 {
                r == Err::<Credentials, StartupError>(StartupError::EmptyCredentials)
            } else {
                &&& r matches Ok(creds)
                &&& creds.username@ == name@
                &&& creds.password@ == word@
            },
        },
{
    let username = match username {
        Some(username) => username,
        None => {
            return Err(StartupError::MissingUsername);
        },
    };
    let password = match password {
        Some(password) => password,
        None => {
            return Err(StartupError::MissingPassword);
        },
    };
    if username.as_str().is_empty() || password.as_str().is_empty() {
        return Err(StartupError::EmptyCredentials);
    }
    Ok(Credentials { username, password: Secret::new(password) })
}

/// Takes the key of the Monitoring API from what the environment holds.
pub fn load_api_key(key: Option<String>) -> (r: Result<Secret, StartupError>)
    ensures
        match key {
            None => r == Err::<Secret, StartupError>(StartupError::MissingApiKey),
            Some(key) => if key@.len() == 0 {
                r == Err::<Secret, StartupError>(StartupError::EmptyApiKey)
            } else {
                r matches Ok(secret) && secret@ == key@
            },
        },
{
    match key {
        None => Err(StartupError::MissingApiKey),
        Some(key) => {
            if key.as_str().is_empty() {
                Err(StartupError::EmptyApiKey)
            } else {
                Ok(Secret::new(key))
            }
        },
    }
}

/// Credentials are there exactly where a name and a password are set and
/// neither is empty, and they are those two. What is missing is told: the name
/// first.
pub proof fn lemma_credentials(
    username: Option<String>,
    password: Option<String>,
    r: Result<Credentials, StartupError>,
)
    requires
        call_ensures(load_credentials, (username, password), r),
    ensures
        r is Ok <==> username is Some && password is Some && username->0@.len() > 0
            && password->0@.len() > 0,
        r matches Ok(creds) ==> creds.username@ == username->0@ && creds.password@ == password->0@,
        username is None ==> r->Err_0 == StartupError::MissingUsername,
        username is Some && password is None ==> r->Err_0 == StartupError::MissingPassword,
        username is Some && password is Some && r is Err ==> r->Err_0
            == StartupError::EmptyCredentials,
{
}

/// The key is there exactly where it is set and not empty, and it is what is
/// set.
pub proof fn lemma_api_key(key: Option<String>, r: Result<Secret, StartupError>)
    requires
        call_ensures(load_api_key, (key,), r),
    ensures
        r is Ok <==> key is Some && key->0@.len() > 0,
        r matches Ok(secret) ==> secret@ == key->0@,
        key is None ==> r->Err_0 == StartupError::MissingApiKey,
        key is Some && r is Err ==> r->Err_0 == StartupError::EmptyApiKey,
{
}

} // verus!
