//! Why a request about accounts, roles, sessions or tokens is refused.

use vstd::prelude::*;

verus! {

#[derive(Debug)]
pub enum AuthError {
    InvalidInput(String),
    Unauthorized(String),
    Forbidden(String),
    Conflict(String),
    Internal(String),
}

/// An error as a mathematical value.
pub enum AuthFault {
    InvalidInput(Seq<char>),
    Unauthorized(Seq<char>),
    Forbidden(Seq<char>),
    Conflict(Seq<char>),
    Internal(Seq<char>),
}

impl View for AuthError {
    type V = AuthFault;

    open spec fn view(&self) -> AuthFault {
        match self {
            AuthError::InvalidInput(message) => AuthFault::InvalidInput(message@),
            AuthError::Unauthorized(message) => AuthFault::Unauthorized(message@),
            AuthError::Forbidden(message) => AuthFault::Forbidden(message@),
            AuthError::Conflict(message) => AuthFault::Conflict(message@),
            AuthError::Internal(message) => AuthFault::Internal(message@),
        }
    }
}

impl AuthFault {
    pub open spec fn text(self) -> Seq<char> {
        match self {
            AuthFault::InvalidInput(message) => message,
            AuthFault::Unauthorized(message) => message,
            AuthFault::Forbidden(message) => message,
            AuthFault::Conflict(message) => message,
            AuthFault::Internal(message) => message,
        }
    }

    /// The status code of HTTP.
    pub open spec fn status(self) -> u16 {
        match self {
            AuthFault::InvalidInput(_) => 400,
            AuthFault::Unauthorized(_) => 401,
            AuthFault::Forbidden(_) => 403,
            AuthFault::Conflict(_) => 409,
            AuthFault::Internal(_) => 500,
        }
    }
}

impl AuthError {
    pub fn message(&self) -> (message: &str)
        ensures
            message@ == self@.text(),
    {
        match self {
            AuthError::InvalidInput(message) => message.as_str(),
            AuthError::Unauthorized(message) => message.as_str(),
            AuthError::Forbidden(message) => message.as_str(),
            AuthError::Conflict(message) => message.as_str(),
            AuthError::Internal(message) => message.as_str(),
        }
    }

    pub fn status_code(&self) -> (code: u16)
        ensures
            code == self@.status(),
    {
        match self {
            AuthError::InvalidInput(_) => 400,
            AuthError::Unauthorized(_) => 401,
            AuthError::Forbidden(_) => 403,
            AuthError::Conflict(_) => 409,
            AuthError::Internal(_) => 500,
        }
    }

    /// An error of the database.
    pub fn database(detail: &str) -> (error: AuthError)
        ensures
            error@ == AuthFault::Internal("数据库操作失败: "@ + detail@),
    {
        AuthError::Internal("数据库操作失败: ".to_owned().concat(detail))
    }
}

/// An accepted text or an error as a mathematical value.
pub open spec fn auth_outcome(result: Result<String, AuthError>) -> Result<Seq<char>, AuthFault> {
    match result {
        Ok(text) => Ok(text@),
        Err(error) => Err(error@),
    }
}

/// The error of a check, where it fails.
pub open spec fn auth_fault(result: Result<(), AuthError>) -> Option<AuthFault> {
    match result {
        Ok(_) => None,
        Err(error) => Some(error@),
    }
}

pub(crate) fn invalid_input(message: &str) -> (error: AuthError)
    ensures
        error@ == AuthFault::InvalidInput(message@),
{
    AuthError::InvalidInput(message.to_owned())
}

pub(crate) fn unauthorized(message: &str) -> (error: AuthError)
    ensures
        error@ == AuthFault::Unauthorized(message@),
{
    AuthError::Unauthorized(message.to_owned())
}

/// Kinds of errors have their statuses of HTTP: 400 for what was asked wrongly, 401 for who is not
/// signed in, 403 for what is not permitted, 409 for what stands in the way, and 500 for the rest.
pub proof fn errors_have_their_statuses(fault: AuthFault)
    ensures
        fault.status() == 400 <==> fault is InvalidInput,
        fault.status() == 401 <==> fault is Unauthorized,
        fault.status() == 403 <==> fault is Forbidden,
        fault.status() == 409 <==> fault is Conflict,
        fault.status() == 500 <==> fault is Internal,
{
}

} // verus!
