//! The errors of the services.

use vstd::prelude::*;

verus! {

/// What can go wrong in a service call.
#[derive(Debug, Clone)]
pub enum AppError {
    NotFound(String),
    Unauthorized,
    BadRequest(String),
    Validation(String),
    Database(String),
    Internal(String),
}

/// The mathematical content of an [`AppError`].
pub enum AppErrorView {
    NotFound(Seq<char>),
    Unauthorized,
    BadRequest(Seq<char>),
    Validation(Seq<char>),
    Database(Seq<char>),
    Internal(Seq<char>),
}

impl View for AppError {
    type V = AppErrorView;

    open spec fn view(&self) -> AppErrorView {
        match *self {
            AppError::NotFound(m) => AppErrorView::NotFound(m@),
            AppError::Unauthorized => AppErrorView::Unauthorized,
            AppError::BadRequest(m) => AppErrorView::BadRequest(m@),
            AppError::Validation(m) => AppErrorView::Validation(m@),
            AppError::Database(m) => AppErrorView::Database(m@),
            AppError::Internal(m) => AppErrorView::Internal(m@),
        }
    }
}

impl AppErrorView {
    /// The error as a line of text: what kind it is, then its detail.
    pub open spec fn message(self) -> Seq<char> {
        match self {
            AppErrorView::NotFound(m) => "not found: "@ + m,
            AppErrorView::Unauthorized => "unauthorized"@,
            AppErrorView::BadRequest(m) => "bad request: "@ + m,
            AppErrorView::Validation(m) => "validation error: "@ + m,
            AppErrorView::Database(m) => "database error: "@ + m,
            AppErrorView::Internal(m) => "internal error: "@ + m,
        }
    }

    /// The HTTP status that answers the error.
    pub open spec fn status(self) -> u16 {
        match self {
            AppErrorView::Validation(_) => 400,
            AppErrorView::BadRequest(_) => 400,
            AppErrorView::Unauthorized => 401,
            AppErrorView::NotFound(_) => 404,
            AppErrorView::Database(_) => 500,
            AppErrorView::Internal(_) => 500,
        }
    }

    /// The detail that is shown to the caller.
    pub open spec fn detail(self) -> Seq<char> {
        match self {
            AppErrorView::NotFound(m) => m,
            AppErrorView::Unauthorized => "unauthorized"@,
            AppErrorView::BadRequest(m) => m,
            AppErrorView::Validation(m) => m,
            AppErrorView::Database(m) => m,
            AppErrorView::Internal(m) => m,
        }
    }
}

fn prefixed(kind: &str, detail: &String) -> (out: String)
    ensures
        out@ == kind@ + detail@,
{
    let mut out: String = kind.to_owned();
    out.append(detail.as_str());
    out
}

impl AppError {
    /// The error as a line of text.
    pub fn message(&self) -> (text: String)
        ensures
            text@ == self@.message(),
    {
        match self {
            AppError::NotFound(m) => prefixed("not found: ", m),
            AppError::Unauthorized => "unauthorized".to_owned(),
            AppError::BadRequest(m) => prefixed("bad request: ", m),
            AppError::Validation(m) => prefixed("validation error: ", m),
            AppError::Database(m) => prefixed("database error: ", m),
            AppError::Internal(m) => prefixed("internal error: ", m),
        }
    }

    /// The HTTP status that answers the error.
    pub fn status_code(&self) -> (code: u16)
        ensures
            code == self@.status(),
    {
        match self {
            AppError::Validation(_) => 400,
            AppError::BadRequest(_) => 400,
            AppError::Unauthorized => 401,
            AppError::NotFound(_) => 404,
            AppError::Database(_) => 500,
            AppError::Internal(_) => 500,
        }
    }

    /// The detail that is shown to the caller.
    pub fn detail(&self) -> (text: String)
        ensures
            text@ == self@.detail(),
    {
        match self {
            AppError::NotFound(m) => m.clone(),
            AppError::Unauthorized => "unauthorized".to_owned(),
            AppError::BadRequest(m) => m.clone(),
            AppError::Validation(m) => m.clone(),
            AppError::Database(m) => m.clone(),
            AppError::Internal(m) => m.clone(),
        }
    }
}

} // verus!
