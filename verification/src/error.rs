//! What can go wrong while an `Echo` is reconciled.

use vstd::prelude::*;

verus! {

/// HTTP status with which the API server rejects a change to a field that
/// cannot be changed in place.
pub const UNPROCESSABLE: u16 = 422;

/// HTTP status with which the API server answers for an object that is not
/// there.
pub const NOT_FOUND: u16 = 404;

/// A call to the API server that failed.
#[derive(Debug)]
pub struct ApiFailure {
    /// The HTTP status of the answer; `None` where no answer came.
    pub code: Option<u16>,
    pub reason: String,
}

/// An `ApiFailure` as plain values.
pub struct ApiFailureView {
    pub code: Option<u16>,
    pub reason: Seq<char>,
}

impl View for ApiFailure {
    type V = ApiFailureView;

    open spec fn view(&self) -> ApiFailureView {
        ApiFailureView { code: self.code, reason: self.reason@ }
    }
}

impl DeepView for ApiFailure {
    type V = ApiFailureView;

    open spec fn deep_view(&self) -> ApiFailureView {
        self@
    }
}

impl Clone for ApiFailure {
    fn clone(&self) -> (copy: ApiFailure)
        ensures
            copy@ == self@,
    {
        ApiFailure { code: self.code, reason: self.reason.clone() }
    }
}

impl ApiFailureView {
    /// The server refused a change to an immutable field.
    pub open spec fn is_conflict(self) -> bool {
        self.code == Some(UNPROCESSABLE)
    }

    /// The server did not find the object.
    pub open spec fn is_not_found(self) -> bool {
        self.code == Some(NOT_FOUND)
    }
}

impl ApiFailure {
    /// Tells whether the server refused a change to an immutable field.
    pub fn is_conflict(&self) -> (conflict: bool)
        ensures
            conflict == self@.is_conflict(),
    {
        match self.code {
            Some(code) => code == UNPROCESSABLE,
            None => false,
        }
    }

    /// Tells whether the server did not find the object.
    pub fn is_not_found(&self) -> (missing: bool)
        ensures
            missing == self@.is_not_found(),
    {
        match self.code {
            Some(code) => code == NOT_FOUND,
            None => false,
        }
    }
}

/// The errors of the operator.
#[derive(Debug)]
pub enum Error {
    /// A call to the API server failed.
    KubeError(ApiFailure),
    /// The resource lacks something that the operator needs.
    UserInputError(String),
    /// An object that the operator depends on is not known yet.
    MissingObject(&'static str),
    /// An object that the operator depends on lacks a field.
    MissingObjectKey(&'static str),
    /// The metrics could not be written out.
    FormattingError,
    /// A trace has no valid id.
    InvalidTraceId,
}

/// An `Error` as plain values.
pub enum ErrorView {
    KubeError(ApiFailureView),
    UserInputError(Seq<char>),
    MissingObject(Seq<char>),
    MissingObjectKey(Seq<char>),
    FormattingError,
    InvalidTraceId,
}

impl View for Error {
    type V = ErrorView;

    open spec fn view(&self) -> ErrorView {
        match self {
            Error::KubeError(failure) => ErrorView::KubeError(failure@),
            Error::UserInputError(what) => ErrorView::UserInputError(what@),
            Error::MissingObject(what) => ErrorView::MissingObject(what@),
            Error::MissingObjectKey(what) => ErrorView::MissingObjectKey(what@),
            Error::FormattingError => ErrorView::FormattingError,
            Error::InvalidTraceId => ErrorView::InvalidTraceId,
        }
    }
}

impl DeepView for Error {
    type V = ErrorView;

    open spec fn deep_view(&self) -> ErrorView {
        self@
    }
}

impl ErrorView {
    /// The kind of the error, as the failure metric is labelled with it.
    pub open spec fn metric_label(self) -> Seq<char> {
        match self {
            ErrorView::KubeError(_) => "kubeerror"@,
            ErrorView::UserInputError(_) => "userinputerror"@,
            ErrorView::MissingObject(_) => "missingobject"@,
            ErrorView::MissingObjectKey(_) => "missingobjectkey"@,
            ErrorView::FormattingError => "formattingerror"@,
            ErrorView::InvalidTraceId => "invalidtraceid"@,
        }
    }

    /// The error in words.
    pub open spec fn message(self) -> Seq<char> {
        match self {
            ErrorView::KubeError(failure) => "Kube Error: "@ + failure.reason,
            ErrorView::UserInputError(what) => "Invalid Echo CRD: "@ + what,
            ErrorView::MissingObject(what) => "Missing object: "@ + what,
            ErrorView::MissingObjectKey(what) => "Missing object key: "@ + what,
            ErrorView::FormattingError => "Formatting Error"@,
            ErrorView::InvalidTraceId => "Invalid Trace ID"@,
        }
    }
}

impl Error {
    /// The kind of the error, as the failure metric is labelled with it.
    pub fn metric_label(&self) -> (label: String)
        ensures
            label@ == self@.metric_label(),
    {
        match self {
            Error::KubeError(_) => "kubeerror".to_owned(),
            Error::UserInputError(_) => "userinputerror".to_owned(),
            Error::MissingObject(_) => "missingobject".to_owned(),
            Error::MissingObjectKey(_) => "missingobjectkey".to_owned(),
            Error::FormattingError => "formattingerror".to_owned(),
            Error::InvalidTraceId => "invalidtraceid".to_owned(),
        }
    }

    /// The error in words.
    pub fn message(&self) -> (text: String)
        ensures
            text@ == self@.message(),
    {
        match self {
            Error::KubeError(failure) => "Kube Error: ".to_owned().concat(
                failure.reason.as_str(),
            ),
            Error::UserInputError(what) => "Invalid Echo CRD: ".to_owned().concat(what.as_str()),
            Error::MissingObject(what) => "Missing object: ".to_owned().concat(what),
            Error::MissingObjectKey(what) => "Missing object key: ".to_owned().concat(what),
            Error::FormattingError => "Formatting Error".to_owned(),
            Error::InvalidTraceId => "Invalid Trace ID".to_owned(),
        }
    }
}

} // verus!
