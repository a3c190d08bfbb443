//! What inspectors of payloads are given and what they decide.

use vstd::prelude::*;
use vstd::string::*;

use crate::config::error::quoted;

verus! {

/// Errors of an inspection. `T` holds a text.
#[derive(Debug, Clone, PartialEq, Eq)]
pub enum InspectionError<T = String> {
    /// The inspector failed.
    Failed {
        /// Name of the inspector.
        name: T,
        /// Reason.
        reason: T,
    },
    /// The inspector panicked.
    Panicked {
        /// Name of the inspector.
        name: T,
    },
}

impl InspectionError<Seq<char>> {
    /// The text that tells a person what is wrong.
    pub open spec fn text(self) -> Seq<char> {
        match self {
            InspectionError::Failed { name, reason } => "Inspector '"@ + name + "' failed: "@
                + reason,
            InspectionError::Panicked { name } => "Inspector '"@ + name + "' panicked"@,
        }
    }
}

impl InspectionError {
    /// The error with its strings taken as character sequences.
    pub open spec fn view(self) -> InspectionError<Seq<char>> {
        match self {
            InspectionError::Failed { name, reason } => InspectionError::Failed {
                name: name@,
                reason: reason@,
            },
            InspectionError::Panicked { name } => InspectionError::Panicked { name: name@ },
        }
    }

    /// The text that tells a person what is wrong.
    pub fn message(&self) -> (r: String)
        ensures
            r@ == self@.text(),
    {
        match self {
            InspectionError::Failed { name, reason } => quoted(
                "Inspector '",
                name.as_str(),
                "' failed: ",
            ).concat(reason.as_str()),
            InspectionError::Panicked { name } => quoted("Inspector '", name.as_str(), "' panicked"),
        }
    }
}

/// What an inspector decides on a payload.
#[derive(Debug, Clone, PartialEq, Eq)]
pub enum Decision {
    /// Forward the payload as it is.
    Approve,
    /// Forward these bytes instead.
    Modify(Vec<u8>),
    /// Block the payload with this HTTP status code.
    Reject(u16),
}

impl Decision {
    /// Returns whether the payload is forwarded as it is.
    pub fn is_approve(&self) -> (r: bool)
        ensures
            r == (*self is Approve),
    {
        matches!(self, Decision::Approve)
    }

    /// Returns whether the payload is changed.
    pub fn is_modify(&self) -> (r: bool)
        ensures
            r == (*self is Modify),
    {
        matches!(self, Decision::Modify(_))
    }

    /// Returns whether the payload is blocked.
    pub fn is_reject(&self) -> (r: bool)
        ensures
            r == (*self is Reject),
    {
        matches!(self, Decision::Reject(_))
    }
}

/// What an inspector is told of the message that a payload belongs to.
#[derive(Debug, Clone)]
pub enum InspectionContext {
    /// A request.
    Request {
        /// HTTP method.
        method: String,
        /// URI.
        uri: String,
        /// Headers, in order.
        headers: Vec<(String, String)>,
    },
    /// A response.
    Response {
        /// HTTP status code.
        status: u16,
        /// Headers, in order.
        headers: Vec<(String, String)>,
    },
}

impl InspectionContext {
    /// Returns whether this is a request.
    pub fn is_request(&self) -> (r: bool)
        ensures
            r == (*self is Request),
    {
        matches!(self, InspectionContext::Request { .. })
    }

    /// Returns whether this is a response.
    pub fn is_response(&self) -> (r: bool)
        ensures
            r == (*self is Response),
    {
        matches!(self, InspectionContext::Response { .. })
    }

    /// Returns the headers.
    pub fn headers(&self) -> (r: &Vec<(String, String)>)
        ensures
            *r == match *self {
                InspectionContext::Request { headers, .. } => headers,
                InspectionContext::Response { headers, .. } => headers,
            },
    {
        match self {
            InspectionContext::Request { method, uri, headers } => headers,
            InspectionContext::Response { status, headers } => headers,
        }
    }

    /// Returns the URI of a request.
    pub fn uri(&self) -> (r: Option<&String>)
        ensures
            match *self {
                InspectionContext::Request { uri, .. } => r == Some(&uri),
                InspectionContext::Response { .. } => r is None,
            },
    {
        match self {
            InspectionContext::Request { method, uri, headers } => Some(uri),
            InspectionContext::Response { status, headers } => None,
        }
    }

    /// Returns the method of a request.
    pub fn method(&self) -> (r: Option<&String>)
        ensures
            match *self {
                InspectionContext::Request { method, .. } => r == Some(&method),
                InspectionContext::Response { .. } => r is None,
            },
    {
        match self {
            InspectionContext::Request { method, uri, headers } => Some(method),
            InspectionContext::Response { status, headers } => None,
        }
    }

    /// Returns the status code of a response.
    pub fn status(&self) -> (r: Option<u16>)
        ensures
            r == match *self {
                InspectionContext::Request { .. } => None::<u16>,
                InspectionContext::Response { status, .. } => Some(status),
            },
    {
        match self {
            InspectionContext::Request { method, uri, headers } => None,
            InspectionContext::Response { status, headers } => Some(*status),
        }
    }
}

/// An inspector of payloads.
pub trait Inspector {
    /// Returns the name of the inspector.
    fn name(&self) -> &'static str;

    /// Inspects a payload and decides on it.
    fn inspect(&self, body: &[u8], ctx: &InspectionContext) -> Result<Decision, InspectionError>;
}

/// An inspector that approves everything.
#[derive(Debug, Clone, Copy, PartialEq, Eq, Structural)]
pub struct NoOpInspector;

impl Inspector for NoOpInspector {
    fn name(&self) -> (r: &'static str)
        ensures
            r@ == "noop"@,
    {
        "noop"
    }

    fn inspect(&self, body: &[u8], ctx: &InspectionContext) -> (r: Result<Decision, InspectionError>)
        ensures
            r is Ok && r->Ok_0 is Approve,
    {
        Ok(Decision::Approve)
    }
}

} // verus!
