//! Request methods.

use vstd::prelude::*;

verus! {

/// The method of an inbound request.
#[derive(Clone, Copy, Debug, PartialEq, Eq, Structural)]
pub enum Method {
    Get,
    Head,
    Post,
    Put,
    Delete,
    Connect,
    Options,
    Trace,
    Patch,
    /// Any method outside the standard set.
    NonStandard,
}

/// How an accepted request is answered once its file is known.
#[derive(Clone, Copy, Debug, PartialEq, Eq, Structural)]
pub enum Mode {
    /// Headers only, with the size of the file.
    HeadersOnly,
    /// The content of the file.
    Download,
}

/// The mode in which a method is served; `None` for a method that is refused.
pub open spec fn mode_of(method: Method) -> Option<Mode> {
    match method {
        Method::Get => Some(Mode::Download),
        Method::Head => Some(Mode::HeadersOnly),
        _ => None,
    }
}

impl Method {
    /// Only `GET` and `HEAD` are served.
    pub fn mode(&self) -> (out: Option<Mode>)
        ensures
            out == mode_of(*self),
    {
        match self {
            Method::Get => Some(Mode::Download),
            Method::Head => Some(Mode::HeadersOnly),
            _ => None,
        }
    }
}

} // verus!
