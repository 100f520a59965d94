//! Why a removal did not happen.

use crate::text::{decimal, digits};
use vstd::prelude::*;
use vstd::string::StringExecFns;

verus! {

/// A removal refused for want of rage: what the node is called, the rage at
/// hand and the rage required.
#[derive(Debug, PartialEq, Eq)]
pub struct RageError {
    pub ft: String,
    pub rage: usize,
    pub req: usize,
}

pub struct RageErrorView {
    pub ft: Seq<char>,
    pub rage: usize,
    pub req: usize,
}

impl View for RageError {
    type V = RageErrorView;

    open spec fn view(&self) -> RageErrorView {
        RageErrorView { ft: self.ft@, rage: self.rage, req: self.req }
    }
}

impl RageErrorView {
    /// The refusal in words.
    pub open spec fn message(self) -> Seq<char> {
        "unable to remove "@ + self.ft + ", rage level less than "@ + digits(self.req as nat)
            + ": "@ + digits(self.rage as nat)
    }
}

impl RageError {
    pub fn new(ft: &str, rage: usize, req: usize) -> (r: RageError)
        ensures
            r@ == (RageErrorView { ft: ft@, rage, req }),
    {
        RageError { ft: ft.to_owned(), rage, req }
    }

    pub fn message(&self) -> (r: String)
        ensures
            r@ == self@.message(),
    {
        let mut m = "unable to remove ".to_owned();
        m.append(self.ft.as_str());
        m.append(", rage level less than ");
        m.append(decimal(self.req).as_str());
        m.append(": ");
        m.append(decimal(self.rage).as_str());
        m
    }
}

/// Why a removal did not happen.
#[derive(Debug, PartialEq, Eq)]
pub enum Error {
    /// The filesystem refused; the text is its message.
    Io(String),
    /// There was not rage enough.
    Rage(RageError),
}

pub enum ErrorView {
    Io(Seq<char>),
    Rage(RageErrorView),
}

impl View for Error {
    type V = ErrorView;

    open spec fn view(&self) -> ErrorView {
        match self {
            Error::Io(m) => ErrorView::Io(m@),
            Error::Rage(e) => ErrorView::Rage(e@),
        }
    }
}

impl ErrorView {
    pub open spec fn message(self) -> Seq<char> {
        match self {
            ErrorView::Io(m) => "io error: "@ + m,
            ErrorView::Rage(e) => "rage error: "@ + e.message(),
        }
    }
}

impl Error {
    pub fn message(&self) -> (r: String)
        ensures
            r@ == self@.message(),
    {
        match self {
            Error::Io(m) => {
                let mut out = "io error: ".to_owned();
                out.append(m.as_str());
                out
            },
            Error::Rage(e) => {
                let mut out = "rage error: ".to_owned();
                out.append(e.message().as_str());
                out
            },
        }
    }
}

} // verus!
