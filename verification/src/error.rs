//! The errors that the parts of the runtime share.

use crate::text::concat;
use vstd::prelude::*;

verus! {

#[derive(Debug)]
pub enum Error {
    Io(String),
    Config(String),
    Bus(String),
    Rmp(String),
    Runtime(String),
    Kb(String),
    Broker(String),
    Router(String),
    Opening(String),
    CapDenied(String),
    Timeout(String),
    BudgetExceeded(String),
}

pub ghost enum ErrorModel {
    Io(Seq<char>),
    Config(Seq<char>),
    Bus(Seq<char>),
    Rmp(Seq<char>),
    Runtime(Seq<char>),
    Kb(Seq<char>),
    Broker(Seq<char>),
    Router(Seq<char>),
    Opening(Seq<char>),
    CapDenied(Seq<char>),
    Timeout(Seq<char>),
    BudgetExceeded(Seq<char>),
}

/// An error as it is told.
pub open spec fn error_text(e: ErrorModel) -> Seq<char> {
    match e {
        ErrorModel::Io(m) => "I/O error: "@ + m,
        ErrorModel::Config(m) => "configuration error: "@ + m,
        ErrorModel::Bus(m) => "bus error: "@ + m,
        ErrorModel::Rmp(m) => "rmp error: "@ + m,
        ErrorModel::Runtime(m) => "runtime error: "@ + m,
        ErrorModel::Kb(m) => "kb error: "@ + m,
        ErrorModel::Broker(m) => "broker error: "@ + m,
        ErrorModel::Router(m) => "router error: "@ + m,
        ErrorModel::Opening(m) => "opening error: "@ + m,
        ErrorModel::CapDenied(m) => "capability denied: "@ + m,
        ErrorModel::Timeout(m) => "timeout exceeded: "@ + m,
        ErrorModel::BudgetExceeded(m) => "budget exceeded: "@ + m,
    }
}

impl Error {
    pub open spec fn view(self) -> ErrorModel {
        match self {
            Error::Io(m) => ErrorModel::Io(m@),
            Error::Config(m) => ErrorModel::Config(m@),
            Error::Bus(m) => ErrorModel::Bus(m@),
            Error::Rmp(m) => ErrorModel::Rmp(m@),
            Error::Runtime(m) => ErrorModel::Runtime(m@),
            Error::Kb(m) => ErrorModel::Kb(m@),
            Error::Broker(m) => ErrorModel::Broker(m@),
            Error::Router(m) => ErrorModel::Router(m@),
            Error::Opening(m) => ErrorModel::Opening(m@),
            Error::CapDenied(m) => ErrorModel::CapDenied(m@),
            Error::Timeout(m) => ErrorModel::Timeout(m@),
            Error::BudgetExceeded(m) => ErrorModel::BudgetExceeded(m@),
        }
    }

    pub fn message(&self) -> (r: String)
        ensures
            r@ == error_text(self@),
    {
        match self {
            Error::Io(m) => concat("I/O error: ", m.as_str()),
            Error::Config(m) => concat("configuration error: ", m.as_str()),
            Error::Bus(m) => concat("bus error: ", m.as_str()),
            Error::Rmp(m) => concat("rmp error: ", m.as_str()),
            Error::Runtime(m) => concat("runtime error: ", m.as_str()),
            Error::Kb(m) => concat("kb error: ", m.as_str()),
            Error::Broker(m) => concat("broker error: ", m.as_str()),
            Error::Router(m) => concat("router error: ", m.as_str()),
            Error::Opening(m) => concat("opening error: ", m.as_str()),
            Error::CapDenied(m) => concat("capability denied: ", m.as_str()),
            Error::Timeout(m) => concat("timeout exceeded: ", m.as_str()),
            Error::BudgetExceeded(m) => concat("budget exceeded: ", m.as_str()),
        }
    }
}

} // verus!
