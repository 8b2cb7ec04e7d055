//! What can go wrong between a request and its result.

use vstd::prelude::*;
use crate::onu::session::{ApiResult, ApiResultModel};

verus! {

/// What a page was expected to hold and did not hold in a form that can be
/// read.
#[derive(Debug, Clone, Copy, PartialEq, Eq)]
pub enum Malformed {
    /// The number of records, `IF_INSTNUM`.
    Count,
    /// The protocol of a forwarding rule.
    Protocol,
    /// The first port of the range on the router's side.
    MinExtPort,
    /// The last port of the range on the router's side.
    MaxExtPort,
    /// The first port of the range on the local side.
    MinIntPort,
    /// The last port of the range on the local side.
    MaxIntPort,
    /// The mode of a connection.
    WanMode,
    /// The address mode of a connection.
    IpMode,
    /// The token that a login has to carry.
    LoginToken,
    /// The message that tells why a login was turned down.
    ErrorMessage,
    /// The session: its token, or the path of the next page.
    Session,
    /// The markup: the page is longer or holds more tags than can be parsed.
    Markup,
}

/// Why an operation did not give its result.
#[derive(Debug, Clone, PartialEq, Eq)]
pub enum OnuError {
    /// The router turned the login down; its message.
    Authentication(String),
    /// A page did not hold what was expected of it.
    Parse(Malformed),
    /// The router reported that a change was not made; its report as it came.
    Protocol(ApiResult),
    /// The action is one for the other operation.
    WrongAction,
    /// No rule of the list has the name asked for.
    NameNotFound,
    /// The position is beyond the last that a form can carry.
    PositionTooLarge,
}

/// The model of an `OnuError`.
pub enum OnuErrorModel {
    Authentication(Seq<char>),
    Parse(Malformed),
    Protocol(ApiResultModel),
    WrongAction,
    NameNotFound,
    PositionTooLarge,
}

impl DeepView for Malformed {
    type V = Malformed;

    open spec fn deep_view(&self) -> Malformed {
        *self
    }
}

impl DeepView for OnuError {
    type V = OnuErrorModel;

    open spec fn deep_view(&self) -> OnuErrorModel {
        match self {
            OnuError::Authentication(message) => OnuErrorModel::Authentication(message@),
            OnuError::Parse(what) => OnuErrorModel::Parse(*what),
            OnuError::Protocol(report) => OnuErrorModel::Protocol(report.deep_view()),
            OnuError::WrongAction => OnuErrorModel::WrongAction,
            OnuError::NameNotFound => OnuErrorModel::NameNotFound,
            OnuError::PositionTooLarge => OnuErrorModel::PositionTooLarge,
        }
    }
}

/// The model of a result: the model of what it holds, either way.
pub open spec fn result_model<T: DeepView, E: DeepView>(r: Result<T, E>) -> Result<T::V, E::V> {
    match r {
        Ok(t) => Ok(t.deep_view()),
        Err(e) => Err(e.deep_view()),
    }
}

} // verus!
