//! The administration pages: what they hold, how it is read, and how the
//! requests that change it are put together.

pub mod changes;
pub mod context;
pub mod dom;
pub mod error;
pub mod lan;
pub mod login;
pub mod port_forwarding;
pub mod records;
pub mod session;
pub mod token_call;
pub mod wan;
pub mod wanc;

pub use crate::onu::changes::{Pending, Step};
pub use crate::onu::context::Context;
pub use crate::onu::dom::KeyValueTable;
pub use crate::onu::error::{Malformed, OnuError};
pub use crate::onu::lan::LanInfo;
pub use crate::onu::login::{LoginExchange, LoginStage, LoginStep};
pub use crate::onu::port_forwarding::{
    PortForwardingAction, PortForwardingHost, PortForwardingParam, PortForwardingPort,
    PortForwardingProtocol,
};
pub use crate::onu::session::{ApiResult, Method, Request, Session};
pub use crate::onu::token_call::parse_transfer_meaning;
pub use crate::onu::wan::{Wan6Info, WanInfo, WanIpInfo};
pub use crate::onu::wanc::WancInfo;
