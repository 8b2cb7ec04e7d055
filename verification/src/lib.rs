//! Client-side protocol logic for the web administration pages of an optical
//! network unit: text extraction, typed records and the session rules.

pub mod hosts;
pub mod onu;
pub mod report;
pub mod rfc6238;
pub mod text;
