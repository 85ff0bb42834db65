//! A headless-browser extension for a CFML engine: the decisions it makes
//! about URLs, text, navigation history and the commands it hands to the
//! browser service, each stated as a contract and proved.

pub mod text;
pub mod glob;
pub mod history;
pub mod error;
pub mod pdf;
pub mod dom;
pub mod service;
pub mod js;
pub mod json;
pub mod page;
pub mod browser;
pub mod markdown;
pub mod wait;
pub mod ink;
