//! Verified core of a compute-sharing node: parsing of the kernel's
//! status files, the node's bookkeeping of hosted services, request
//! routing and the framing of the messages it exchanges.

pub mod text;
pub mod sys_stat;
pub mod json;
pub mod message;
pub mod service;
pub mod api;
pub mod cli;
