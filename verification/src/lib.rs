//! Decision core of a small network connection manager: link selection,
//! scan merging, the connect phase machine and the policy that drives them.

pub mod attempt;
pub mod connection;
pub mod convert;
pub mod interfaces;
pub mod known;
pub mod network_info;
pub mod network_list;
pub mod network_order;
pub mod parsers;
pub mod policy;
pub mod proxy_tracker;
pub mod scan;
pub mod service;
pub mod signalmsg;
pub mod support;
pub mod text;
pub mod types;
