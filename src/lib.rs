//! Control-plane logic of a zero-trust host firewall whose data plane is an
//! XDP packet classifier: the byte layout of the shared session map, the rule
//! manager's operations on it, and the decisions of the session service.
pub mod codec;
pub mod rules;
pub mod lemmas;
pub mod clock;
pub mod capabilities;
pub mod service;
pub mod textutil;
pub mod config;
pub mod verdict;
