//! Core of a package installer's build pipeline: the line-oriented protocol
//! that drives an out-of-process build-backend daemon, and the hash policy
//! that decides which archives a resolution may accept.
pub mod command;
pub mod daemon;
pub mod digest;
pub mod hooks;
pub mod package_id;
pub mod pep508;
pub mod protocol;
pub mod requirement;
pub mod strategy;
pub mod strutil;
