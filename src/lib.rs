//! A client for a tag-annotated, IRC-style chat protocol carried over a
//! persistent socket: the wire format, the routing of inbound lines, and the
//! connection lifecycle, each stated and proved over a mathematical model.
//!
//! * `text`: scanning, splitting and trimming character sequences;
//! * `parser`: tag blocks, tag-value escapes and chat messages;
//! * `dispatch`: frames into lines, lines into parts, commands into events;
//! * `actor`: the connection supervisor (running flag, channel, outbound
//!   queue) and the decisions of its session loop;
//! * `user`: the user name carried by the stored identity token;
//! * `models`, `badges`, `error`: credentials, the badge cache, errors.
pub mod actor;
pub mod badges;
pub mod dispatch;
pub mod error;
pub mod models;
pub mod parser;
pub mod text;
pub mod user;
