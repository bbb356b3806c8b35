//! A small multi-client text broadcast service: the wire codec, the registry
//! of live connections and the decisions of the dispatcher and its tasks.

pub mod acceptor;
pub mod banner;
pub mod client;
pub mod client_ui;
pub mod consts;
pub mod dispatcher;
pub mod identity;
pub mod layout;
pub mod message;
pub mod reader;
pub mod registry;
pub mod utils;
pub mod width;
