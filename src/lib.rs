pub mod args;
pub mod broker;
pub mod dispatcher;
pub mod environment;
pub mod error;
pub mod launcher;
pub mod link;
pub mod path;
pub mod script;
pub mod string_map;
