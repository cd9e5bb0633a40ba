//! Turns one declarative instruction document into several AI-assistant
//! rule files and keeps the generated files reconciled against the
//! configuration: rendering, parsing back, diffing, and deciding the
//! filesystem action for each output path.

pub mod builder;
pub mod common;
pub mod defaults;
pub mod diff;
pub mod formats;
pub mod generate;
pub mod model;
pub mod multiple;
pub mod opts;
pub mod parse;
pub mod reconcile;
pub mod render;
pub mod roundtrip;
pub mod text;
pub mod watch;
