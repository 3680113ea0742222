use vstd::prelude::*;

pub mod api;
pub mod artifact;
pub mod bridge;
pub mod budget;
pub mod cancel;
pub mod change;
pub mod codec;
pub mod computer;
pub mod decide;
pub mod digits;
pub mod document;
pub mod driver;
pub mod e2b;
pub mod engine;
pub mod envelope;
pub mod error;
pub mod event;
pub mod ids;
pub mod join;
pub mod json;
pub mod laws;
pub mod look;
pub mod mem;
pub mod money;
pub mod progress;
pub mod resource;
pub mod run;
pub mod sandbox;
pub mod signal;
pub mod spelling;
pub mod sql_encoding;
pub mod step;
pub mod store;
pub mod sweet;
pub mod testkit;
pub mod text;
pub mod time;
pub mod wire;

verus! {

} // verus!
