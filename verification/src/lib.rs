use vstd::prelude::*;

pub mod text;
pub mod order;
pub mod session;
pub mod recording;
pub mod paths;
pub mod capture;
pub mod audio;
pub mod streaming;
pub mod addon;
pub mod view_model;
pub mod ui;
pub mod compose;
pub mod settings;
pub mod channels;

verus! {

} // verus!
