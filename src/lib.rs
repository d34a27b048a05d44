use vstd::prelude::*;

pub mod convert;
pub mod library;
pub mod media;
pub mod paths;
pub mod session;
pub mod settings;
pub mod text;
pub mod workshop;

verus! {

} // verus!
