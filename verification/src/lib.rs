use vstd::prelude::*;

pub mod app;
pub mod keys;
pub mod layout;
pub mod order;
pub mod ports;
pub mod process;
pub mod projects;
pub mod scan;
pub mod text;
pub mod version;

verus! {

} // verus!
