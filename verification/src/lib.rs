use vstd::prelude::*;

pub mod inventory;
pub mod json;
pub mod monitor;
pub mod rpc;
pub mod settings;
pub mod shell;
pub mod tabs;
pub mod summary;
pub mod text;

verus! {

} // verus!
