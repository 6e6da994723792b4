use vstd::prelude::*;

pub mod json;
pub mod output;
pub mod resolver;
pub mod resources;
pub mod sanitize;
pub mod suse_edge;
pub mod text;

verus! {

} // verus!
