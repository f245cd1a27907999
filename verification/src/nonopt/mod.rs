use vstd::prelude::*;

pub mod pos;
pub mod cmd;
pub mod main;

use crate::opt::Opt;

verus! {

/// A non-option: an argument that is not an option, matched by its position.
pub trait NonOpt: Opt {

}

} // verus!
