use vstd::prelude::*;

pub mod gen;
pub mod check;
pub mod forward;
pub mod driver;
pub mod pre;
pub mod delay;
pub mod model;
pub mod waiting;

pub use self::gen::GenStyle;

use crate::error::{Error, Result};
use crate::arg::{ArgIterator, ArgIteratorView};

verus! {

/// A parser of command line arguments for a set of options.
pub trait Parser: Sized {
    /// The parser has a set to parse for.
    spec fn spec_has_set(&self) -> bool;

    /// The parser can parse a command line of `n` arguments.
    spec fn spec_ready(&self, n: nat) -> bool;

    /// What parsing from the iterator `i0` makes of the parser: it ends as `after`,
    /// with the iterator at `i1` and the answer `r`.
    spec fn spec_parsed(self, after: Self, i0: ArgIteratorView, i1: ArgIteratorView, r: Result<Option<bool>>) -> bool;

    /// Parse the arguments of `iter` from its position on: without a set the
    /// parser answers `None` and leaves the arguments alone; with one it answers
    /// whether it parsed them (`Some(false)` asks for the arguments to be handed
    /// to the next parser from their start), or fails.
    fn parse_args(&mut self, iter: &mut ArgIterator) -> (r: Result<Option<bool>>)
        requires
            old(self).spec_ready(old(iter)@.args.len()),
            old(iter)@.args.len() < usize::MAX,
        ensures
            final(iter)@.args == old(iter)@.args,
            !old(self).spec_has_set() ==> r == Ok::<Option<bool>, Error>(None) && final(iter)@ == old(iter)@,
            old(self).spec_has_set() ==> final(self).spec_has_set(),
            Self::spec_parsed(*old(self), *final(self), old(iter)@, final(iter)@, r),
    ;
}

} // verus!
