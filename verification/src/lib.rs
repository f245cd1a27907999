//! A command line option parser.
//!
//! Options are described by short pattern strings such as `-o=str!` or `name=pos@1`,
//! collected in a [`set::DefaultSet`], and matched against the command line arguments
//! by one of the parsers in [`parser`].

pub mod error;
pub mod id;
pub mod text;
pub mod arg;
pub mod callback;
pub mod opt;
pub mod nonopt;
pub mod ctx;
pub mod proc;
pub mod set;
pub mod parser;
pub mod help;
pub mod pattern;
pub mod utils;
pub mod tools;

use vstd::prelude::*;

use crate::error::{Error, Result};
use crate::arg::{ArgIterator, ArgIteratorView, IndexIterator};
use crate::parser::Parser;

verus! {

/// One parser's run over the arguments: the parser as it ended, the iterator it
/// started from and ended at, and its answer.
pub ghost struct ParseRun<P> {
    pub after: P,
    pub from: ArgIteratorView,
    pub to: ArgIteratorView,
    pub answer: Result<Option<bool>>,
}

/// The iterator after a reset: the same arguments, from the first on.
pub open spec fn reset_view(v: ArgIteratorView) -> ArgIteratorView {
    ArgIteratorView { index: 0, arg: None, next_arg: None, ..v }
}

/// The answer passes the arguments over to the next parser: no set (`None`), or a
/// request for the next parser (`Some(false)`).
pub open spec fn passes_on(answer: Result<Option<bool>>) -> bool {
    answer == Ok::<Option<bool>, Error>(None) || answer == Ok::<Option<bool>, Error>(Some(false))
}

/// Where the parser after a run starts reading: where the run ended, or from the
/// first argument when the run asked for the next parser.
pub open spec fn next_from<P>(run: ParseRun<P>) -> ArgIteratorView {
    if run.answer == Ok::<Option<bool>, Error>(Some(false)) { reset_view(run.to) } else { run.to }
}

/// `runs` are the runs of the first `runs.len()` parsers, in order, from the
/// iterator `start`: each parser starts where the one before it left the
/// iterator (reset after `Some(false)`), and every run but the last passed the
/// arguments over.
pub open spec fn ran<P: Parser>(parsers: Seq<P>, start: ArgIteratorView, runs: Seq<ParseRun<P>>) -> bool {
    &&& runs.len() <= parsers.len()
    &&& forall|j: int| 0 <= j < runs.len() ==> #[trigger] parsers[j].spec_parsed(runs[j].after, runs[j].from, runs[j].to, runs[j].answer)
    &&& runs.len() > 0 ==> runs[0].from == start
    &&& forall|j: int| 0 < j < runs.len() ==> #[trigger] runs[j].from == next_from(runs[j - 1])
    &&& forall|j: int| 0 <= j < runs.len() - 1 ==> passes_on(#[trigger] runs[j].answer)
}

/// Where the iterator stands after the runs.
pub open spec fn end_of<P>(start: ArgIteratorView, runs: Seq<ParseRun<P>>) -> ArgIteratorView {
    if runs.len() == 0 { start } else { next_from(runs.last()) }
}

/// Let the parsers parse the arguments of `iter` in turn, until one parses them:
/// the first parser starts where `iter` stands, each later one where the one
/// before left it, from the first argument again after a parser answered
/// `Some(false)`. The first parser that answers `Some(true)` is handed back as its
/// parse left it, and no later parser runs; the first error is handed back; when
/// every parser passed the arguments over, there is none to hand back.
pub fn getopt_impl<P: Parser>(iter: &mut ArgIterator, parsers: Vec<P>) -> (r: Result<Option<P>>)
    requires
        forall|k: int| 0 <= k < parsers@.len() ==> (#[trigger] parsers@[k]).spec_ready(old(iter)@.args.len()),
        old(iter)@.args.len() < usize::MAX,
    ensures
        final(iter)@.args == old(iter)@.args,
        exists|runs: Seq<ParseRun<P>>| #[trigger] ran(parsers@, old(iter)@, runs) && match r {
            Ok(None) => runs.len() == parsers@.len() && (runs.len() == 0 || passes_on(runs.last().answer))
                && final(iter)@ == end_of(old(iter)@, runs),
            Ok(Some(p)) => runs.len() > 0 && runs.last().answer == Ok::<Option<bool>, Error>(Some(true))
                && runs.last().after == p && final(iter)@ == runs.last().to,
            Err(e) => runs.len() > 0 && runs.last().answer == Err::<Option<bool>, Error>(e)
                && final(iter)@ == runs.last().to,
        },
{
    let ghost all = parsers@;
    let ghost start = iter@;
    let mut rest = parsers;
    let ghost mut runs: Seq<ParseRun<P>> = Seq::empty();
    while rest.len() > 0
        invariant
            runs.len() <= all.len(),
            all == parsers@,
            start == old(iter)@,
            rest@ == all.skip(runs.len() as int),
            iter@.args == start.args,
            old(iter)@.args.len() < usize::MAX,
            forall|k: int| 0 <= k < all.len() ==> (#[trigger] all[k]).spec_ready(old(iter)@.args.len()),
            ran(all, start, runs),
            runs.len() == 0 || passes_on(runs.last().answer),
            iter@ == end_of(start, runs),
        decreases rest@.len(),
    {
        let mut parser = rest.remove(0);
        let ghost k = runs.len() as int;
        assert(parser == all[k]);
        let ghost before = parser;
        let ghost i0 = iter@;
        let res = parser.parse_args(iter);
        let ghost i1 = iter@;
        let ghost run = ParseRun { after: parser, from: i0, to: i1, answer: res };
        let ghost runs1 = runs.push(run);
        proof {
            assert(runs1[k] == run);
            assert(ran(all, start, runs1)) by {
                assert forall|j: int| 0 <= j < runs1.len() implies #[trigger] all[j].spec_parsed(runs1[j].after, runs1[j].from, runs1[j].to, runs1[j].answer) by {
                    if j < k {
                        assert(runs1[j] == runs[j]);
                    }
                }
                assert forall|j: int| 0 < j < runs1.len() implies #[trigger] runs1[j].from == next_from(runs1[j - 1]) by {
                    if j < k {
                        assert(runs1[j] == runs[j]);
                        assert(runs1[j - 1] == runs[j - 1]);
                    } else {
                        assert(runs1[j - 1] == runs.last());
                    }
                }
                assert forall|j: int| 0 <= j < runs1.len() - 1 implies passes_on(#[trigger] runs1[j].answer) by {
                    assert(runs1[j] == runs[j]);
                    if j < k - 1 {
                    } else {
                        assert(runs[j] == runs.last());
                    }
                }
            }
        }
        let ret = match res {
            Ok(x) => x,
            Err(e) => {
                assert(runs1.last().answer == Err::<Option<bool>, Error>(e));
                return Err(e);
            },
        };
        match ret {
            Some(b) => {
                if b {
                    assert(runs1.last().after == parser);
                    return Ok(Some(parser));
                } else {
                    iter.reset();
                    assert(iter@ == reset_view(i1));
                }
            },
            None => {},
        }
        proof {
            runs = runs1;
            assert(rest@ =~= all.skip(runs.len() as int));
        }
    }
    assert(runs.len() == all.len());
    Ok(None)
}

} // verus!
