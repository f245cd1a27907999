use vstd::prelude::*;

use crate::error::{Error, Result};
use crate::id::{DefaultIdGen, IdGenerator, Identifier};
use crate::callback::{CallbackType, OptCallback};
use crate::opt::OptionInfo;
use crate::opt::common::{CommonOpt, is_opt_kind};
use crate::arg::{ArgIterator, ArgIteratorView, strings_view};
use crate::proc::Proc;
use crate::set::{DefaultSet, Publisher, same_but_values};
use super::check::{callback_fits, nonopts_ok, opts_ok};
use super::forward::{
    ForwardParser, all_fit, covered, infos_valid, keeps_frame, reg_opts, same_callbacks,
    callback_idle, fresh, same_statics, touched_by, untouched, whole, answer_value,
};
use super::driver::{fails_nowhere, frame_kept, pre_noa, spec_noa};
use super::model::{agree_opts, parse_values, values_of};

verus! {

/// A parser that matches the arguments as the forward parser does, but lets an
/// option that fails to process an argument leave it as it was, and goes on: such
/// an argument still counts as taken, and an option that fails to take the next
/// argument as its value leaves that argument in place.
pub struct PreParser {
    pub core: ForwardParser,
}

impl PreParser {
    pub fn new(msg_id_gen: DefaultIdGen) -> (r: Self)
        ensures
            r.core.msg_id_gen == msg_id_gen,
            r.core.cached_infos@.len() == 0,
            r.core.noa@.len() == 0,
            r.core.set is None,
            !r.core.argument_matched,
            r.core.callbacks@.dom().is_empty(),
    {
        PreParser { core: ForwardParser::new(msg_id_gen) }
    }

    pub fn set_argument_matched(&mut self)
        ensures
            final(self).core.argument_matched,
            final(self).core.msg_id_gen == old(self).core.msg_id_gen,
            final(self).core.cached_infos == old(self).core.cached_infos,
            final(self).core.noa == old(self).core.noa,
            final(self).core.set == old(self).core.set,
            final(self).core.callbacks == old(self).core.callbacks,
    {
        self.core.set_argument_matched();
    }

    /// The prefixes of the set the parser parses for.
    pub fn get_prefix(&self) -> (r: &Vec<String>)
        requires
            self.core.set is Some,
        ensures
            *r == self.core.set->0.prefixs,
    {
        self.core.get_prefix()
    }

    /// Invoke the callback registered for the option `id`, if there is one.
    pub fn invoke_callback(&mut self, id: Identifier, callback_type: CallbackType, index: u64) -> (r: Result<bool>)
        requires
            old(self).core.set is Some,
            id.0 < old(self).core.set->0.opts@.len(),
        ensures
            keeps_frame(final(self).core, old(self).core),
            final(self).core.msg_id_gen == old(self).core.msg_id_gen,
            final(self).core.argument_matched == old(self).core.argument_matched,
            forall|j: int| 0 <= j < old(self).core.set->0.opts@.len() && j != id.0 ==> #[trigger] final(self).core.set->0.opts@[j]
                == old(self).core.set->0.opts@[j],
            final(self).core.set->0.opts@[id.0 as int].callback == old(self).core.set->0.opts@[id.0 as int].callback,
            final(self).core.set->0.opts@[id.0 as int].value@ == old(self).core.set->0.opts@[id.0 as int].value@
                || exists|b: bool| final(self).core.set->0.opts@[id.0 as int].value@ == #[trigger] answer_value(
                    old(self).core.set->0.opts@[id.0 as int], b),
            r is Ok && !callback_idle(old(self).core, id, callback_type, index) && callback_type != CallbackType::Value
                ==> exists|b: bool| final(self).core.set->0.opts@[id.0 as int].value@ == #[trigger] answer_value(
                    old(self).core.set->0.opts@[id.0 as int], b),
            (callback_type == CallbackType::Value || callback_type == CallbackType::Null) ==> final(self).core.set->0.opts@[id.0 as int] == old(self).core.set->0.opts@[id.0 as int],
            r is Err ==> final(self).core.set == old(self).core.set && final(self).core.noa == old(self).core.noa,
            r is Ok ==> r == Ok::<bool, Error>(true),
            callback_idle(old(self).core, id, callback_type, index) ==> r == Ok::<bool, Error>(true) && final(self).core == old(self).core,
            super::forward::callback_invoked(old(self).core, final(self).core, id, callback_type, index, r),
    {
        self.core.invoke_callback(id, callback_type, index)
    }

    /// Match the proc against the options, in the order of the information the
    /// parser keeps, until every context of the proc matched; an option that fails
    /// to process a context leaves it matched and the option as it was. It answers
    /// whether all contexts matched. Where an option fails on one of several
    /// contexts, the proc stops there: the contexts after it may match later
    /// options. What it does is stated for a proc just made; one that matched
    /// before only keeps the set's static parts as they are.
    pub fn publish<P: Proc>(&mut self, proc: P) -> (r: Result<bool>)
        requires
            old(self).core.set is Some,
            infos_valid(old(self).core.cached_infos@, old(self).core.set->0.opts@.len()),
            all_fit(old(self).core.set->0.opts@),
            proc.spec_ready(),
        ensures
            keeps_frame(final(self).core, old(self).core),
            final(self).core.msg_id_gen == old(self).core.msg_id_gen,
            all_fit(final(self).core.set->0.opts@),
            old(self).core.callbacks@.dom().is_empty() ==> r is Ok,
            r is Err && fresh(proc) ==> super::forward::may_err(proc.spec_ctxs(), reg_opts(old(self).core.set->0.opts@,
                old(self).core.cached_infos@), old(self).core.cached_infos@, old(self).core.callbacks@),
            r matches Ok(m) ==> (final(self).core.argument_matched ==> old(self).core.argument_matched || m),
            r is Err ==> final(self).core.argument_matched == old(self).core.argument_matched,
            fresh(proc) && r is Ok ==> forall|i: int| 0 <= i < old(self).core.set->0.opts@.len() && !touched_by(proc.spec_ctxs(), #[trigger] old(self).core.set->0.opts@[i])
                ==> untouched(final(self).core.set->0.opts@[i], old(self).core.set->0.opts@[i]),
            r matches Ok(m) ==> (fresh(proc) && m ==> covered(proc.spec_ctxs(), reg_opts(old(self).core.set->0.opts@, old(self).core.cached_infos@))),
            r matches Ok(m) ==> (fresh(proc) && whole(true, proc.spec_ctxs()) ==> m == covered(proc.spec_ctxs(), reg_opts(old(self).core.set->0.opts@, old(self).core.cached_infos@))),
            r matches Ok(m) ==> (fresh(proc) && whole(true, proc.spec_ctxs()) ==> (final(self).core.argument_matched ==> old(self).core.argument_matched || (m && proc.spec_ctxs()[0].skip()))),
            r matches Ok(m) ==> (fresh(proc) && whole(true, proc.spec_ctxs()) && m && proc.spec_ctxs()[0].skip() && (proc.spec_ctxs().len() != 1 || !super::forward::may_fail(
                proc.spec_ctxs()[0], reg_opts(old(self).core.set->0.opts@, old(self).core.cached_infos@))) ==> final(self).core.argument_matched),
            fresh(proc) && r is Ok && proc.spec_ctxs().len() == 1 && final(self).core.argument_matched && !old(self).core.argument_matched
                ==> super::forward::may_succeed(proc.spec_ctxs()[0], reg_opts(old(self).core.set->0.opts@, old(self).core.cached_infos@)),
    {
        let (m, _) = self.core.publish_core(proc, true, Ghost(Seq::empty()))?;
        Ok(m)
    }

    /// Parse the arguments of `iter` from its position on, as the forward parser
    /// does, but without failing where an option fails to process an argument:
    /// such an argument counts as taken, and an option that fails to take the next
    /// argument as its value leaves that argument to be a non-option argument. Then
    /// the options are checked, the non-option arguments are matched against the
    /// `cmd` and `pos` non-options, the non-options are checked, and at last the
    /// `main` non-option is matched. An option that no argument names keeps its
    /// value. Where no option can fail on the arguments, the parse leaves the
    /// non-option arguments and the values that the forward parser leaves. With no
    /// callback registered, it fails only where the options or the non-options do
    /// not pass their checks.
    pub fn parse(&mut self, iter: &mut ArgIterator) -> (r: Result<Option<bool>>)
        requires
            old(self).core.set is Some ==> infos_valid(old(self).core.cached_infos@, old(self).core.set->0.opts@.len())
                && all_fit(old(self).core.set->0.opts@),
            old(self).core.msg_id_gen.spec_next() + 6 * old(iter)@.args.len() + old(self).core.noa@.len() + 4 <= u64::MAX,
            old(iter)@.args.len() < usize::MAX,
        ensures
            old(self).core.set is None ==> r == Ok::<Option<bool>, Error>(None) && final(self).core.set is None
                && final(self).core.noa@ == old(self).core.noa@ && final(iter)@ == old(iter)@,
            old(self).core.set is Some ==> {
                &&& final(self).core.set is Some
                &&& same_statics(final(self).core.set->0.opts@, old(self).core.set->0.opts@)
                &&& final(self).core.set->0.utils@ == old(self).core.set->0.utils@
                &&& final(self).core.set->0.prefixs@ == old(self).core.set->0.prefixs@
                &&& final(self).core.cached_infos@ == old(self).core.cached_infos@
                &&& same_callbacks(final(self).core.callbacks@, old(self).core.callbacks@)
                &&& final(iter)@.args == old(iter)@.args
            },
            old(self).core.set is Some && r is Ok ==> {
                &&& r == Ok::<Option<bool>, Error>(Some(true))
                &&& old(self).core.noa@.len() <= final(self).core.noa@.len()
                &&& strings_view(final(self).core.noa@).take(old(self).core.noa@.len() as int) == strings_view(old(self).core.noa@)
                &&& pre_noa(
                    reg_opts(old(self).core.set->0.opts@, old(self).core.cached_infos@),
                    strings_view(old(self).core.set->0.prefixs@),
                    old(iter)@.args,
                    old(iter)@.index,
                    strings_view(final(self).core.noa@).skip(old(self).core.noa@.len() as int),
                )
                &&& opts_ok(final(self).core.set->0.opts@)
                &&& nonopts_ok(final(self).core.set->0.opts@)
                &&& final(iter)@.index >= final(iter)@.args.len()
                &&& frame_kept(final(self).core.set->0.opts@, old(self).core.set->0.opts@, strings_view(old(self).core.set->0.prefixs@),
                    old(iter)@.args, old(iter)@.index, old(iter)@.args.len() as int)
                &&& fails_nowhere(reg_opts(old(self).core.set->0.opts@, old(self).core.cached_infos@),
                    strings_view(old(self).core.set->0.prefixs@), old(iter)@.args, old(iter)@.index) ==> {
                    &&& strings_view(final(self).core.noa@) == strings_view(old(self).core.noa@) + spec_noa(
                        reg_opts(old(self).core.set->0.opts@, old(self).core.cached_infos@),
                        strings_view(old(self).core.set->0.prefixs@), old(iter)@.args, old(iter)@.index)
                    &&& agree_opts(values_of(final(self).core.set->0.opts@), parse_values(old(self).core.set->0.opts@,
                        old(self).core.cached_infos@, strings_view(old(self).core.set->0.prefixs@), old(iter)@.args,
                        old(iter)@.index, values_of(old(self).core.set->0.opts@)), old(self).core.set->0.opts@)
                }
            },
            old(self).core.set is Some && old(self).core.callbacks@.dom().is_empty() ==> r is Ok
                || !opts_ok(final(self).core.set->0.opts@) || !nonopts_ok(final(self).core.set->0.opts@),
    {
        self.core.parse_core(iter, true, 0)
    }

    pub fn set_id_generator(&mut self, id_generator: DefaultIdGen)
        ensures
            final(self).core.msg_id_gen == id_generator,
            final(self).core.cached_infos == old(self).core.cached_infos,
            final(self).core.noa == old(self).core.noa,
            final(self).core.set == old(self).core.set,
            final(self).core.argument_matched == old(self).core.argument_matched,
            final(self).core.callbacks == old(self).core.callbacks,
    {
        self.core.set_id_generator(id_generator);
    }

    /// Register the callback of the option `id`, in place of one it had.
    pub fn set_callback(&mut self, id: Identifier, callback: OptCallback)
        ensures
            final(self).core.callbacks@ == old(self).core.callbacks@.insert(id.0, callback),
            final(self).core.msg_id_gen == old(self).core.msg_id_gen,
            final(self).core.cached_infos == old(self).core.cached_infos,
            final(self).core.noa == old(self).core.noa,
            final(self).core.set == old(self).core.set,
            final(self).core.argument_matched == old(self).core.argument_matched,
    {
        self.core.set_callback(id, callback);
    }

    pub fn publish_to(&mut self, set: DefaultSet)
        ensures
            final(self).core.set == Some(set),
            final(self).core.msg_id_gen == old(self).core.msg_id_gen,
            final(self).core.cached_infos == old(self).core.cached_infos,
            final(self).core.noa == old(self).core.noa,
            final(self).core.argument_matched == old(self).core.argument_matched,
            final(self).core.callbacks == old(self).core.callbacks,
    {
        self.core.publish_to(set);
    }

    pub fn set(&self) -> (r: &Option<DefaultSet>)
        ensures
            *r == self.core.set,
    {
        self.core.set()
    }

    pub fn get_opt(&self, id: Identifier) -> (r: Option<&CommonOpt>)
        requires
            self.core.set is Some,
        ensures
            r is Some <==> id.0 < self.core.set->0.opts@.len(),
            r matches Some(o) ==> *o == self.core.set->0.opts@[id.0 as int],
    {
        self.core.get_opt(id)
    }

    /// The option `id` of the set, to change in place.
    pub fn get_opt_mut(&mut self, id: Identifier) -> (r: Option<&mut CommonOpt>)
        requires
            old(self).core.set is Some,
        ensures
            final(self).core.set is Some,
            r is Some <==> id.0 < old(self).core.set->0.opts@.len(),
            r matches Some(o) ==> *o == old(self).core.set->0.opts@[id.0 as int]
                && final(self).core.set->0.opts@ == old(self).core.set->0.opts@.update(id.0 as int, *final(o)),
            r is None ==> final(self).core.set->0.opts == old(self).core.set->0.opts,
            final(self).core.set->0.utils == old(self).core.set->0.utils,
            final(self).core.set->0.prefixs == old(self).core.set->0.prefixs,
            final(self).core.msg_id_gen == old(self).core.msg_id_gen,
            final(self).core.cached_infos == old(self).core.cached_infos,
            final(self).core.noa == old(self).core.noa,
            final(self).core.argument_matched == old(self).core.argument_matched,
            final(self).core.callbacks == old(self).core.callbacks,
    {
        self.core.get_opt_mut(id)
    }

    pub fn noa(&self) -> (r: &Vec<String>)
        ensures
            *r == self.core.noa,
    {
        self.core.noa()
    }

    pub fn pre_check(&self) -> (r: Result<bool>)
        requires
            self.core.set is Some,
        ensures
            r is Ok <==> forall|k: u64| self.core.callbacks@.contains_key(k) ==> #[trigger] callback_fits(
                self.core.set->0.opts@, Identifier(k), self.core.callbacks@[k].spec_type()),
    {
        self.core.pre_check()
    }

    pub fn check_opt(&self) -> (r: Result<bool>)
        requires
            self.core.set is Some,
        ensures
            r is Ok <==> opts_ok(self.core.set->0.opts@),
            r is Ok ==> r == Ok::<bool, Error>(true),
            r matches Err(e) ==> exists|i: int| 0 <= i < self.core.set->0.opts@.len() && is_opt_kind((#[trigger] self.core.set->0.opts@[i]).kind)
                && !super::check::opt_ok(self.core.set->0.opts@[i]) && (e matches Error::OptionForceRequired(m) && m@
                == self.core.set->0.opts@[i].spec_prefix() + self.core.set->0.opts@[i].name@) && forall|j: int| 0 <= j < i && is_opt_kind(
                (#[trigger] self.core.set->0.opts@[j]).kind) ==> super::check::opt_ok(self.core.set->0.opts@[j]),
    {
        self.core.check_opt()
    }

    pub fn check_nonopt(&self) -> (r: Result<bool>)
        requires
            self.core.set is Some,
        ensures
            r is Ok <==> nonopts_ok(self.core.set->0.opts@),
            r is Ok ==> r == Ok::<bool, Error>(true),
            r matches Err(e) ==> exists|i: int| 0 <= i < self.core.set->0.opts@.len() && !is_opt_kind((#[trigger] self.core.set->0.opts@[i]).kind)
                && !super::check::group_valid(self.core.set->0.opts@, super::check::nonopt_key(self.core.set->0.opts@[i])) && (e matches Error::NonOptionForceRequired(m)
                && m@ == super::check::group_names(self.core.set->0.opts@, super::check::nonopt_key(self.core.set->0.opts@[i]), self.core.set->0.opts@.len() as int)),
    {
        self.core.check_nonopt()
    }

    /// Nothing else is checked.
    pub fn check_other(&self) -> (r: Result<bool>)
        ensures
            r == Ok::<bool, Error>(true),
    {
        Ok(true)
    }

    /// Forget the non-option arguments and set every option back to its default.
    pub fn reset(&mut self)
        requires
            old(self).core.set is Some,
        ensures
            final(self).core.noa@.len() == 0,
            !final(self).core.argument_matched,
            final(self).core.set is Some,
            same_but_values(final(self).core.set->0.opts@, old(self).core.set->0.opts@),
            forall|i: int| 0 <= i < final(self).core.set->0.opts@.len() ==> (#[trigger] final(self).core.set->0.opts@[i]).value@
                == old(self).core.set->0.opts@[i].spec_after_reset(),
            final(self).core.set->0.utils == old(self).core.set->0.utils,
            final(self).core.set->0.prefixs == old(self).core.set->0.prefixs,
            final(self).core.msg_id_gen == old(self).core.msg_id_gen,
            final(self).core.cached_infos == old(self).core.cached_infos,
            final(self).core.callbacks == old(self).core.callbacks,
    {
        self.core.reset();
    }
}

impl Publisher for PreParser {
    open spec fn spec_infos(&self) -> Seq<OptionInfo> {
        self.core.cached_infos@
    }

    /// Keep the information, after what was kept before.
    fn reg_subscriber(&mut self, info: OptionInfo)
        ensures
            final(self).core.cached_infos@ == old(self).core.cached_infos@.push(info),
            final(self).core.set == old(self).core.set,
            final(self).core.noa == old(self).core.noa,
    {
        self.core.reg_subscriber(info);
    }

    fn clean(&mut self)
        ensures
            final(self).core.cached_infos@.len() == 0,
            final(self).core.set == old(self).core.set,
            final(self).core.noa == old(self).core.noa,
    {
        self.core.clean();
    }
}

impl Default for PreParser {
    fn default() -> (r: Self)
        ensures
            r.core.msg_id_gen.id.0 == 0,
            r.core.cached_infos@.len() == 0,
            r.core.noa@.len() == 0,
            r.core.set is None,
            r.core.callbacks@.dom().is_empty(),
    {
        PreParser::new(DefaultIdGen::default())
    }
}


/// What parsing from the iterator `i0` makes of the parser `before`: it ends as
/// `after`, with the iterator at `i1` and the answer `r`, as [`PreParser::parse`] states.
pub open spec fn pre_parsed(before: PreParser, after: PreParser, i0: ArgIteratorView, i1: ArgIteratorView, r: Result<Option<bool>>) -> bool {
    &&& (before.core.set is None ==> r == Ok::<Option<bool>, Error>(None) && after.core.set is None
        && after.core.noa@ == before.core.noa@ && i1 == i0)
    &&& (before.core.set is Some ==> {
        &&& after.core.set is Some
        &&& same_statics(after.core.set->0.opts@, before.core.set->0.opts@)
        &&& after.core.set->0.utils@ == before.core.set->0.utils@
        &&& after.core.set->0.prefixs@ == before.core.set->0.prefixs@
        &&& after.core.cached_infos@ == before.core.cached_infos@
        &&& same_callbacks(after.core.callbacks@, before.core.callbacks@)
        &&& i1.args == i0.args
        })
    &&& (before.core.set is Some && r is Ok ==> {
        &&& r == Ok::<Option<bool>, Error>(Some(true))
        &&& before.core.noa@.len() <= after.core.noa@.len()
        &&& strings_view(after.core.noa@).take(before.core.noa@.len() as int) == strings_view(before.core.noa@)
        &&& pre_noa(
            reg_opts(before.core.set->0.opts@, before.core.cached_infos@),
            strings_view(before.core.set->0.prefixs@),
            i0.args,
            i0.index,
            strings_view(after.core.noa@).skip(before.core.noa@.len() as int),
        )
        &&& opts_ok(after.core.set->0.opts@)
        &&& nonopts_ok(after.core.set->0.opts@)
        &&& i1.index >= i1.args.len()
        &&& frame_kept(after.core.set->0.opts@, before.core.set->0.opts@, strings_view(before.core.set->0.prefixs@),
            i0.args, i0.index, i0.args.len() as int)
        &&& fails_nowhere(reg_opts(before.core.set->0.opts@, before.core.cached_infos@),
            strings_view(before.core.set->0.prefixs@), i0.args, i0.index) ==> {
            &&& strings_view(after.core.noa@) == strings_view(before.core.noa@) + spec_noa(
                reg_opts(before.core.set->0.opts@, before.core.cached_infos@),
                strings_view(before.core.set->0.prefixs@), i0.args, i0.index)
            &&& agree_opts(values_of(after.core.set->0.opts@), parse_values(before.core.set->0.opts@,
                before.core.cached_infos@, strings_view(before.core.set->0.prefixs@), i0.args,
                i0.index, values_of(before.core.set->0.opts@)), before.core.set->0.opts@)
        }
        })
    &&& (before.core.set is Some && before.core.callbacks@.dom().is_empty() ==> r is Ok
        || !opts_ok(after.core.set->0.opts@) || !nonopts_ok(after.core.set->0.opts@))
}

impl super::Parser for PreParser {
    open spec fn spec_parsed(self, after: Self, i0: ArgIteratorView, i1: ArgIteratorView, r: Result<Option<bool>>) -> bool {
        pre_parsed(self, after, i0, i1, r)
    }

    open spec fn spec_has_set(&self) -> bool {
        self.core.set is Some
    }

    open spec fn spec_ready(&self, n: nat) -> bool {
        &&& self.core.set is Some ==> infos_valid(self.core.cached_infos@, self.core.set->0.opts@.len()) && all_fit(self.core.set->0.opts@)
        &&& self.core.msg_id_gen.spec_next() + 6 * n + self.core.noa@.len() + 4 <= u64::MAX
    }

    fn parse_args(&mut self, iter: &mut ArgIterator) -> (r: Result<Option<bool>>) {
        self.parse(iter)
    }
}

} // verus!
