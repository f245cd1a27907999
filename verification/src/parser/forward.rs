use vstd::prelude::*;

use crate::error::{Error, Result};
use crate::id::{DefaultIdGen, IdGenerator, Identifier};
use crate::callback::{CallRecord, CallbackType, OptCallback};
use crate::opt::{Callback, OptValue, OptValueView, OptionInfo, Value};
use crate::opt::common::{CommonOpt, OptKind, kind_callback, same_static, value_fits};
use crate::proc::{Ctx, Proc, all_matched, any_newly, ctxs_after, fold_value, lemma_after_match};
use crate::opt::common::is_opt_kind;
use super::gen::{CtxShape, has_shape};
use super::model::{agree_opts, flags_upto, lemma_flags_ctxs, lemma_publish_len, lemma_publish_step, no_flags, publish_values, values_of};
use crate::set::{DefaultSet, Publisher};
use std::collections::HashMap;

verus! {

broadcast use vstd::std_specs::hash::group_hash_axioms;

/// The options that the information `infos` points to, in order.
pub open spec fn reg_opts(opts: Seq<CommonOpt>, infos: Seq<OptionInfo>) -> Seq<CommonOpt> {
    infos.map_values(|i: OptionInfo| opts[i.id.0 as int])
}

/// Every piece of information points to an option of the set.
pub open spec fn infos_valid(infos: Seq<OptionInfo>, n: nat) -> bool {
    forall|k: int| 0 <= k < infos.len() ==> (#[trigger] infos[k]).id.0 < n
}

/// The information a set hands out points to its options, when every option sits
/// at the position its identifier names.
pub proof fn law_subscribed_infos_valid(opts: Seq<CommonOpt>)
    requires
        crate::set::ids_in_place(opts),
        opts.len() <= u64::MAX,
    ensures
        infos_valid(crate::set::infos_of(opts), opts.len()),
        reg_opts(opts, crate::set::infos_of(opts)) == opts,
{
    let infos = crate::set::infos_of(opts);
    assert forall|k: int| 0 <= k < infos.len() implies (#[trigger] infos[k]).id.0 < opts.len() by {
        assert(opts[k].id == crate::id::Identifier(k as u64));
    }
    assert forall|k: int| 0 <= k < opts.len() implies #[trigger] reg_opts(opts, infos)[k] == opts[k] by {
        assert(infos[k].id == opts[k].id);
        assert(opts[k].id == crate::id::Identifier(k as u64));
        assert(infos[k].id.0 == k);
    }
    assert(reg_opts(opts, infos) =~= opts);
}

/// Every option of `opts` can take the values the parser sets.
pub open spec fn all_fit(opts: Seq<CommonOpt>) -> bool {
    forall|i: int| 0 <= i < opts.len() ==> value_fits(#[trigger] opts[i])
}

/// The options of `a` and `b` agree on everything but values and callback flags.
pub open spec fn same_statics(a: Seq<CommonOpt>, b: Seq<CommonOpt>) -> bool {
    &&& a.len() == b.len()
    &&& forall|i: int| 0 <= i < a.len() ==> same_static(#[trigger] a[i], b[i])
}

/// Some option of `ropts` answers to the context.
pub open spec fn ctx_covered(c: Ctx, ropts: Seq<CommonOpt>) -> bool {
    exists|k: int| 0 <= k < ropts.len() && c.matches(#[trigger] ropts[k])
}

/// Some option of `ropts` answers to every context of `cs`.
pub open spec fn covered(cs: Seq<Ctx>, ropts: Seq<CommonOpt>) -> bool {
    forall|j: int| 0 <= j < cs.len() ==> ctx_covered(#[trigger] cs[j], ropts)
}

/// Some context of `cs` answers to the option.
pub open spec fn touched_by(cs: Seq<Ctx>, o: CommonOpt) -> bool {
    exists|j: int| 0 <= j < cs.len() && (#[trigger] cs[j]).matches(o)
}

/// The option `p` is `o` with the same value and callback flag.
pub open spec fn untouched(p: CommonOpt, o: CommonOpt) -> bool {
    &&& same_static(p, o)
    &&& p.value@ == o.value@
    &&& p.callback == o.callback
}

/// The callbacks stay registered for the same options, with the same types.
pub open spec fn same_callbacks(a: Map<u64, OptCallback>, b: Map<u64, OptCallback>) -> bool {
    &&& a.dom() == b.dom()
    &&& forall|k: u64| #[trigger] a.contains_key(k) ==> a[k].spec_type() == b[k].spec_type()
}

/// A context answers to an option by the parts of the option that parsing never
/// changes.
pub proof fn lemma_matches_static(c: Ctx, o: CommonOpt, p: CommonOpt)
    requires
        same_static(o, p),
    ensures
        c.matches(o) == c.matches(p),
{
}

/// Contexts that do not newly match leave the value alone.
pub proof fn lemma_fold_untouched(cs: Seq<Ctx>, o: CommonOpt, v: OptValueView)
    requires
        !any_newly(cs, o),
    ensures
        crate::proc::fold_value(cs, o, v) == v,
    decreases cs.len(),
{
    if cs.len() > 0 {
        assert(!any_newly(cs.drop_last(), o)) by {
            if any_newly(cs.drop_last(), o) {
                let j = choose|j: int| 0 <= j < cs.drop_last().len() && crate::proc::newly(#[trigger] cs.drop_last()[j], o);
                assert(cs[j] == cs.drop_last()[j]);
            }
        }
        lemma_fold_untouched(cs.drop_last(), o, v);
        assert(!crate::proc::newly(cs[cs.len() - 1], o));
    }
}

/// A non-option's value stays as it is or becomes a boolean whatever contexts match.
pub proof fn lemma_fold_nonopt(cs: Seq<Ctx>, o: CommonOpt, v: OptValueView)
    requires
        !crate::opt::common::is_opt_kind(o.kind),
    ensures
        crate::proc::fold_value(cs, o, v) == v || crate::proc::fold_value(cs, o, v) is Bool,
    decreases cs.len(),
{
    if cs.len() > 0 {
        lemma_fold_nonopt(cs.drop_last(), o, v);
    }
}

/// `x` is the first of the options `ropts` that answers to the context.
pub open spec fn first_match(c: Ctx, ropts: Seq<CommonOpt>, x: int) -> bool {
    &&& 0 <= x < ropts.len()
    &&& c.matches(ropts[x])
    &&& forall|y: int| 0 <= y < x ==> !c.matches(#[trigger] ropts[y])
}

/// The first option that answers to the context may fail to process it: it
/// lacks the argument it needs, the argument does not parse, or the option is a
/// `path` one, which asks the file system.
pub open spec fn may_fail(c: Ctx, ropts: Seq<CommonOpt>) -> bool {
    exists|x: int| first_match(c, ropts, x) && (!c.ok_for(#[trigger] ropts[x]) || ropts[x].kind == OptKind::Path)
}

/// The first option that answers to the context may process it.
pub open spec fn may_succeed(c: Ctx, ropts: Seq<CommonOpt>) -> bool {
    exists|x: int| first_match(c, ropts, x) && c.ok_for(#[trigger] ropts[x])
}

/// The proc was just made: it has contexts, none of them matched yet, all of
/// them alike in whether they take the next argument, and it has matched nothing.
pub open spec fn fresh<P: Proc>(p: P) -> bool {
    &&& p.spec_ctxs().len() > 0
    &&& forall|j: int| 0 <= j < p.spec_ctxs().len() ==> !(#[trigger] p.spec_ctxs()[j]).matched()
    &&& forall|j: int| 0 <= j < p.spec_ctxs().len() ==> (#[trigger] p.spec_ctxs()[j]).skip() == p.spec_ctxs()[0].skip()
    &&& !p.spec_need_argument()
    &&& p.spec_matched_index() is None
}

/// Matching the contexts of `cs` cannot leave the proc half processed: the
/// matching stops at the first failure, or it is a single context, or no option
/// that answers to one of them can fail on it.
pub open spec fn whole(tolerant: bool, cs: Seq<Ctx>) -> bool {
    !tolerant || cs.len() == 1 || never_fails(cs)
}

/// No option that answers to a context of `cs` can fail to process it.
pub open spec fn never_fails(cs: Seq<Ctx>) -> bool {
    forall|j: int, o: CommonOpt| 0 <= j < cs.len() && #[trigger] cs[j].matches(o) ==> cs[j].ok_for(o) && o.kind != OptKind::Path
}

/// No option of `ropts` that answers to a context of `cs` can fail to process it.
pub open spec fn never_fails_in(cs: Seq<Ctx>, ropts: Seq<CommonOpt>) -> bool {
    forall|j: int, x: int| 0 <= j < cs.len() && 0 <= x < ropts.len() && #[trigger] cs[j].matches(ropts[x])
        ==> cs[j].ok_for(ropts[x]) && ropts[x].kind != OptKind::Path
}

/// An option (of the static parts of `ropts[k]`) that fails to process contexts
/// that answer to it, none of which matched before, is one that can fail.
pub proof fn lemma_never_fails_in(cs: Seq<Ctx>, prev: Seq<Ctx>, cur: CommonOpt, ropts: Seq<CommonOpt>, k: int)
    requires
        0 <= k < ropts.len(),
        same_static(cur, ropts[k]),
        prev.len() == cs.len(),
        forall|j: int| 0 <= j < cs.len() ==> #[trigger] prev[j] == cs[j] || prev[j] == cs[j].after_match(),
        crate::proc::any_newly(prev, cur),
        !crate::proc::all_ok(prev, cur) || cur.kind == OptKind::Path,
    ensures
        !never_fails_in(cs, ropts),
{
    if !crate::proc::all_ok(prev, cur) {
        let j = choose|j: int| 0 <= j < prev.len() && crate::proc::newly(prev[j], cur) && !(#[trigger] prev[j]).ok_for(cur);
        lemma_after_match(cs[j], cur);
        assert(prev[j] == cs[j]);
        lemma_matches_static(cs[j], cur, ropts[k]);
        lemma_ok_for_static(cs[j], cur, ropts[k]);
        assert(cs[j].matches(ropts[k]));
    } else {
        let j = choose|j: int| 0 <= j < prev.len() && crate::proc::newly(#[trigger] prev[j], cur);
        lemma_after_match(cs[j], cur);
        assert(prev[j] == cs[j]);
        lemma_matches_static(cs[j], cur, ropts[k]);
        assert(cs[j].matches(ropts[k]));
    }
}

/// Matching the contexts `cs` against the options `ropts` (registered by `infos`)
/// can end in an error: an option that answers to a context can fail to process
/// it, or an option that answers to a context has a callback registered.
pub open spec fn may_err(cs: Seq<Ctx>, ropts: Seq<CommonOpt>, infos: Seq<OptionInfo>, cbs: Map<u64, OptCallback>) -> bool {
    ||| !never_fails_in(cs, ropts)
    ||| exists|k: int| 0 <= k < infos.len() && #[trigger] cbs.contains_key(infos[k].id.0) && touched_by(cs, ropts[k])
}

/// An option (of the static parts of `ropts[k]`) that newly matches one of the
/// contexts, none of which matched before, is touched by them.
pub proof fn lemma_touched_now(cs: Seq<Ctx>, prev: Seq<Ctx>, cur: CommonOpt, ropts: Seq<CommonOpt>, k: int)
    requires
        0 <= k < ropts.len(),
        same_static(cur, ropts[k]),
        prev.len() == cs.len(),
        forall|j: int| 0 <= j < cs.len() ==> #[trigger] prev[j] == cs[j] || prev[j] == cs[j].after_match(),
        crate::proc::any_newly(prev, cur),
    ensures
        touched_by(cs, ropts[k]),
{
    let j = choose|j: int| 0 <= j < prev.len() && crate::proc::newly(#[trigger] prev[j], cur);
    lemma_after_match(cs[j], cur);
    assert(prev[j] == cs[j]);
    lemma_matches_static(cs[j], cur, ropts[k]);
    assert(cs[j].matches(ropts[k]));
}

/// The option that `infos[x]` points to is the first, in the order of `infos`, to
/// answer to one of the contexts `cs`: matching the contexts processes it.
pub open spec fn processed_at(cs: Seq<Ctx>, ropts: Seq<CommonOpt>, x: int) -> bool {
    exists|j: int| 0 <= j < cs.len() && #[trigger] first_match(cs[j], ropts, x)
}

/// The option that `infos[x]` points to has no callback due any more.
pub open spec fn callback_cleared(opts: Seq<CommonOpt>, infos: Seq<OptionInfo>, x: int) -> bool {
    opts[infos[x].id.0 as int].callback == CallbackType::Null
}

/// A context that the option at turn `k` is the first to answer to has not
/// matched before that turn, so it newly matches the option.
pub proof fn lemma_processed_newly(cs: Seq<Ctx>, prev: Seq<Ctx>, cur: CommonOpt, ropts: Seq<CommonOpt>, k: int)
    requires
        0 <= k < ropts.len(),
        same_static(cur, ropts[k]),
        prev.len() == cs.len(),
        forall|j: int| 0 <= j < cs.len() ==> !(#[trigger] cs[j]).matched(),
        forall|j: int| 0 <= j < cs.len() ==> (#[trigger] prev[j]) == (if exists|x: int| 0 <= x < k && cs[j].matches(
            #[trigger] ropts[x]) { cs[j].after_match() } else { cs[j] }),
        processed_at(cs, ropts, k),
    ensures
        any_newly(prev, cur),
{
    let j = choose|j: int| 0 <= j < cs.len() && #[trigger] first_match(cs[j], ropts, k);
    assert(!exists|x: int| 0 <= x < k && cs[j].matches(#[trigger] ropts[x]));
    assert(prev[j] == cs[j]);
    lemma_matches_static(cs[j], cur, ropts[k]);
    assert(crate::proc::newly(prev[j], cur));
}

/// The options processed up to turn `k` keep no callback due once the option at
/// turn `k` (at position `i`) was processed and its callback invoked.
pub proof fn lemma_cleared_step(cs: Seq<Ctx>, prev: Seq<Ctx>, cur: CommonOpt, ropts: Seq<CommonOpt>, infos: Seq<OptionInfo>, k: int, i: int, before: Seq<CommonOpt>, after: Seq<CommonOpt>)
    requires
        0 <= k < infos.len(),
        ropts.len() == infos.len(),
        infos[k].id.0 == i,
        0 <= i < before.len(),
        before.len() == after.len(),
        cur == before[i],
        same_static(cur, ropts[k]),
        infos_valid(infos, before.len()),
        forall|x: int| 0 <= x < k && #[trigger] processed_at(cs, ropts, x) ==> callback_cleared(before, infos, x),
        forall|ix: int| 0 <= ix < before.len() && ix != i ==> #[trigger] after[ix] == before[ix],
        any_newly(prev, cur) ==> after[i].callback == CallbackType::Null,
        !any_newly(prev, cur) ==> after[i].callback == before[i].callback,
        prev.len() == cs.len(),
        forall|j: int| 0 <= j < cs.len() ==> !(#[trigger] cs[j]).matched(),
        forall|j: int| 0 <= j < cs.len() ==> (#[trigger] prev[j]) == (if exists|x: int| 0 <= x < k && cs[j].matches(
            #[trigger] ropts[x]) { cs[j].after_match() } else { cs[j] }),
    ensures
        forall|x: int| 0 <= x < k + 1 && #[trigger] processed_at(cs, ropts, x) ==> callback_cleared(after, infos, x),
{
    if processed_at(cs, ropts, k) {
        lemma_processed_newly(cs, prev, cur, ropts, k);
    }
    assert forall|x: int| 0 <= x < k + 1 && #[trigger] processed_at(cs, ropts, x) implies callback_cleared(after, infos, x) by {
        let ix = infos[x].id.0 as int;
        assert(0 <= ix < before.len());
        if ix != i {
            assert(after[ix] == before[ix]);
        }
    }
}

/// No context of `cs` waits: a context that matches an option sets its value.
pub open spec fn no_delay(cs: Seq<Ctx>) -> bool {
    forall|j: int| 0 <= j < cs.len() ==> !((#[trigger] cs[j]) is Delay)
}

/// Where the option that `infos[x]` points to is a non-option, it holds `true`.
pub open spec fn nonopt_set(opts: Seq<CommonOpt>, infos: Seq<OptionInfo>, x: int) -> bool {
    !is_opt_kind(opts[infos[x].id.0 as int].kind) ==> opts[infos[x].id.0 as int].value@ == OptValueView::Bool(true)
}

/// `x` is the first of the options `ropts` that answers to the non-option argument
/// `name` at position `current` of `total`, in the style `style`.
pub open spec fn first_nonopt(name: Seq<char>, style: crate::opt::Style, total: u64, current: u64, ropts: Seq<CommonOpt>, x: int) -> bool {
    &&& 0 <= x < ropts.len()
    &&& crate::ctx::nonopt_ctx_matches(name, style, total, current, ropts[x])
    &&& forall|y: int| 0 <= y < x ==> !crate::ctx::nonopt_ctx_matches(name, style, total, current, #[trigger] ropts[y])
}

/// Contexts that do not wait give a non-option `true` once one of them newly
/// matches it, and leave its value as it was otherwise.
pub proof fn lemma_fold_nonopt_true(cs: Seq<Ctx>, o: CommonOpt, v: OptValueView)
    requires
        !is_opt_kind(o.kind),
        no_delay(cs),
    ensures
        any_newly(cs, o) ==> crate::proc::fold_value(cs, o, v) == OptValueView::Bool(true),
        !any_newly(cs, o) ==> crate::proc::fold_value(cs, o, v) == v,
    decreases cs.len(),
{
    if cs.len() > 0 {
        let d = cs.drop_last();
        assert(no_delay(d)) by {
            assert forall|j: int| 0 <= j < d.len() implies !((#[trigger] d[j]) is Delay) by {
                assert(d[j] == cs[j]);
            }
        }
        lemma_fold_nonopt_true(d, o, v);
        if any_newly(d, o) {
            let j = choose|j: int| 0 <= j < d.len() && crate::proc::newly(#[trigger] d[j], o);
            assert(d[j] == cs[j]);
            assert(any_newly(cs, o));
        }
        let l = cs.len() - 1;
        assert(cs.last() == cs[l]);
        assert(!(cs[l] is Delay));
        if crate::proc::newly(cs[l], o) {
            assert(any_newly(cs, o));
        }
        if any_newly(cs, o) && !crate::proc::newly(cs[l], o) {
            let j = choose|j: int| 0 <= j < cs.len() && crate::proc::newly(#[trigger] cs[j], o);
            assert(j != l);
            assert(d[j] == cs[j]);
            assert(any_newly(d, o));
        }
        if !any_newly(cs, o) {
            assert(!crate::proc::newly(cs[l], o));
            if any_newly(d, o) {
                let j = choose|j: int| 0 <= j < d.len() && crate::proc::newly(#[trigger] d[j], o);
                assert(d[j] == cs[j]);
            }
        }
    }
}

/// Each non-option that a context of `cs` first answered to, among the options the
/// first `k` informations point to, holds `true`.
#[verifier::opaque]
pub open spec fn nonopts_taken(cs: Seq<Ctx>, ropts: Seq<CommonOpt>, opts: Seq<CommonOpt>, infos: Seq<OptionInfo>, k: int) -> bool {
    forall|x: int| 0 <= x < k && #[trigger] processed_at(cs, ropts, x) ==> nonopt_set(opts, infos, x)
}

/// Each non-option of `opts` holds its value in `opts0`, or `true`.
#[verifier::opaque]
pub open spec fn nonopts_kept(opts: Seq<CommonOpt>, opts0: Seq<CommonOpt>) -> bool {
    forall|i: int| 0 <= i < opts0.len() && !is_opt_kind((#[trigger] opts0[i]).kind) ==> opts[i].value@ == opts0[i].value@
        || opts[i].value@ == OptValueView::Bool(true)
}

/// A step that changes at most the option at `i`, and a non-option there only to
/// `true`, keeps every non-option at its first value or `true`.
pub proof fn lemma_kept_step(opts0: Seq<CommonOpt>, before: Seq<CommonOpt>, after: Seq<CommonOpt>, i: int)
    requires
        nonopts_kept(before, opts0),
        before.len() == opts0.len(),
        after.len() == opts0.len(),
        0 <= i < opts0.len(),
        forall|ix: int| 0 <= ix < before.len() && ix != i ==> #[trigger] after[ix] == before[ix],
        !is_opt_kind(opts0[i].kind) ==> after[i].value@ == before[i].value@ || after[i].value@ == OptValueView::Bool(true),
    ensures
        nonopts_kept(after, opts0),
{
    reveal(nonopts_kept);
    assert forall|ix: int| 0 <= ix < opts0.len() && !is_opt_kind((#[trigger] opts0[ix]).kind) implies after[ix].value@
        == opts0[ix].value@ || after[ix].value@ == OptValueView::Bool(true) by {
        if ix != i {
            assert(after[ix] == before[ix]);
        }
    }
}

/// Once every context matched at a turn before `k`, what holds of the options
/// processed before `k` holds of all of them.
pub proof fn lemma_taken_all(cs: Seq<Ctx>, now: Seq<Ctx>, ropts: Seq<CommonOpt>, opts: Seq<CommonOpt>, infos: Seq<OptionInfo>, k: int, n: int)
    requires
        nonopts_taken(cs, ropts, opts, infos, k),
        now.len() == cs.len(),
        all_matched(now),
        forall|j: int| 0 <= j < cs.len() ==> !(#[trigger] cs[j]).matched(),
        forall|j: int| 0 <= j < cs.len() ==> (#[trigger] now[j]) == (if exists|y: int| 0 <= y < k && cs[j].matches(
            #[trigger] ropts[y]) { cs[j].after_match() } else { cs[j] }),
    ensures
        nonopts_taken(cs, ropts, opts, infos, n),
{
    reveal(nonopts_taken);
    assert forall|x: int| 0 <= x < n && #[trigger] processed_at(cs, ropts, x) implies nonopt_set(opts, infos, x) by {
        if x >= k {
            lemma_none_after(cs, now, ropts, k, x);
        }
    }
}

/// One step of a proc through the registered options keeps `true` in each
/// non-option that a context first answered to, with no callback to answer for it.
pub proof fn lemma_set_step(cs: Seq<Ctx>, prev: Seq<Ctx>, cur: CommonOpt, ropts: Seq<CommonOpt>, infos: Seq<OptionInfo>, k: int, i: int, before: Seq<CommonOpt>, after: Seq<CommonOpt>)
    requires
        0 <= k < infos.len(),
        ropts.len() == infos.len(),
        infos[k].id.0 == i,
        0 <= i < before.len(),
        before.len() == after.len(),
        cur == before[i],
        same_static(cur, ropts[k]),
        same_static(after[i], before[i]),
        infos_valid(infos, before.len()),
        nonopts_taken(cs, ropts, before, infos, k),
        forall|ix: int| 0 <= ix < before.len() && ix != i ==> #[trigger] after[ix] == before[ix],
        any_newly(prev, cur) && !is_opt_kind(cur.kind) ==> after[i].value@ == OptValueView::Bool(true),
        !any_newly(prev, cur) ==> after[i].value@ == before[i].value@,
        prev.len() == cs.len(),
        forall|j: int| 0 <= j < cs.len() ==> !(#[trigger] cs[j]).matched(),
        forall|j: int| 0 <= j < cs.len() ==> (#[trigger] prev[j]) == (if exists|x: int| 0 <= x < k && cs[j].matches(
            #[trigger] ropts[x]) { cs[j].after_match() } else { cs[j] }),
    ensures
        nonopts_taken(cs, ropts, after, infos, k + 1),
{
    reveal(nonopts_taken);
    if processed_at(cs, ropts, k) {
        lemma_processed_newly(cs, prev, cur, ropts, k);
    }
    assert forall|x: int| 0 <= x < k + 1 && #[trigger] processed_at(cs, ropts, x) implies nonopt_set(after, infos, x) by {
        let ix = infos[x].id.0 as int;
        assert(0 <= ix < before.len());
        if ix != i {
            assert(after[ix] == before[ix]);
        }
    }
}

/// Once every context matched at a turn before `k`, no option from turn `k` on is
/// the first to answer to one of them.
pub proof fn lemma_none_after(cs: Seq<Ctx>, now: Seq<Ctx>, ropts: Seq<CommonOpt>, k: int, x: int)
    requires
        now.len() == cs.len(),
        all_matched(now),
        forall|j: int| 0 <= j < cs.len() ==> !(#[trigger] cs[j]).matched(),
        forall|j: int| 0 <= j < cs.len() ==> (#[trigger] now[j]) == (if exists|y: int| 0 <= y < k && cs[j].matches(
            #[trigger] ropts[y]) { cs[j].after_match() } else { cs[j] }),
        k <= x,
    ensures
        !processed_at(cs, ropts, x),
{
    if processed_at(cs, ropts, x) {
        let j = choose|j: int| 0 <= j < cs.len() && #[trigger] first_match(cs[j], ropts, x);
        assert(now[j].matched());
        assert(now[j] != cs[j]);
        let y = choose|y: int| 0 <= y < k && cs[j].matches(#[trigger] ropts[y]);
        assert(!cs[j].matches(ropts[y]));
    }
}

/// Processing asks only for the parts of an option that parsing never changes.
pub proof fn lemma_ok_for_static(c: Ctx, o: CommonOpt, p: CommonOpt)
    requires
        same_static(o, p),
    ensures
        c.ok_for(o) == c.ok_for(p),
{
}

/// Parse the arguments by matching each of them against the options: first as an
/// option argument, in the styles `-o=v`, `-o v`, `-o`, `-abc`, `-ov`; what no option
/// takes is a non-option argument, matched against the `cmd` and `pos` non-options
/// and at last the `main` non-option.
pub struct ForwardParser {
    pub msg_id_gen: DefaultIdGen,
    pub cached_infos: Vec<OptionInfo>,
    pub noa: Vec<String>,
    pub set: Option<DefaultSet>,
    pub argument_matched: bool,
    pub callbacks: HashMap<u64, OptCallback>,
    /// The calls of callbacks the parser made, in order.
    pub calls: Ghost<Seq<CallRecord>>,
}

/// The parser's parts that matching one proc leaves alone.
pub open spec fn keeps_frame(p: ForwardParser, q: ForwardParser) -> bool {
    &&& p.cached_infos@ == q.cached_infos@
    &&& p.noa@ == q.noa@
    &&& same_callbacks(p.callbacks@, q.callbacks@)
    &&& p.set is Some && q.set is Some
    &&& p.set->0.utils@ == q.set->0.utils@
    &&& p.set->0.prefixs@ == q.set->0.prefixs@
    &&& same_statics(p.set->0.opts@, q.set->0.opts@)
}

/// Process the option at `i` with the proc; when the option's callback became due,
/// mark it as done and hand back its type.
fn process_at<P: Proc>(set: &mut DefaultSet, i: usize, proc: &mut P) -> (r: Result<(Option<u64>, CallbackType, bool)>)
    requires
        i < old(set).opts@.len(),
        old(proc).spec_ready(),
        value_fits(old(set).opts@[i as int]),
    ensures
        final(set).opts@.len() == old(set).opts@.len(),
        final(set).utils@ == old(set).utils@,
        final(set).prefixs@ == old(set).prefixs@,
        forall|j: int| 0 <= j < old(set).opts@.len() && j != i ==> #[trigger] final(set).opts@[j] == old(set).opts@[j],
        same_static(final(set).opts@[i as int], old(set).opts@[i as int]),
        value_fits(final(set).opts@[i as int]),
        final(proc).spec_ready(),
        final(proc).spec_id() == old(proc).spec_id(),
        all_matched(old(proc).spec_ctxs()) ==> r is Ok && final(proc).spec_ctxs() == old(proc).spec_ctxs()
            && final(set).opts@[i as int].value@ == old(set).opts@[i as int].value@,
        r matches Ok((res, t, invoke)) ==> !all_matched(old(proc).spec_ctxs()) ==> {
            &&& final(proc).spec_ctxs() == ctxs_after(old(proc).spec_ctxs(), old(set).opts@[i as int])
            &&& (final(proc).spec_matched_index() is Some <==> any_newly(old(proc).spec_ctxs(), old(set).opts@[i as int]))
            &&& res == final(proc).spec_matched_index()
            &&& final(set).opts@[i as int].value@ == crate::proc::fold_value(old(proc).spec_ctxs(), old(set).opts@[i as int], old(set).opts@[i as int].value@)
            &&& invoke == any_newly(old(proc).spec_ctxs(), old(set).opts@[i as int])
            &&& (invoke ==> t == kind_callback(old(set).opts@[i as int].kind) && final(set).opts@[i as int].callback == CallbackType::Null)
            &&& (!invoke ==> final(set).opts@[i as int].callback == old(set).opts@[i as int].callback)
            &&& final(proc).spec_need_argument() == crate::proc::any_skip(old(proc).spec_ctxs(), old(set).opts@[i as int])
            &&& crate::proc::all_ok(old(proc).spec_ctxs(), old(set).opts@[i as int])
        },
        r is Err ==> !crate::proc::all_ok(old(proc).spec_ctxs(), old(set).opts@[i as int])
            || old(set).opts@[i as int].kind == OptKind::Path,
        r is Err ==> any_newly(old(proc).spec_ctxs(), old(set).opts@[i as int]),
        old(proc).spec_ctxs().len() == 1 && r is Err ==> {
            &&& final(proc).spec_ctxs() == ctxs_after(old(proc).spec_ctxs(), old(set).opts@[i as int])
            &&& final(set).opts@ == old(set).opts@
            &&& !final(proc).spec_need_argument()
            &&& final(proc).spec_matched_index() is None
        },
        r is Err ==> {
            &&& final(proc).spec_ctxs().len() == old(proc).spec_ctxs().len()
            &&& forall|j: int| 0 <= j < old(proc).spec_ctxs().len() ==> #[trigger] final(proc).spec_ctxs()[j]
                == old(proc).spec_ctxs()[j] || (crate::proc::newly(old(proc).spec_ctxs()[j], old(set).opts@[i as int])
                && final(proc).spec_ctxs()[j] == old(proc).spec_ctxs()[j].after_match())
            &&& !is_opt_kind(old(set).opts@[i as int].kind) ==> final(set).opts@[i as int].value@ == old(set).opts@[i as int].value@
                || final(set).opts@[i as int].value@ is Bool
        },
{
    let opt = &mut set.opts[i];
    let res = proc.process(opt)?;
    let invoke = res.is_some() && opt.is_need_invoke();
    let t = opt.callback_type();
    if invoke {
        opt.set_need_invoke(false);
    }
    Ok((res, t, invoke))
}

impl ForwardParser {
    pub fn new(msg_id_gen: DefaultIdGen) -> (r: Self)
        ensures
            r.msg_id_gen == msg_id_gen,
            r.cached_infos@.len() == 0,
            r.noa@.len() == 0,
            r.set is None,
            !r.argument_matched,
            r.callbacks@.dom().is_empty(),
    {
        ForwardParser {
            msg_id_gen,
            cached_infos: Vec::new(),
            noa: Vec::new(),
            set: None,
            argument_matched: false,
            callbacks: HashMap::new(),
            calls: Ghost(Seq::empty()),
        }
    }

    pub fn set_argument_matched(&mut self)
        ensures
            final(self).argument_matched,
            final(self).msg_id_gen == old(self).msg_id_gen,
            final(self).cached_infos == old(self).cached_infos,
            final(self).noa == old(self).noa,
            final(self).set == old(self).set,
            final(self).callbacks == old(self).callbacks,
    {
        self.argument_matched = true;
    }

    /// The prefixes of the set the parser parses for.
    pub fn get_prefix(&self) -> (r: &Vec<String>)
        requires
            self.set is Some,
        ensures
            *r == self.set->0.prefixs,
    {
        match &self.set {
            Some(s) => &s.prefixs,
            None => {
                assert(false);
                unreached()
            },
        }
    }

    /// Invoke the callback registered for the option `id`, if there is one: a value
    /// callback sees the option; an index callback sees the non-option argument at
    /// the option's position and a main callback all of them, and their answer
    /// becomes the value of the option.
    pub fn invoke_callback(&mut self, id: Identifier, callback_type: CallbackType, index: u64) -> (r: Result<bool>)
        requires
            old(self).set is Some,
            id.0 < old(self).set->0.opts@.len(),
        ensures
            keeps_frame(*final(self), *old(self)),
            final(self).msg_id_gen == old(self).msg_id_gen,
            final(self).argument_matched == old(self).argument_matched,
            forall|j: int| 0 <= j < old(self).set->0.opts@.len() && j != id.0 ==> #[trigger] final(self).set->0.opts@[j]
                == old(self).set->0.opts@[j],
            final(self).set->0.opts@[id.0 as int].callback == old(self).set->0.opts@[id.0 as int].callback,
            final(self).set->0.opts@[id.0 as int].value@ == old(self).set->0.opts@[id.0 as int].value@
                || exists|b: bool| final(self).set->0.opts@[id.0 as int].value@ == #[trigger] answer_value(
                    old(self).set->0.opts@[id.0 as int], b),
            r is Ok && !callback_idle(*old(self), id, callback_type, index) && callback_type != CallbackType::Value
                ==> exists|b: bool| final(self).set->0.opts@[id.0 as int].value@ == #[trigger] answer_value(
                    old(self).set->0.opts@[id.0 as int], b),
            (callback_type == CallbackType::Value || callback_type == CallbackType::Null) ==> final(self).set->0.opts@[id.0 as int] == old(self).set->0.opts@[id.0 as int],
            r is Err ==> final(self).set == old(self).set && final(self).noa == old(self).noa,
            value_fits(old(self).set->0.opts@[id.0 as int]) ==> value_fits(final(self).set->0.opts@[id.0 as int]),
            r is Ok ==> r == Ok::<bool, Error>(true),
            callback_idle(*old(self), id, callback_type, index) ==> r == Ok::<bool, Error>(true) && *final(self) == *old(self),
            callback_invoked(*old(self), *final(self), id, callback_type, index, r),
    {
        let len = match &self.set {
            Some(s) => s.opts.len(),
            None => 0,
        };
        assert(id.0 < len);
        let i = id.0 as usize;
        let ghost o0 = self.set->0.opts@[i as int];
        let ghost cbs0 = self.callbacks@;
        if !self.callbacks.contains_key(&id.0) {
            return Ok(true);
        }
        match callback_type {
            CallbackType::Null => {
                return Ok(true);
            },
            CallbackType::Index => {
                let length = self.noa.len();
                let at = match &self.set {
                    Some(set) => set.opts[i].index.calc_index(length as u64, index),
                    None => None,
                };
                match at {
                    Some(at) => {
                        if !(1 <= at && at <= length as u64) {
                            return Ok(true);
                        }
                    },
                    None => {
                        return Ok(true);
                    },
                }
            },
            _ => {},
        }
        let mut cb = match self.callbacks.remove(&id.0) {
            Some(cb) => cb,
            None => {
                assert(false);
                return Ok(true);
            },
        };
        let ghost t = cb.spec_type();
        assert(cbs0[id.0] == cb);
        let mut failed: Option<Error> = None;
        match callback_type {
            CallbackType::Value => {
                let res = match &self.set {
                    Some(set) => cb.call_value(&set.opts[i], Ghost(id.0), &mut self.calls),
                    None => Ok(true),
                };
                if let Err(e) = res {
                    failed = Some(e);
                }
            },
            CallbackType::Index => {
                let length = self.noa.len();
                let at = match &self.set {
                    Some(set) => set.opts[i].index.calc_index(length as u64, index),
                    None => None,
                };
                if let Some(at) = at {
                    if 1 <= at && at <= length as u64 {
                        let res = match &self.set {
                            Some(set) => cb.call_index(set, &self.noa[(at - 1) as usize], Ghost(id.0), &mut self.calls),
                            None => Ok(false),
                        };
                        match res {
                            Ok(ret) => {
                                match &mut self.set {
                                    Some(set) => set_value_at(set, i, ret),
                                    None => {},
                                }
                                assert(self.set->0.opts@[i as int].value@ == answer_value(o0, ret));
                            },
                            Err(e) => {
                                failed = Some(e);
                            },
                        }
                    }
                }
            },
            CallbackType::Main => {
                let res = match &self.set {
                    Some(set) => cb.call_main(set, &self.noa, Ghost(id.0), &mut self.calls),
                    None => Ok(false),
                };
                match res {
                    Ok(ret) => {
                        match &mut self.set {
                            Some(set) => set_value_at(set, i, ret),
                            None => {},
                        }
                        assert(self.set->0.opts@[i as int].value@ == answer_value(o0, ret));
                    },
                    Err(e) => {
                        failed = Some(e);
                    },
                }
            },
            CallbackType::Null => {},
        }
        assert(cb.spec_type() == t);
        self.callbacks.insert(id.0, cb);
        assert(self.callbacks@.dom() =~= cbs0.dom());
        match failed {
            Some(e) => Err(e),
            None => Ok(true),
        }
    }

    /// Match the proc against the options, in the order of the information the
    /// parser keeps; it stops once every context of the proc matched. It answers
    /// whether they all did.
    #[verifier::rlimit(100)]
    #[verifier::spinoff_prover]
    pub(crate) fn publish_core<P: Proc>(&mut self, msg: P, tolerant: bool, Ghost(shs): Ghost<Seq<CtxShape>>) -> (r: Result<(bool, bool)>)
        requires
            shs.len() > 0 ==> shs.len() == msg.spec_ctxs().len(),
            forall|j: int| 0 <= j < shs.len() ==> has_shape(#[trigger] msg.spec_ctxs()[j], shs[j]),
            forall|j: int| 0 <= j < shs.len() ==> !(#[trigger] shs[j]).delay,
            old(self).set is Some,
            infos_valid(old(self).cached_infos@, old(self).set->0.opts@.len()),
            all_fit(old(self).set->0.opts@),
            msg.spec_ready(),
        ensures
            keeps_frame(*final(self), *old(self)),
            final(self).msg_id_gen == old(self).msg_id_gen,
            all_fit(final(self).set->0.opts@),
            r is Ok && fresh(msg) ==> forall|i: int| 0 <= i < old(self).set->0.opts@.len() && !touched_by(msg.spec_ctxs(), #[trigger] old(self).set->0.opts@[i])
                ==> untouched(final(self).set->0.opts@[i], old(self).set->0.opts@[i]),
            r is Ok && fresh(msg) ==> forall|i: int| 0 <= i < old(self).set->0.opts@.len() && !crate::opt::common::is_opt_kind((#[trigger] old(self).set->0.opts@[i]).kind)
                ==> final(self).set->0.opts@[i].value@ == old(self).set->0.opts@[i].value@ || final(self).set->0.opts@[i].value@ is Bool,
            r matches Ok((m, f)) ==> (fresh(msg) && m ==> covered(msg.spec_ctxs(), reg_opts(old(self).set->0.opts@, old(self).cached_infos@))),
            r matches Ok((m, f)) ==> (final(self).argument_matched ==> old(self).argument_matched || m),
            r matches Ok((m, f)) ==> (fresh(msg) && whole(tolerant, msg.spec_ctxs()) ==> m == covered(msg.spec_ctxs(),
                reg_opts(old(self).set->0.opts@, old(self).cached_infos@))),
            r matches Ok((m, f)) ==> (fresh(msg) && whole(tolerant, msg.spec_ctxs()) ==> final(self).argument_matched
                == (old(self).argument_matched || (m && msg.spec_ctxs()[0].skip() && !f))),
            r matches Ok((m, f)) ==> (f ==> tolerant),
            r matches Ok((m, f)) ==> (fresh(msg) && whole(tolerant, msg.spec_ctxs()) ==> (f ==> m && msg.spec_ctxs().len() == 1
                && may_fail(msg.spec_ctxs()[0], reg_opts(old(self).set->0.opts@, old(self).cached_infos@)))),
            r matches Ok((m, f)) ==> (fresh(msg) && !f && m && msg.spec_ctxs().len() == 1 ==> may_succeed(msg.spec_ctxs()[0],
                reg_opts(old(self).set->0.opts@, old(self).cached_infos@))),
            r is Err ==> final(self).argument_matched == old(self).argument_matched,
            (tolerant || never_fails(msg.spec_ctxs()) || never_fails_in(msg.spec_ctxs(), reg_opts(old(self).set->0.opts@,
                old(self).cached_infos@))) && old(self).callbacks@.dom().is_empty() ==> r is Ok,
            r is Err && fresh(msg) ==> may_err(msg.spec_ctxs(), reg_opts(old(self).set->0.opts@, old(self).cached_infos@),
                old(self).cached_infos@, old(self).callbacks@),
            r is Ok && fresh(msg) && !tolerant ==> forall|x: int| 0 <= x < old(self).cached_infos@.len() && #[trigger] processed_at(
                msg.spec_ctxs(), reg_opts(old(self).set->0.opts@, old(self).cached_infos@), x) ==> callback_cleared(
                final(self).set->0.opts@, old(self).cached_infos@, x),
            r is Ok && fresh(msg) && !tolerant && old(self).callbacks@.dom().is_empty() && no_delay(msg.spec_ctxs())
                ==> forall|x: int| 0 <= x < old(self).cached_infos@.len() && #[trigger] processed_at(msg.spec_ctxs(),
                reg_opts(old(self).set->0.opts@, old(self).cached_infos@), x) ==> nonopt_set(final(self).set->0.opts@,
                old(self).cached_infos@, x),
            r is Ok && fresh(msg) && old(self).callbacks@.dom().is_empty() && no_delay(msg.spec_ctxs()) ==> forall|i: int|
                0 <= i < old(self).set->0.opts@.len() && !is_opt_kind((#[trigger] old(self).set->0.opts@[i]).kind)
                ==> final(self).set->0.opts@[i].value@ == old(self).set->0.opts@[i].value@
                || final(self).set->0.opts@[i].value@ == OptValueView::Bool(true),
            r matches Ok((m, f)) ==> (fresh(msg) && !f && shs.len() > 0 ==> agree_opts(values_of(final(self).set->0.opts@),
                publish_values(shs, no_flags(shs.len()), old(self).set->0.opts@, old(self).cached_infos@, 0,
                values_of(old(self).set->0.opts@)), old(self).set->0.opts@)),
    {
        let mut proc = msg;
        let ghost cs = proc.spec_ctxs();
        let ghost opts0 = self.set->0.opts@;
        let ghost ropts = reg_opts(opts0, self.cached_infos@);
        let ghost b = cs[0].skip();
        let ghost fr = fresh(proc);
        let ghost target = publish_values(shs, flags_upto(shs, ropts, 0), opts0, self.cached_infos@, 0, values_of(opts0));
        proof {
            reveal(flags_upto);
            assert(flags_upto(shs, ropts, 0) =~= no_flags(shs.len()));
            lemma_publish_len(shs, flags_upto(shs, ropts, 0), opts0, self.cached_infos@, 0, values_of(opts0));
        }
        let mut k: usize = 0;
        let n = self.cached_infos.len();
        let mut failed = false;
        let ghost mut clean = fr;
        let ghost quiet = fr && !tolerant && old(self).callbacks@.dom().is_empty() && no_delay(cs);
        let ghost calm = fr && old(self).callbacks@.dom().is_empty() && no_delay(cs);
        proof {
            reveal(nonopts_taken);
            reveal(nonopts_kept);
        }
        while k < n
            invariant_except_break
                fr ==> !all_matched(proc.spec_ctxs()),
                clean ==> !failed,
                fr && !failed && shs.len() > 0 ==> agree_opts(publish_values(shs, flags_upto(shs, ropts, k as int), opts0,
                    self.cached_infos@, k as int, values_of(self.set->0.opts@)), target, opts0),
            invariant
                shs.len() > 0 ==> shs.len() == cs.len(),
                forall|j: int| 0 <= j < shs.len() ==> has_shape(#[trigger] cs[j], shs[j]),
                forall|j: int| 0 <= j < shs.len() ==> !(#[trigger] shs[j]).delay,
                target == publish_values(shs, flags_upto(shs, ropts, 0), opts0, self.cached_infos@, 0, values_of(opts0)),
                target.len() == opts0.len(),
                fr ==> cs.len() > 0,
                cs == msg.spec_ctxs(),
                fresh(msg) ==> fr,
                fr && !tolerant ==> forall|x: int| 0 <= x < k && #[trigger] processed_at(cs, ropts, x) ==> callback_cleared(
                    self.set->0.opts@, self.cached_infos@, x),
                quiet ==> nonopts_taken(cs, ropts, self.set->0.opts@, self.cached_infos@, k as int),
                quiet == (fr && !tolerant && old(self).callbacks@.dom().is_empty() && no_delay(cs)),
                calm == (fr && old(self).callbacks@.dom().is_empty() && no_delay(cs)),
                calm ==> nonopts_kept(self.set->0.opts@, opts0),
                clean ==> fr,
                fr && !failed ==> clean,
                fr && !clean ==> !whole(tolerant, cs),
                failed ==> tolerant,
                n == self.cached_infos@.len(),
                k <= n,
                keeps_frame(*self, *old(self)),
                self.msg_id_gen == old(self).msg_id_gen,
                self.argument_matched == old(self).argument_matched,
                opts0 == old(self).set->0.opts@,
                ropts == reg_opts(opts0, self.cached_infos@),
                infos_valid(self.cached_infos@, opts0.len()),
                all_fit(self.set->0.opts@),
                proc.spec_ready(),
                proc.spec_ctxs().len() == cs.len(),
                b == cs[0].skip(),
                fr ==> forall|j: int| 0 <= j < cs.len() ==> (#[trigger] cs[j]).skip() == b,
                fr ==> forall|j: int| 0 <= j < cs.len() ==> !(#[trigger] cs[j]).matched(),
                forall|j: int| 0 <= j < cs.len() ==> #[trigger] proc.spec_ctxs()[j] == cs[j] || (proc.spec_ctxs()[j] == cs[j].after_match()
                    && exists|x: int| 0 <= x < k && cs[j].matches(#[trigger] ropts[x])),
                clean ==> forall|j: int| 0 <= j < cs.len() ==> (#[trigger] proc.spec_ctxs()[j]) == (if exists|x: int| 0 <= x < k && cs[j].matches(#[trigger] ropts[x]) { cs[j].after_match() } else { cs[j] }),
                clean ==> proc.spec_need_argument() == (proc.spec_matched_index() is Some && b),
                fr ==> forall|i: int| 0 <= i < opts0.len() && !touched_by(cs, #[trigger] opts0[i]) ==> untouched(self.set->0.opts@[i], opts0[i]),
                fr ==> forall|i: int| 0 <= i < opts0.len() && !crate::opt::common::is_opt_kind((#[trigger] opts0[i]).kind)
                    ==> self.set->0.opts@[i].value@ == opts0[i].value@ || self.set->0.opts@[i].value@ is Bool,
            ensures
                fr && !tolerant ==> forall|x: int| 0 <= x < n && #[trigger] processed_at(cs, ropts, x) ==> callback_cleared(
                    self.set->0.opts@, self.cached_infos@, x),
                quiet ==> nonopts_taken(cs, ropts, self.set->0.opts@, self.cached_infos@, n as int),
                calm ==> nonopts_kept(self.set->0.opts@, opts0),
                fr && !failed && shs.len() > 0 ==> agree_opts(values_of(self.set->0.opts@), target, opts0),
                keeps_frame(*self, *old(self)),
                self.msg_id_gen == old(self).msg_id_gen,
                all_fit(self.set->0.opts@),
                fr ==> forall|i: int| 0 <= i < opts0.len() && !touched_by(cs, #[trigger] opts0[i]) ==> untouched(self.set->0.opts@[i], opts0[i]),
                fr ==> forall|i: int| 0 <= i < opts0.len() && !crate::opt::common::is_opt_kind((#[trigger] opts0[i]).kind)
                    ==> self.set->0.opts@[i].value@ == opts0[i].value@ || self.set->0.opts@[i].value@ is Bool,
                proc.spec_ready(),
                fr && all_matched(proc.spec_ctxs()) ==> covered(cs, ropts),
                clean ==> fr,
                fr && !failed ==> clean,
                fr && !clean ==> !whole(tolerant, cs),
                clean ==> all_matched(proc.spec_ctxs()) == covered(cs, ropts),
                clean && all_matched(proc.spec_ctxs()) && !failed ==> proc.spec_need_argument() == b,
                failed ==> tolerant,
                clean && failed ==> cs.len() == 1 && all_matched(proc.spec_ctxs()) && !proc.spec_need_argument()
                    && may_fail(cs[0], ropts),
                fr && !failed && all_matched(proc.spec_ctxs()) && cs.len() == 1 ==> may_succeed(cs[0], ropts),
                self.argument_matched == old(self).argument_matched,
            decreases n - k,
        {
            let id = self.cached_infos[k].id;
            let len = match &self.set {
                Some(s) => s.opts.len(),
                None => 0,
            };
            assert(id.0 < len);
            let i = id.0 as usize;
            let ghost prev = proc.spec_ctxs();
            let ghost cur = self.set->0.opts@[i as int];
            let ghost opts_before = self.set->0.opts@;
            assert(ropts[k as int] == opts0[i as int]);
            assert(same_static(cur, opts0[i as int]));
            let step = match &mut self.set {
                Some(set) => process_at(set, i, &mut proc),
                None => {
                    assert(false);
                    unreached()
                },
            };
            let (res, t, invoke) = match step {
                Ok(x) => x,
                Err(e) => {
                    proof {
                        lemma_never_fails_in(cs, prev, cur, ropts, k as int);
                    }
                    proof {
                        if never_fails(cs) {
                            assert forall|j: int| 0 <= j < prev.len() && crate::proc::newly(prev[j], cur) implies (#[trigger] prev[j]).ok_for(cur)
                                && cur.kind != OptKind::Path by {
                                lemma_after_match(cs[j], cur);
                                assert(prev[j] == cs[j]);
                                assert(cs[j].matches(cur));
                            }
                            let j = choose|j: int| 0 <= j < prev.len() && crate::proc::newly(#[trigger] prev[j], cur);
                            assert(cur.kind != OptKind::Path);
                            assert(crate::proc::all_ok(prev, cur));
                            assert(false);
                        }
                    }
                    if !tolerant {
                        return Err(e);
                    }
                    proof {
                        if fr && cs.len() != 1 {
                            if never_fails(cs) {
                                assert forall|j: int| 0 <= j < prev.len() && crate::proc::newly(prev[j], cur) implies (#[trigger] prev[j]).ok_for(cur) by {
                                    assert(!prev[j].matched());
                                    assert(prev[j] == cs[j]);
                                    assert(cs[j].matches(cur));
                                }
                                let j = choose|j: int| 0 <= j < prev.len() && crate::proc::newly(#[trigger] prev[j], cur);
                                assert(prev[j] == cs[j]);
                                assert(cs[j].matches(cur));
                                assert(false);
                            }
                        }
                        if cs.len() != 1 {
                            clean = false;
                        }
                    }
                    proof {
                        if clean {
                        let j = choose|j: int| 0 <= j < prev.len() && crate::proc::newly(#[trigger] prev[j], cur);
                        assert(j == 0);
                        assert(prev[0] == cs[0]);
                        lemma_matches_static(cs[0], cur, ropts[k as int]);
                        lemma_ok_for_static(cs[0], cur, ropts[k as int]);
                        assert forall|y: int| 0 <= y < k implies !cs[0].matches(#[trigger] ropts[y]) by {
                            if cs[0].matches(ropts[y]) {
                                assert(exists|x: int| 0 <= x < k && cs[0].matches(#[trigger] ropts[x]));
                                lemma_after_match(cs[0], cur);
                            }
                        }
                        assert(first_match(cs[0], ropts, k as int));
                        if !crate::proc::all_ok(prev, cur) {
                            let j2 = choose|j2: int| 0 <= j2 < prev.len() && crate::proc::newly(prev[j2], cur) && !(#[trigger] prev[j2]).ok_for(cur);
                            assert(j2 == 0);
                        }
                        assert(may_fail(cs[0], ropts));
                        }
                    }
                    failed = true;
                    (None, CallbackType::Null, false)
                },
            };
            proof {
                assert forall|j: int| 0 <= j < cs.len() implies #[trigger] proc.spec_ctxs()[j] == cs[j] || (proc.spec_ctxs()[j] == cs[j].after_match()
                    && exists|x: int| 0 <= x < k + 1 && cs[j].matches(#[trigger] ropts[x])) by {
                    lemma_matches_static(cs[j], cur, ropts[k as int]);
                    lemma_after_match(cs[j], cur);
                    if exists|x: int| 0 <= x < k && cs[j].matches(#[trigger] ropts[x]) {
                        let x = choose|x: int| 0 <= x < k && cs[j].matches(#[trigger] ropts[x]);
                        assert(0 <= x < k + 1 && cs[j].matches(ropts[x]));
                    }
                    if proc.spec_ctxs()[j] != prev[j] {
                        assert(!all_matched(prev));
                        assert(crate::proc::newly(prev[j], cur));
                        assert(prev[j] == cs[j]);
                        assert(0 <= k < k + 1 && cs[j].matches(ropts[k as int]));
                    }
                }
            }
            proof {
                if clean {
                assert forall|j: int| 0 <= j < cs.len() implies (#[trigger] proc.spec_ctxs()[j]) == (if exists|x: int| 0 <= x < k + 1 && cs[j].matches(#[trigger] ropts[x]) { cs[j].after_match() } else { cs[j] }) by {
                    lemma_matches_static(cs[j], cur, ropts[k as int]);
                    lemma_after_match(cs[j], cur);
                    if exists|x: int| 0 <= x < k && cs[j].matches(#[trigger] ropts[x]) {
                        let x = choose|x: int| 0 <= x < k && cs[j].matches(#[trigger] ropts[x]);
                        assert(0 <= x < k + 1 && cs[j].matches(ropts[x]));
                    } else {
                        if cs[j].matches(ropts[k as int]) {
                            assert(0 <= k < k + 1 && cs[j].matches(ropts[k as int]));
                        } else {
                            assert forall|x: int| 0 <= x < k + 1 implies !cs[j].matches(#[trigger] ropts[x]) by {
                                if x < k {
                                } else {
                                    assert(x == k);
                                }
                            }
                        }
                    }
                }
                }
                if fr && !touched_by(cs, opts0[i as int]) {
                    assert forall|j: int| 0 <= j < prev.len() implies !crate::proc::newly(#[trigger] prev[j], cur) by {
                        lemma_matches_static(cs[j], cur, opts0[i as int]);
                        lemma_after_match(cs[j], cur);
                    }
                    lemma_fold_untouched(prev, cur, cur.value@);
                }
                if fr && !crate::opt::common::is_opt_kind(cur.kind) {
                    lemma_fold_nonopt(prev, cur, cur.value@);
                }
                if calm && !crate::opt::common::is_opt_kind(cur.kind) {
                    assert(no_delay(prev)) by {
                        assert forall|j: int| 0 <= j < prev.len() implies !((#[trigger] prev[j]) is Delay) by {
                            assert(!(cs[j] is Delay));
                        }
                    }
                    lemma_fold_nonopt_true(prev, cur, cur.value@);
                }
            }
            let ghost opts_mid = self.set->0.opts@;
            if invoke {
                if let Some(index) = res {
                    proof {
                        if calm {
                            assert(!self.callbacks@.dom().contains(id.0));
                        }
                    }
                    match self.invoke_callback(id, t, index) {
                        Ok(_) => {},
                        Err(e) => {
                            proof {
                                if fr {
                                    assert(touched_by(cs, ropts[k as int]) && old(self).callbacks@.contains_key(
                                        old(self).cached_infos@[k as int].id.0)) by {
                                        lemma_touched_now(cs, prev, cur, ropts, k as int);
                                    }
                                }
                            }
                            return Err(e);
                        },
                    }
                }
            }
            proof {
                if fr && !tolerant {
                    lemma_cleared_step(cs, prev, cur, ropts, self.cached_infos@, k as int, i as int, opts_before,
                        self.set->0.opts@);
                }
                if calm {
                    if !any_newly(prev, cur) {
                        lemma_fold_untouched(prev, cur, cur.value@);
                    }
                    assert(same_static(self.set->0.opts@[i as int], opts_before[i as int]));
                    assert(same_static(opts_before[i as int], opts0[i as int]));
                    lemma_kept_step(opts0, opts_before, self.set->0.opts@, i as int);
                    if quiet {
                        lemma_set_step(cs, prev, cur, ropts, self.cached_infos@, k as int, i as int, opts_before,
                            self.set->0.opts@);
                    }
                }
            }
            k = k + 1;
            proof {
                if fr && !failed && shs.len() > 0 {
                    let vals_new = values_of(self.set->0.opts@);
                    let vals_b = values_of(opts_before);
                    assert(is_opt_kind(cur.kind) ==> self.set->0.opts@[i as int] == opts_mid[i as int]);
                    assert(is_opt_kind(cur.kind) ==> vals_new[i as int] == fold_value(prev, cur, vals_b[i as int]));
                    assert forall|x: int| 0 <= x < opts0.len() && x != i && is_opt_kind((#[trigger] opts0[x]).kind) implies vals_new[x] == vals_b[x] by {
                        assert(opts_mid[x] == opts_before[x]);
                    }
                    lemma_flags_ctxs(shs, cs, prev, ropts, k - 1);
                    lemma_flags_ctxs(shs, cs, proc.spec_ctxs(), ropts, k as int);
                    lemma_publish_step(shs, cs, prev, opts0, self.cached_infos@, k - 1, cur, vals_b, vals_new, target);
                }
            }
            if proc.is_matched() {
                proof {
                    if fr {
                    assert forall|j: int| 0 <= j < cs.len() implies ctx_covered(#[trigger] cs[j], ropts) by {
                        assert(proc.spec_ctxs()[j].matched());
                        assert(proc.spec_ctxs()[j] != cs[j]);
                        let x = choose|x: int| 0 <= x < k && cs[j].matches(#[trigger] ropts[x]);
                        assert(0 <= x < ropts.len());
                    }
                    if clean {
                    let j = choose|j: int| 0 <= j < prev.len() && !(#[trigger] prev[j]).matched();
                    assert(proc.spec_ctxs()[j].matched());
                    assert(crate::proc::newly(prev[j], cur));
                    assert(any_newly(prev, cur));
                    if !failed && cs.len() == 1 {
                        assert(j == 0);
                        assert(prev[0] == cs[0]);
                        lemma_matches_static(cs[0], cur, ropts[k - 1]);
                        lemma_ok_for_static(cs[0], cur, ropts[k - 1]);
                        assert forall|y: int| 0 <= y < k - 1 implies !cs[0].matches(#[trigger] ropts[y]) by {
                            if cs[0].matches(ropts[y]) {
                                assert(exists|x: int| 0 <= x < k - 1 && cs[0].matches(#[trigger] ropts[x]));
                                lemma_after_match(cs[0], cur);
                            }
                        }
                        assert(first_match(cs[0], ropts, k - 1));
                        assert(prev[0].ok_for(cur));
                        assert(may_succeed(cs[0], ropts));
                    }
                    }
                    }
                }
                proof {
                    if fr && !tolerant {
                        assert forall|x: int| 0 <= x < n && #[trigger] processed_at(cs, ropts, x) implies callback_cleared(
                            self.set->0.opts@, self.cached_infos@, x) by {
                            if x >= k {
                                lemma_none_after(cs, proc.spec_ctxs(), ropts, k as int, x);
                            }
                        }
                    }
                    if quiet {
                        lemma_taken_all(cs, proc.spec_ctxs(), ropts, self.set->0.opts@, self.cached_infos@, k as int, n as int);
                    }
                }
                break;
            }
        }
        let m = proc.is_matched();
        if m && proc.is_need_argument() {
            self.set_argument_matched();
        }
        proof {
            reveal(nonopts_taken);
            reveal(nonopts_kept);
        }
        Ok((m, failed))
    }

    /// Match the proc against the options, in the order of the information the
    /// parser keeps; it stops once every context of the proc matched. It answers
    /// whether they all did. An option that processes a context has its callback
    /// invoked and is left with no callback due; an error of processing or of a
    /// callback is handed back. What it does is stated for a proc just made; one
    /// that matched before only keeps the set's static parts as they are.
    pub fn publish<P: Proc>(&mut self, proc: P) -> (r: Result<bool>)
        requires
            old(self).set is Some,
            infos_valid(old(self).cached_infos@, old(self).set->0.opts@.len()),
            all_fit(old(self).set->0.opts@),
            proc.spec_ready(),
        ensures
            keeps_frame(*final(self), *old(self)),
            final(self).msg_id_gen == old(self).msg_id_gen,
            all_fit(final(self).set->0.opts@),
            (never_fails(proc.spec_ctxs()) || never_fails_in(proc.spec_ctxs(), reg_opts(old(self).set->0.opts@,
                old(self).cached_infos@))) && old(self).callbacks@.dom().is_empty() ==> r is Ok,
            r is Err && fresh(proc) ==> may_err(proc.spec_ctxs(), reg_opts(old(self).set->0.opts@, old(self).cached_infos@),
                old(self).cached_infos@, old(self).callbacks@),
            r is Ok && fresh(proc) ==> forall|x: int| 0 <= x < old(self).cached_infos@.len() && #[trigger] processed_at(
                proc.spec_ctxs(), reg_opts(old(self).set->0.opts@, old(self).cached_infos@), x) ==> callback_cleared(
                final(self).set->0.opts@, old(self).cached_infos@, x),
            r matches Ok(m) ==> (final(self).argument_matched ==> old(self).argument_matched || m),
            r is Err ==> final(self).argument_matched == old(self).argument_matched,
            fresh(proc) && r is Ok ==> forall|i: int| 0 <= i < old(self).set->0.opts@.len() && !touched_by(proc.spec_ctxs(), #[trigger] old(self).set->0.opts@[i])
                ==> untouched(final(self).set->0.opts@[i], old(self).set->0.opts@[i]),
            fresh(proc) && r is Ok ==> forall|i: int| 0 <= i < old(self).set->0.opts@.len() && !crate::opt::common::is_opt_kind((#[trigger] old(self).set->0.opts@[i]).kind)
                ==> final(self).set->0.opts@[i].value@ == old(self).set->0.opts@[i].value@ || final(self).set->0.opts@[i].value@ is Bool,
            r matches Ok(m) ==> (fresh(proc) ==> m == covered(proc.spec_ctxs(), reg_opts(old(self).set->0.opts@, old(self).cached_infos@))),
            r matches Ok(m) ==> (fresh(proc) ==> final(self).argument_matched == (old(self).argument_matched || (m && proc.spec_ctxs()[0].skip()))),
    {
        let (m, _) = self.publish_core(proc, false, Ghost(Seq::empty()))?;
        Ok(m)
    }
}

/// The value of `o` once a callback answered `b` for it.
pub open spec fn answer_value(o: CommonOpt, b: bool) -> OptValueView {
    crate::opt::common::value_after_set(o.kind, o.value@, OptValueView::Bool(b))
}

/// Invoking the callback of the option `id` calls nothing: no callback is
/// registered for it, none is due, or an index callback finds no non-option
/// argument at the option's position.
pub open spec fn callback_idle(p: ForwardParser, id: Identifier, callback_type: CallbackType, index: u64) -> bool {
    ||| !p.callbacks@.contains_key(id.0)
    ||| callback_type == CallbackType::Null
    ||| callback_type == CallbackType::Index && !(crate::opt::spec_calc_index(p.set->0.opts@[id.0 as int].index@,
        p.noa@.len() as u64, index) matches Some(at) && 1 <= at <= p.noa@.len())
}

/// The position among the non-option arguments that the option `id` stands for,
/// when `index` is its own position.
pub open spec fn position_of(p: ForwardParser, id: Identifier, index: u64) -> int {
    crate::opt::spec_calc_index(p.set->0.opts@[id.0 as int].index@, p.noa@.len() as u64, index)->0 as int
}

/// What an invocation answers once the callback answered `a`: its error, or success.
pub open spec fn settle(a: Result<bool>) -> Result<bool> {
    match a {
        Ok(_) => Ok(true),
        Err(e) => Err(e),
    }
}

/// What invoking the callback of the option `id` (due as `t`) makes of the calls
/// of the parser `p`, which ends as `q` with the answer `r`. Where a callback of
/// type `t` is registered and due, it is called once: a value callback with the
/// option, an index callback with the non-option argument at the option's position,
/// a main callback with all the non-option arguments; the invocation answers the
/// callback's error, or success, and an index or main callback's boolean becomes
/// the option's value. Otherwise nothing is called and the invocation succeeds.
pub open spec fn callback_invoked(p: ForwardParser, q: ForwardParser, id: Identifier, t: CallbackType, index: u64, r: Result<bool>) -> bool {
    if callback_idle(p, id, t, index) || p.callbacks@[id.0].spec_type() != t {
        q.calls@ == p.calls@ && r == Ok::<bool, Error>(true)
    } else {
        let a = q.calls@.last().answer();
        &&& q.calls@ == p.calls@.push(match t {
            CallbackType::Value => CallRecord::Value(id.0, p.set->0.opts@[id.0 as int], a),
            CallbackType::Index => CallRecord::Index(id.0, p.noa@[position_of(p, id, index) - 1]@, a),
            _ => CallRecord::Main(id.0, crate::arg::strings_view(p.noa@), a),
        })
        &&& r == settle(a)
        &&& t != CallbackType::Value ==> (a matches Ok(b) ==> q.set->0.opts@[id.0 as int].value@ == answer_value(
            p.set->0.opts@[id.0 as int], b))
    }
}

/// An index callback that is due is handed the non-option argument at the position
/// its option stands for, and nothing else is called.
pub proof fn law_index_callback_argument(p: ForwardParser, q: ForwardParser, id: Identifier, index: u64, r: Result<bool>, at: u64)
    requires
        callback_invoked(p, q, id, CallbackType::Index, index, r),
        p.set is Some,
        id.0 < p.set->0.opts@.len(),
        p.callbacks@.contains_key(id.0),
        p.callbacks@[id.0].spec_type() == CallbackType::Index,
        crate::opt::spec_calc_index(p.set->0.opts@[id.0 as int].index@, p.noa@.len() as u64, index) == Some(at),
        1 <= at <= p.noa@.len(),
    ensures
        q.calls@.len() == p.calls@.len() + 1,
        q.calls@.take(p.calls@.len() as int) == p.calls@,
        q.calls@.last() matches CallRecord::Index(k, s, _) && k == id.0 && s == p.noa@[at - 1]@,
{
    assert(!callback_idle(p, id, CallbackType::Index, index));
    assert(q.calls@.take(p.calls@.len() as int) =~= p.calls@);
}

/// An invocation that calls a callback answers the callback's error where it
/// answered one, and succeeds where it answered a boolean; an invocation fails
/// only with the error of the callback it called.
pub proof fn law_callback_error_ends_invocation(p: ForwardParser, q: ForwardParser, id: Identifier, t: CallbackType, index: u64, r: Result<bool>)
    requires
        callback_invoked(p, q, id, t, index, r),
    ensures
        q.calls@.len() > p.calls@.len() ==> {
            &&& q.calls@.last().answer() is Err ==> r == q.calls@.last().answer()
            &&& q.calls@.last().answer() is Ok ==> r == Ok::<bool, Error>(true)
        },
        r is Err ==> q.calls@.len() == p.calls@.len() + 1 && r == q.calls@.last().answer(),
{
}

impl ForwardParser {
    /// Use `id_generator` for the identifiers of procs.
    pub fn set_id_generator(&mut self, id_generator: DefaultIdGen)
        ensures
            final(self).msg_id_gen == id_generator,
            final(self).cached_infos == old(self).cached_infos,
            final(self).noa == old(self).noa,
            final(self).set == old(self).set,
            final(self).argument_matched == old(self).argument_matched,
            final(self).callbacks == old(self).callbacks,
    {
        self.msg_id_gen = id_generator;
    }

    /// Register the callback of the option `id`, in place of one registered before.
    pub fn set_callback(&mut self, id: Identifier, callback: OptCallback)
        ensures
            final(self).callbacks@ == old(self).callbacks@.insert(id.0, callback),
            final(self).msg_id_gen == old(self).msg_id_gen,
            final(self).cached_infos == old(self).cached_infos,
            final(self).noa == old(self).noa,
            final(self).set == old(self).set,
            final(self).argument_matched == old(self).argument_matched,
    {
        self.callbacks.insert(id.0, callback);
    }

    /// Parse for the set `set`.
    pub fn publish_to(&mut self, set: DefaultSet)
        ensures
            final(self).set == Some(set),
            final(self).msg_id_gen == old(self).msg_id_gen,
            final(self).cached_infos == old(self).cached_infos,
            final(self).noa == old(self).noa,
            final(self).argument_matched == old(self).argument_matched,
            final(self).callbacks == old(self).callbacks,
    {
        self.set = Some(set);
    }

    pub fn set(&self) -> (r: &Option<DefaultSet>)
        ensures
            *r == self.set,
    {
        &self.set
    }

    /// The option `id` of the set.
    pub fn get_opt(&self, id: Identifier) -> (r: Option<&CommonOpt>)
        requires
            self.set is Some,
        ensures
            r is Some <==> id.0 < self.set->0.opts@.len(),
            r matches Some(o) ==> *o == self.set->0.opts@[id.0 as int],
    {
        match &self.set {
            Some(s) => s.get_opt(id),
            None => None,
        }
    }

    /// The non-option arguments.
    /// The option `id` of the set, to change in place.
    pub fn get_opt_mut(&mut self, id: Identifier) -> (r: Option<&mut CommonOpt>)
        requires
            old(self).set is Some,
        ensures
            final(self).set is Some,
            r is Some <==> id.0 < old(self).set->0.opts@.len(),
            r matches Some(o) ==> *o == old(self).set->0.opts@[id.0 as int]
                && final(self).set->0.opts@ == old(self).set->0.opts@.update(id.0 as int, *final(o)),
            r is None ==> final(self).set->0.opts == old(self).set->0.opts,
            final(self).set->0.utils == old(self).set->0.utils,
            final(self).set->0.prefixs == old(self).set->0.prefixs,
            final(self).msg_id_gen == old(self).msg_id_gen,
            final(self).cached_infos == old(self).cached_infos,
            final(self).noa == old(self).noa,
            final(self).argument_matched == old(self).argument_matched,
            final(self).callbacks == old(self).callbacks,
    {
        match &mut self.set {
            Some(s) => s.get_opt_mut(id),
            None => None,
        }
    }

    pub fn noa(&self) -> (r: &Vec<String>)
        ensures
            *r == self.noa,
    {
        &self.noa
    }

    pub fn pre_check(&self) -> (r: Result<bool>)
        requires
            self.set is Some,
        ensures
            r is Ok <==> forall|k: u64| self.callbacks@.contains_key(k) ==> #[trigger] super::check::callback_fits(
                self.set->0.opts@, Identifier(k), self.callbacks@[k].spec_type()),
    {
        match &self.set {
            Some(s) => super::check::parse_default_pre_check(s, &self.callbacks),
            None => Ok(true),
        }
    }

    pub fn check_opt(&self) -> (r: Result<bool>)
        requires
            self.set is Some,
        ensures
            r is Ok <==> super::check::opts_ok(self.set->0.opts@),
            r is Ok ==> r == Ok::<bool, Error>(true),
            r matches Err(e) ==> exists|i: int| 0 <= i < self.set->0.opts@.len() && is_opt_kind((#[trigger] self.set->0.opts@[i]).kind)
                && !super::check::opt_ok(self.set->0.opts@[i]) && (e matches Error::OptionForceRequired(m) && m@
                == self.set->0.opts@[i].spec_prefix() + self.set->0.opts@[i].name@) && forall|j: int| 0 <= j < i && is_opt_kind(
                (#[trigger] self.set->0.opts@[j]).kind) ==> super::check::opt_ok(self.set->0.opts@[j]),
    {
        match &self.set {
            Some(s) => super::check::parser_default_opt_check(s),
            None => Ok(true),
        }
    }

    pub fn check_nonopt(&self) -> (r: Result<bool>)
        requires
            self.set is Some,
        ensures
            r is Ok <==> super::check::nonopts_ok(self.set->0.opts@),
            r is Ok ==> r == Ok::<bool, Error>(true),
            r matches Err(e) ==> exists|i: int| 0 <= i < self.set->0.opts@.len() && !is_opt_kind((#[trigger] self.set->0.opts@[i]).kind)
                && !super::check::group_valid(self.set->0.opts@, super::check::nonopt_key(self.set->0.opts@[i])) && (e matches Error::NonOptionForceRequired(m)
                && m@ == super::check::group_names(self.set->0.opts@, super::check::nonopt_key(self.set->0.opts@[i]), self.set->0.opts@.len() as int)),
    {
        match &self.set {
            Some(s) => super::check::parser_default_nonopt_check(s),
            None => Ok(true),
        }
    }

    /// Nothing else is checked.
    pub fn check_other(&self) -> (r: Result<bool>)
        ensures
            r == Ok::<bool, Error>(true),
    {
        Ok(true)
    }

    /// Forget the non-option arguments and set every option back to its default.
    pub fn reset(&mut self)
        requires
            old(self).set is Some,
        ensures
            final(self).noa@.len() == 0,
            !final(self).argument_matched,
            final(self).set is Some,
            crate::set::same_but_values(final(self).set->0.opts@, old(self).set->0.opts@),
            forall|i: int| 0 <= i < final(self).set->0.opts@.len() ==> (#[trigger] final(self).set->0.opts@[i]).value@
                == old(self).set->0.opts@[i].spec_after_reset(),
            final(self).set->0.utils == old(self).set->0.utils,
            final(self).set->0.prefixs == old(self).set->0.prefixs,
            final(self).msg_id_gen == old(self).msg_id_gen,
            final(self).cached_infos == old(self).cached_infos,
            final(self).callbacks == old(self).callbacks,
    {
        self.noa.clear();
        match &mut self.set {
            Some(s) => s.reset(),
            None => {},
        }
        self.argument_matched = false;
    }
}

impl Publisher for ForwardParser {
    open spec fn spec_infos(&self) -> Seq<OptionInfo> {
        self.cached_infos@
    }

    /// Keep the information, after what was kept before.
    fn reg_subscriber(&mut self, info: OptionInfo)
        ensures
            final(self).cached_infos@ == old(self).cached_infos@.push(info),
            final(self).set == old(self).set,
            final(self).noa == old(self).noa,
    {
        self.cached_infos.push(info);
    }

    fn clean(&mut self)
        ensures
            final(self).cached_infos@.len() == 0,
            final(self).set == old(self).set,
            final(self).noa == old(self).noa,
    {
        self.cached_infos.clear();
    }
}

impl Default for ForwardParser {
    fn default() -> (r: Self)
        ensures
            r.msg_id_gen.id.0 == 0,
            r.cached_infos@.len() == 0,
            r.noa@.len() == 0,
            r.set is None,
            r.callbacks@.dom().is_empty(),
    {
        ForwardParser::new(DefaultIdGen::default())
    }
}

/// Set the value of the option at `i` to the answer of its callback.
fn set_value_at(set: &mut DefaultSet, i: usize, ret: bool)
    requires
        i < old(set).opts@.len(),
    ensures
        final(set).opts@.len() == old(set).opts@.len(),
        final(set).utils@ == old(set).utils@,
        final(set).prefixs@ == old(set).prefixs@,
        forall|j: int| 0 <= j < old(set).opts@.len() && j != i ==> #[trigger] final(set).opts@[j] == old(set).opts@[j],
        same_static(final(set).opts@[i as int], old(set).opts@[i as int]),
        final(set).opts@[i as int].callback == old(set).opts@[i as int].callback,
        final(set).opts@[i as int].value@ == crate::opt::common::value_after_set(old(set).opts@[i as int].kind,
            old(set).opts@[i as int].value@, OptValueView::Bool(ret)),
        value_fits(old(set).opts@[i as int]) ==> value_fits(final(set).opts@[i as int]),
{
    let opt = &mut set.opts[i];
    opt.set_value(OptValue::from_bool(ret));
}

} // verus!
