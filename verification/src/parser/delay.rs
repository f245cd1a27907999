use vstd::prelude::*;

use crate::error::{Error, Result};
use crate::id::{DefaultIdGen, IdGenerator, Identifier};
use crate::callback::{CallbackType, OptCallback};
use crate::opt::{Callback, OptValue, OptValueView, OptionInfo, Style, Value};
use crate::opt::common::{CommonOpt, OptKind, is_opt_kind, same_static, value_after_set, value_fits};
use crate::proc::{Ctx, Proc, all_matched, any_newly, any_skip, ctxs_after, lemma_after_match};
use crate::set::{DefaultSet, Publisher, same_but_values};
use crate::arg::{ArgIterator, ArgIteratorView, Argument, IndexIterator, opt_str_view, spec_parse_argument, strings_view};
use super::gen::{CtxShape, GenStyle, gen_shapes, has_shape, shape_matches};
use super::waiting::{apply_keep, keep_view, lemma_apply_keep_len, lemma_apply_keep_push, lemma_flat_add, lemma_keep_step, multi_only, newly_shaped, same_args, shape_value};
use super::model::{agree_opts, all_true, cascade_values, flags_upto, lemma_expected_step, lemma_flags_ctxs, lemma_parse_agree, lemma_parse_len, no_flags, parse_values, publish_values, style_values, values_of};
use super::check::{callback_fits, nonopts_ok, opts_ok, parse_default_pre_check, parser_default_nonopt_check, parser_default_opt_check};
use super::driver::{
    arg_step, frame_kept, lemma_frame_more, lemma_nonopts_ok_kept, lemma_opts_ok_kept, lemma_shape, lemma_shape_ok,
    lemma_shapes_static, lemma_untouched_trans, named_between, names_option, next_of, remaining, shape_covered,
    shapes_covered, spec_noa, style_matched, style_names, pos_first, pos_taken, lemma_first_nonopt_static, cmd_taken, main_taken,
};
use super::forward::{
    ForwardParser, all_fit, callback_idle, fresh, covered, ctx_covered, infos_valid, keeps_frame, lemma_fold_nonopt,
    lemma_fold_untouched, lemma_matches_static, reg_opts, same_callbacks, same_statics, touched_by, untouched, answer_value, lemma_ok_for_static,
    first_nonopt, lemma_fold_nonopt_true, lemma_set_step, no_delay, nonopt_set, processed_at, nonopts_taken, nonopts_kept,
    lemma_kept_step, lemma_taken_all,
};

verus! {

/// Every value waiting in `vm` belongs to one of the `n` options.
pub open spec fn mapper_valid(vm: Seq<(Identifier, Vec<OptValue>)>, n: nat) -> bool {
    forall|k: int| 0 <= k < vm.len() ==> (#[trigger] vm[k]).0.0 < n
}

pub open spec fn values_view(v: Seq<OptValue>) -> Seq<OptValueView> {
    v.map_values(|x: OptValue| x@)
}

/// The styles whose values wait.
pub open spec fn opt_style(s: Style) -> bool {
    s == Style::Argument || s == Style::Boolean || s == Style::Multiple
}

/// No context of `cs` has a style whose values wait.
pub open spec fn no_opt_style(cs: Seq<Ctx>) -> bool {
    forall|j: int| 0 <= j < cs.len() ==> !opt_style(#[trigger] cs[j].style())
}

/// The contexts are delay contexts of the styles whose values wait.
pub open spec fn delay_ctxs(cs: Seq<Ctx>) -> bool {
    forall|j: int| 0 <= j < cs.len() ==> (#[trigger] cs[j]) is Delay && opt_style(cs[j].style())
}

/// Delay contexts leave the value of the option alone.
pub proof fn lemma_fold_delay(cs: Seq<Ctx>, o: CommonOpt, v: OptValueView)
    requires
        delay_ctxs(cs),
    ensures
        crate::proc::fold_value(cs, o, v) == v,
    decreases cs.len(),
{
    if cs.len() > 0 {
        assert(delay_ctxs(cs.drop_last())) by {
            assert forall|j: int| 0 <= j < cs.drop_last().len() implies (#[trigger] cs.drop_last()[j]) is Delay
                && opt_style(cs.drop_last()[j].style()) by {
                assert(cs.drop_last()[j] == cs[j]);
            }
        }
        lemma_fold_delay(cs.drop_last(), o, v);
        assert(cs.last() is Delay);
    }
}

/// The options that have values waiting, in order.
pub open spec fn mapper_ids(vm: Seq<(Identifier, Vec<OptValue>)>) -> Seq<Identifier> {
    vm.map_values(|e: (Identifier, Vec<OptValue>)| e.0)
}

/// Every option with values waiting is among the options with values waiting.
pub proof fn lemma_mapper_ids(vm: Seq<(Identifier, Vec<OptValue>)>)
    ensures
        forall|k: int| 0 <= k < vm.len() ==> mapper_ids(vm).contains(#[trigger] vm[k].0),
{
    assert forall|k: int| 0 <= k < vm.len() implies mapper_ids(vm).contains(#[trigger] vm[k].0) by {
        assert(mapper_ids(vm)[k] == vm[k].0);
    }
}

/// The value of an option of kind `kind` once the values `vs` were set on `w`, in
/// order.
pub open spec fn fold_sets(kind: OptKind, w: OptValueView, vs: Seq<OptValueView>) -> OptValueView
    decreases vs.len(),
{
    if vs.len() == 0 {
        w
    } else {
        value_after_set(kind, fold_sets(kind, w, vs.drop_last()), vs.last())
    }
}

/// The values waiting in `vm` for the option at `x`, in the order they are set.
pub open spec fn flat(vm: Seq<(Identifier, Vec<OptValue>)>, x: int) -> Seq<OptValueView>
    decreases vm.len(),
{
    if vm.len() == 0 {
        Seq::empty()
    } else {
        flat(vm.drop_last(), x) + (if vm.last().0.0 == x { values_view(vm.last().1@) } else { Seq::empty() })
    }
}

/// The values the options would hold once the values waiting in `vm` were set.
pub open spec fn pending_values(opts: Seq<CommonOpt>, vm: Seq<(Identifier, Vec<OptValue>)>) -> Seq<OptValueView> {
    Seq::new(opts.len(), |x: int| fold_sets(opts[x].kind, opts[x].value@, flat(vm, x)))
}

/// No option (a non-option aside) has the callback of a non-option due.
pub open spec fn plain_callbacks(opts: Seq<CommonOpt>) -> bool {
    forall|x: int| 0 <= x < opts.len() && is_opt_kind((#[trigger] opts[x]).kind)
        ==> opts[x].callback == CallbackType::Null || opts[x].callback == CallbackType::Value
}

/// Setting two runs of values is setting the one and then the other.
pub proof fn lemma_fold_sets_append(kind: OptKind, w: OptValueView, a: Seq<OptValueView>, b: Seq<OptValueView>)
    ensures
        fold_sets(kind, w, a + b) == fold_sets(kind, fold_sets(kind, w, a), b),
    decreases b.len(),
{
    if b.len() == 0 {
        assert(a + b =~= a);
    } else {
        lemma_fold_sets_append(kind, w, a, b.drop_last());
        assert((a + b).drop_last() =~= a + b.drop_last());
    }
}

/// No option of `ropts` that answers to one of the contexts `cs` can fail to
/// process it or to parse the argument the contexts share as its value.
pub open spec fn delay_safe_in(cs: Seq<Ctx>, ropts: Seq<CommonOpt>) -> bool {
    &&& forall|j: int, j2: int| 0 <= j < cs.len() && 0 <= j2 < cs.len() ==> #[trigger] cs[j].argument()
        == #[trigger] cs[j2].argument()
    &&& forall|j: int, x: int| 0 <= j < cs.len() && 0 <= x < ropts.len() && #[trigger] cs[j].matches(ropts[x])
        ==> cs[j].ok_for(ropts[x]) && ropts[x].kind != OptKind::Path
            && ropts[x].spec_parse_value(super::gen::or_empty(cs[j].argument())) is Some
}

/// No option of `ropts` that answers to a context of the shapes can fail to
/// process it or to parse the argument the shapes share as its value.
pub open spec fn delay_shapes_safe_in(shs: Seq<CtxShape>, ropts: Seq<CommonOpt>) -> bool {
    &&& forall|j: int, j2: int| 0 <= j < shs.len() && 0 <= j2 < shs.len() ==> #[trigger] shs[j].arg == #[trigger] shs[j2].arg
    &&& forall|j: int, x: int| 0 <= j < shs.len() && 0 <= x < ropts.len() && #[trigger] shape_matches(shs[j], ropts[x])
        ==> !(crate::opt::common::kind_accepts_style(ropts[x].kind, Style::Argument) && shs[j].arg is None)
            && ropts[x].kind != OptKind::Path && ropts[x].spec_parse_value(super::gen::or_empty(shs[j].arg)) is Some
}

/// No option of `ropts` can fail on the argument `a`, in any of the styles that
/// the delay parser tries on it.
pub open spec fn delay_arg_safe(ropts: Seq<CommonOpt>, prefixs: Seq<Seq<char>>, a: Seq<char>, next: Option<Seq<char>>) -> bool {
    match spec_parse_argument(a, prefixs) {
        None => true,
        Some((p, n, v)) => {
            &&& delay_shapes_safe_in(gen_shapes(GenStyle::GS_Delay_Equal_With_Value, Some(p), Some(n), v, next), ropts)
            &&& delay_shapes_safe_in(gen_shapes(GenStyle::GS_Delay_Argument, Some(p), Some(n), v, next), ropts)
            &&& delay_shapes_safe_in(gen_shapes(GenStyle::GS_Delay_Boolean, Some(p), Some(n), v, next), ropts)
            &&& delay_shapes_safe_in(gen_shapes(GenStyle::GS_Delay_Mutliple_Option, Some(p), Some(n), v, next), ropts)
            &&& delay_shapes_safe_in(gen_shapes(GenStyle::GS_Delay_Embedded_Value, Some(p), Some(n), v, next), ropts)
        },
    }
}

/// No option of `ropts` can fail on any of the arguments from position `i` on.
pub open spec fn delay_args_safe(ropts: Seq<CommonOpt>, prefixs: Seq<Seq<char>>, args: Seq<Seq<char>>, i: int) -> bool {
    forall|j: int| i <= j < args.len() ==> #[trigger] delay_arg_safe(ropts, prefixs, args[j], next_of(args, j))
}

/// Where no option can fail on the arguments, none can fail on the argument at
/// `i` in the style `gs`, whatever values the options hold by then.
pub proof fn lemma_delay_safe_now(gs: GenStyle, ropts0: Seq<CommonOpt>, before: Seq<CommonOpt>, opts0: Seq<CommonOpt>, infos: Seq<OptionInfo>, prefixs: Seq<Seq<char>>, args: Seq<Seq<char>>, start: int, i: int, p: Seq<char>, n: Seq<char>, v: Option<Seq<char>>)
    requires
        ropts0 == reg_opts(opts0, infos),
        same_statics(before, opts0),
        infos_valid(infos, opts0.len()),
        start <= i < args.len(),
        spec_parse_argument(args[i], prefixs) == Some((p, n, v)),
        gs == GenStyle::GS_Delay_Equal_With_Value || gs == GenStyle::GS_Delay_Argument || gs == GenStyle::GS_Delay_Boolean
            || gs == GenStyle::GS_Delay_Mutliple_Option || gs == GenStyle::GS_Delay_Embedded_Value,
        delay_args_safe(ropts0, prefixs, args, start),
    ensures
        delay_shapes_safe_in(gen_shapes(gs, Some(p), Some(n), v, next_of(args, i)), reg_opts(before, infos)),
{
    assert(delay_arg_safe(ropts0, prefixs, args[i], next_of(args, i)));
    let sh = gen_shapes(gs, Some(p), Some(n), v, next_of(args, i));
    let ra = reg_opts(before, infos);
    assert forall|j: int, k: int| 0 <= j < sh.len() && 0 <= k < ra.len() && #[trigger] shape_matches(sh[j], ra[k])
        implies !(crate::opt::common::kind_accepts_style(ra[k].kind, Style::Argument) && sh[j].arg is None)
        && ra[k].kind != OptKind::Path && ra[k].spec_parse_value(super::gen::or_empty(sh[j].arg)) is Some by {
        assert(ra[k] == before[infos[k].id.0 as int]);
        assert(ropts0[k] == opts0[infos[k].id.0 as int]);
        assert(same_static(ra[k], ropts0[k]));
        assert(shape_matches(sh[j], ropts0[k]));
    }
}

/// An option (of the static parts of `ropts[k]`) that fails to process contexts
/// that answer to it, none of which matched before, is one that can fail.
pub proof fn lemma_delay_fails(cs: Seq<Ctx>, prev: Seq<Ctx>, cur: CommonOpt, ropts: Seq<CommonOpt>, k: int)
    requires
        0 <= k < ropts.len(),
        same_static(cur, ropts[k]),
        prev.len() == cs.len(),
        forall|j: int| 0 <= j < cs.len() ==> #[trigger] prev[j] == cs[j] || prev[j] == cs[j].after_match(),
        any_newly(prev, cur),
        !crate::proc::all_ok(prev, cur) || cur.kind == OptKind::Path || exists|j: int| 0 <= j < prev.len()
            && cur.spec_parse_value(super::gen::or_empty((#[trigger] prev[j]).argument())) is None,
    ensures
        !delay_safe_in(cs, ropts),
{
    let j = choose|j: int| 0 <= j < prev.len() && crate::proc::newly(#[trigger] prev[j], cur);
    lemma_after_match(cs[j], cur);
    assert(prev[j] == cs[j]);
    lemma_matches_static(cs[j], cur, ropts[k]);
    assert(cs[j].matches(ropts[k]));
    if delay_safe_in(cs, ropts) {
        if !crate::proc::all_ok(prev, cur) {
            let j2 = choose|j2: int| 0 <= j2 < prev.len() && crate::proc::newly(prev[j2], cur) && !(#[trigger] prev[j2]).ok_for(cur);
            lemma_after_match(cs[j2], cur);
            assert(prev[j2] == cs[j2]);
            lemma_matches_static(cs[j2], cur, ropts[k]);
            lemma_ok_for_static(cs[j2], cur, ropts[k]);
            assert(cs[j2].matches(ropts[k]));
        } else if cur.kind != OptKind::Path {
            let j3 = choose|j3: int| 0 <= j3 < prev.len() && cur.spec_parse_value(super::gen::or_empty((#[trigger] prev[j3]).argument())) is None;
            lemma_after_match(cs[j3], cur);
            assert(prev[j3].argument() == cs[j3].argument());
            assert(cs[j3].argument() == cs[j].argument());
            assert(ropts[k].spec_parse_value(super::gen::or_empty(cs[j].argument())) is Some);
        }
    }
}

/// A parser that matches the arguments as the forward parser does, but keeps the
/// values that arguments give options waiting: they are set, and the options'
/// callbacks invoked, once the non-option arguments have been matched against the
/// `cmd` and `pos` non-options.
pub struct DelayParser {
    pub core: ForwardParser,
    pub value_mapper: Vec<(Identifier, Vec<OptValue>)>,
}

fn find_id(ids: &Vec<Identifier>, id: Identifier) -> (r: bool)
    ensures
        r == ids@.contains(id),
{
    let mut k: usize = 0;
    while k < ids.len()
        invariant
            k <= ids@.len(),
            forall|j: int| 0 <= j < k ==> ids@[j] != id,
        decreases ids@.len() - k,
    {
        if ids[k] == id {
            return true;
        }
        k = k + 1;
    }
    false
}

/// The position of the first context of the proc that matched, or its length.
fn first_matched<P: Proc>(proc: &P) -> (r: usize)
    ensures
        r <= proc.spec_ctxs().len(),
        r < proc.spec_ctxs().len() ==> proc.spec_ctxs()[r as int].matched(),
        r == proc.spec_ctxs().len() ==> forall|j: int| 0 <= j < proc.spec_ctxs().len() ==> !(#[trigger] proc.spec_ctxs()[j]).matched(),
{
    let n = proc.len();
    let mut j: usize = 0;
    while j < n
        invariant
            n == proc.spec_ctxs().len(),
            j <= n,
            forall|x: int| 0 <= x < j ==> !(#[trigger] proc.spec_ctxs()[x]).matched(),
        decreases n - j,
    {
        match proc.get_ctx(j) {
            Some(c) => {
                if c.is_matched() {
                    return j;
                }
            },
            None => {},
        }
        j = j + 1;
    }
    n
}

/// Contexts made from delay shapes, some of them matched, are delay contexts of
/// the styles whose values wait.
proof fn lemma_prev_delay(shs: Seq<CtxShape>, cs: Seq<Ctx>, prev: Seq<Ctx>, ropts: Seq<CommonOpt>, k: int)
    requires
        shs.len() == cs.len(),
        prev.len() == cs.len(),
        forall|j: int| 0 <= j < shs.len() ==> has_shape(#[trigger] cs[j], shs[j]),
        forall|j: int| 0 <= j < shs.len() ==> (#[trigger] shs[j]).delay && opt_style(shs[j].style),
        forall|j: int| 0 <= j < shs.len() ==> #[trigger] prev[j] == (if flags_upto(shs, ropts, k)[j] { cs[j].after_match() } else { cs[j] }),
    ensures
        delay_ctxs(prev),
{
    assert forall|j: int| 0 <= j < prev.len() implies (#[trigger] prev[j]) is Delay && opt_style(prev[j].style()) by {
        assert(has_shape(cs[j], shs[j]));
        assert(shs[j].delay && opt_style(shs[j].style));
    }
}

/// One step of a delay proc, as the model of kept values has it: an option that a
/// context not matched yet answers to keeps the value of the shapes, once, and the
/// options kept stand for shapes that are matched from then on.
#[verifier::rlimit(40)]
proof fn lemma_delay_keep(shs: Seq<CtxShape>, cs: Seq<Ctx>, prev: Seq<Ctx>, ropts: Seq<CommonOpt>, opts0: Seq<CommonOpt>, infos: Seq<OptionInfo>, k: int, cur: CommonOpt, keeper_before: Seq<(Identifier, OptValue)>, keeper_after: Seq<(Identifier, OptValue)>, seen_before: Seq<Identifier>, seen_after: Seq<Identifier>, stash: Option<OptValue>, res_some: bool, first: bool, p0: Seq<OptValueView>, target: Seq<OptValueView>)
    requires
        0 <= k < infos.len(),
        infos_valid(infos, opts0.len()),
        ropts == reg_opts(opts0, infos),
        shs.len() > 0,
        shs.len() == cs.len(),
        same_args(shs),
        multi_only(shs),
        forall|j: int| 0 <= j < shs.len() ==> has_shape(#[trigger] cs[j], shs[j]),
        forall|j: int| 0 <= j < shs.len() ==> (#[trigger] shs[j]).delay && opt_style(shs[j].style),
        prev.len() == cs.len(),
        forall|j: int| 0 <= j < shs.len() ==> #[trigger] prev[j] == (if flags_upto(shs, ropts, k)[j] { cs[j].after_match() } else { cs[j] }),
        same_static(cur, opts0[infos[k].id.0 as int]),
        p0.len() == opts0.len(),
        forall|q: int| 0 <= q < keeper_before.len() ==> (#[trigger] keeper_before[q]).0.0 < opts0.len(),
        seen_before == keeper_before.map_values(|e: (Identifier, OptValue)| e.0),
        forall|q: int, j: int| #![trigger keeper_before[q], shs[j]] 0 <= q < keeper_before.len() && 0 <= j < shs.len()
            && shape_matches(shs[j], opts0[keeper_before[q].0.0 as int]) ==> flags_upto(shs, ropts, k)[j],
        first == !seen_before.contains(infos[k].id),
        res_some == any_newly(prev, cur),
        stash is Some <==> (any_newly(prev, cur) && first),
        stash matches Some(sv) ==> exists|j2: int| 0 <= j2 < prev.len()
            && sv@ == cur.spec_parse_value(super::gen::or_empty((#[trigger] prev[j2]).argument()))->0,
        keeper_after == (match stash {
            Some(v) => keeper_before.push((infos[k].id, v)),
            None => keeper_before,
        }),
        seen_after == (if res_some && first { seen_before.push(infos[k].id) } else { seen_before }),
        agree_opts(publish_values(shs, flags_upto(shs, ropts, k), opts0, infos, k, apply_keep(p0, opts0, keep_view(keeper_before))),
            target, opts0),
    ensures
        seen_after == keeper_after.map_values(|e: (Identifier, OptValue)| e.0),
        forall|q: int, j: int| #![trigger keeper_after[q], shs[j]] 0 <= q < keeper_after.len() && 0 <= j < shs.len()
            && shape_matches(shs[j], opts0[keeper_after[q].0.0 as int]) ==> flags_upto(shs, ropts, k + 1)[j],
        all_true(flags_upto(shs, ropts, k + 1)) ==> agree_opts(apply_keep(p0, opts0, keep_view(keeper_after)), target, opts0),
        !all_true(flags_upto(shs, ropts, k + 1)) ==> agree_opts(publish_values(shs, flags_upto(shs, ropts, k + 1), opts0, infos,
            k + 1, apply_keep(p0, opts0, keep_view(keeper_after))), target, opts0),
{
    reveal(flags_upto);
    let i = infos[k].id.0 as int;
    let id = infos[k].id;
    let m = flags_upto(shs, ropts, k);
    assert(ropts[k] == opts0[i]);
    assert(any_newly(prev, cur) == newly_shaped(shs, m, opts0[i])) by {
        if any_newly(prev, cur) {
            let j = choose|j: int| 0 <= j < prev.len() && crate::proc::newly(#[trigger] prev[j], cur);
            lemma_after_match(cs[j], cur);
            lemma_matches_static(cs[j], cur, opts0[i]);
            lemma_shape(cs[j], shs[j], opts0[i]);
            assert(!m[j]);
            assert(shape_matches(shs[j], opts0[i]));
        }
        if newly_shaped(shs, m, opts0[i]) {
            let j = choose|j: int| 0 <= j < shs.len() && !m[j] && shape_matches(#[trigger] shs[j], opts0[i]);
            lemma_shape(cs[j], shs[j], opts0[i]);
            lemma_matches_static(cs[j], cur, opts0[i]);
            assert(prev[j] == cs[j]);
            assert(crate::proc::newly(prev[j], cur));
        }
    }
    if newly_shaped(shs, m, opts0[i]) && seen_before.contains(id) {
        let q = choose|q: int| 0 <= q < seen_before.len() && seen_before[q] == id;
        assert(keeper_before[q].0 == id);
        let j = choose|j: int| 0 <= j < shs.len() && !m[j] && shape_matches(#[trigger] shs[j], opts0[i]);
        assert(shape_matches(shs[j], opts0[keeper_before[q].0.0 as int]));
        assert(m[j]);
    }
    let kv_before = keep_view(keeper_before);
    if stash is Some {
        let sv = stash->0;
        let j2 = choose|j2: int| 0 <= j2 < prev.len()
            && sv@ == cur.spec_parse_value(super::gen::or_empty((#[trigger] prev[j2]).argument()))->0;
        assert(prev[j2].argument() == cs[j2].argument());
        assert(has_shape(cs[j2], shs[j2]));
        assert(cs[j2].argument() == shs[j2].arg);
        assert(shs[j2].arg == shs[0].arg);
        assert(sv@ == shape_value(shs, opts0[i]));
        assert(keep_view(keeper_after) =~= kv_before.push((id, shape_value(shs, opts0[i]))));
    } else {
        assert(keep_view(keeper_after) =~= kv_before);
    }
    assert(seen_after =~= keeper_after.map_values(|e: (Identifier, OptValue)| e.0));
    assert forall|q: int, j: int| #![trigger keeper_after[q], shs[j]] 0 <= q < keeper_after.len() && 0 <= j < shs.len()
        && shape_matches(shs[j], opts0[keeper_after[q].0.0 as int]) implies flags_upto(shs, ropts, k + 1)[j] by {
        if q < keeper_before.len() {
            assert(keeper_after[q] == keeper_before[q]);
            assert(m[j]);
            let x = choose|x: int| 0 <= x < k && shape_matches(shs[j], #[trigger] ropts[x]);
            assert(0 <= x < k + 1 && shape_matches(shs[j], ropts[x]));
        } else {
            assert(keeper_after[q].0 == id);
            assert(0 <= k < k + 1 && shape_matches(shs[j], ropts[k]));
        }
    }
    lemma_keep_step(shs, opts0, infos, k, p0, kv_before, keep_view(keeper_after), target);
}

/// Process the option at `i` with the proc. When a context newly matched it and
/// the option meets the proc for the first time, the value parsed from the
/// argument of the first matched context is kept waiting (for the option styles)
/// or set (for the others); a kept value leaves the callback due until the value is
/// set. It hands back the matched position, the callback type, whether to invoke
/// the callback now, and the value to keep.
fn delay_process<P: Proc>(set: &mut DefaultSet, i: usize, proc: &mut P, first: bool) -> (r: Result<(Option<u64>, CallbackType, bool, Option<OptValue>)>)
    requires
        i < old(set).opts@.len(),
        old(proc).spec_ready(),
        value_fits(old(set).opts@[i as int]),
    ensures
        final(set).opts@.len() == old(set).opts@.len(),
        final(set).utils@ == old(set).utils@,
        final(set).prefixs@ == old(set).prefixs@,
        forall|j: int| 0 <= j < old(set).opts@.len() && j != i ==> #[trigger] final(set).opts@[j] == old(set).opts@[j],
        same_static(final(set).opts@[i as int], old(set).opts@[i as int]),
        value_fits(final(set).opts@[i as int]),
        final(proc).spec_ready(),
        final(proc).spec_id() == old(proc).spec_id(),
        all_matched(old(proc).spec_ctxs()) ==> final(proc).spec_ctxs() == old(proc).spec_ctxs(),
        r matches Ok((res, t, invoke, stash)) ==> (no_opt_style(old(proc).spec_ctxs()) ==> stash is None),
        r matches Ok((res, t, invoke, stash)) ==> !all_matched(old(proc).spec_ctxs()) ==> {
            &&& final(proc).spec_ctxs() == ctxs_after(old(proc).spec_ctxs(), old(set).opts@[i as int])
            &&& (final(proc).spec_matched_index() is Some <==> any_newly(old(proc).spec_ctxs(), old(set).opts@[i as int]))
            &&& res == final(proc).spec_matched_index()
            &&& final(proc).spec_need_argument() == any_skip(old(proc).spec_ctxs(), old(set).opts@[i as int])
            &&& !any_newly(old(proc).spec_ctxs(), old(set).opts@[i as int]) ==> untouched(final(set).opts@[i as int], old(set).opts@[i as int])
                && stash is None && !invoke
            &&& !is_opt_kind(old(set).opts@[i as int].kind) ==> final(set).opts@[i as int].value@ == old(set).opts@[i as int].value@
                || final(set).opts@[i as int].value@ is Bool
            &&& invoke ==> res is Some
            &&& delay_ctxs(old(proc).spec_ctxs()) ==> (stash is Some <==> (any_newly(old(proc).spec_ctxs(), old(set).opts@[i as int]) && first))
            &&& !is_opt_kind(old(set).opts@[i as int].kind) && no_delay(old(proc).spec_ctxs()) && any_newly(old(proc).spec_ctxs(),
                old(set).opts@[i as int]) ==> final(set).opts@[i as int].value@ == OptValueView::Bool(true)
        },
        r matches Ok((res, t, invoke, stash)) ==> (stash matches Some(sv) ==> exists|j: int| 0 <= j < old(proc).spec_ctxs().len()
            && sv@ == old(set).opts@[i as int].spec_parse_value(super::gen::or_empty((#[trigger] old(proc).spec_ctxs()[j]).argument()))->0),
        r is Ok && delay_ctxs(old(proc).spec_ctxs()) ==> final(set).opts@[i as int].value@ == old(set).opts@[i as int].value@,
        r is Ok && is_opt_kind(old(set).opts@[i as int].kind) && (old(set).opts@[i as int].callback == CallbackType::Null
            || old(set).opts@[i as int].callback == CallbackType::Value) ==> (final(set).opts@[i as int].callback == CallbackType::Null
            || final(set).opts@[i as int].callback == CallbackType::Value),
        r is Err ==> all_matched(old(proc).spec_ctxs()) || (any_newly(old(proc).spec_ctxs(), old(set).opts@[i as int])
            && (!crate::proc::all_ok(old(proc).spec_ctxs(), old(set).opts@[i as int]) || old(set).opts@[i as int].kind == OptKind::Path
            || exists|j: int| 0 <= j < old(proc).spec_ctxs().len() && old(set).opts@[i as int].spec_parse_value(
            super::gen::or_empty((#[trigger] old(proc).spec_ctxs()[j]).argument())) is None)),
        r matches Ok((res, t, invoke, stash)) ==> (is_opt_kind(old(set).opts@[i as int].kind) && (old(set).opts@[i as int].callback
            == CallbackType::Null || old(set).opts@[i as int].callback == CallbackType::Value) ==> (t == CallbackType::Null
            || t == CallbackType::Value)),
{
    let ghost o = set.opts@[i as int];
    let ghost cs = proc.spec_ctxs();
    let opt = &mut set.opts[i];
    let res = proc.process(opt)?;
    proof {
        if !any_newly(cs, o) {
            lemma_fold_untouched(cs, o, o.value@);
        }
        if !is_opt_kind(o.kind) {
            lemma_fold_nonopt(cs, o, o.value@);
        }
        if !is_opt_kind(o.kind) && no_delay(cs) {
            lemma_fold_nonopt_true(cs, o, o.value@);
        }
        if delay_ctxs(cs) {
            lemma_fold_delay(cs, o, o.value@);
        }
        if !all_matched(cs) && any_newly(cs, o) {
            let x = choose|x: int| 0 <= x < cs.len() && crate::proc::newly(#[trigger] cs[x], o);
            assert(proc.spec_ctxs()[x] == cs[x].after_match());
            lemma_after_match(cs[x], o);
            assert(proc.spec_ctxs()[x].matched());
        }
    }
    let ghost opt_mid = *opt;
    let mut need = opt.is_need_invoke();
    let t = opt.callback_type();
    let mut stash: Option<OptValue> = None;
    if res.is_some() && first {
        let j = first_matched(proc);
        if j < proc.len() {
            let arg: Option<&String> = match proc.get_ctx(j) {
                Some(c) => c.get_next_argument(),
                None => None,
            };
            let style = match proc.get_ctx(j) {
                Some(c) => c.get_style(),
                None => Style::Null,
            };
            proof {
                reveal_strlit("");
                if !all_matched(cs) {
                    assert(proc.spec_ctxs()[j as int] == (if crate::proc::newly(cs[j as int], o) { cs[j as int].after_match() } else { cs[j as int] }));
                }
                assert(proc.spec_ctxs()[j as int].argument() == cs[j as int].argument());
                assert(forall|x: Seq<char>| opt.spec_parse_value(x) == o.spec_parse_value(x));
            }
            let ghost argv = super::gen::or_empty(proc.spec_ctxs()[j as int].argument());
            let value = match arg {
                Some(a) => {
                    let v = opt.parse_value(a.as_str())?;
                    assert(a@ == argv);
                    v
                },
                None => {
                    let v = opt.parse_value("")?;
                    assert(""@ =~= argv);
                    v
                },
            };
            assert(value@ == opt.spec_parse_value(argv)->0);
            assert(opt.spec_parse_value(argv) == o.spec_parse_value(argv));
            proof {
                if !all_matched(cs) {
                    assert(proc.spec_ctxs()[j as int] == (if crate::proc::newly(cs[j as int], o) { cs[j as int].after_match() } else { cs[j as int] }));
                }
                assert(proc.spec_ctxs()[j as int].style() == cs[j as int].style());
                assert(proc.spec_ctxs()[j as int].argument() == cs[j as int].argument());
                assert(value@ == o.spec_parse_value(super::gen::or_empty(cs[j as int].argument()))->0);
            }
            match style {
                Style::Argument | Style::Boolean | Style::Multiple => {
                    stash = Some(value);
                    need = false;
                },
                _ => {
                    let ghost before = *opt;
                    opt.set_value(value);
                    proof {
                        if !is_opt_kind(o.kind) {
                            assert(before.kind == o.kind);
                        }
                    }
                },
            }
        }
    }
    let invoke = res.is_some() && need;
    if invoke {
        opt.set_need_invoke(false);
    }
    Ok((res, t, invoke, stash))
}


impl DelayParser {
    pub fn new(msg_id_gen: DefaultIdGen) -> (r: Self)
        ensures
            r.core.msg_id_gen == msg_id_gen,
            r.core.cached_infos@.len() == 0,
            r.core.noa@.len() == 0,
            r.core.set is None,
            !r.core.argument_matched,
            r.core.callbacks@.dom().is_empty(),
            r.value_mapper@.len() == 0,
    {
        DelayParser { core: ForwardParser::new(msg_id_gen), value_mapper: Vec::new() }
    }

    /// Keep the values waiting for the option `id`, after those it has.
    pub fn add_delay_value(&mut self, id: Identifier, value: Vec<OptValue>)
        ensures
            final(self).core == old(self).core,
            match mapper_ids(old(self).value_mapper@).index_of_first(id) {
                Some(k) => {
                    &&& final(self).value_mapper@.len() == old(self).value_mapper@.len()
                    &&& final(self).value_mapper@[k].0 == id
                    &&& values_view(final(self).value_mapper@[k].1@) == values_view(old(self).value_mapper@[k].1@) + values_view(value@)
                    &&& forall|j: int| 0 <= j < old(self).value_mapper@.len() && j != k ==> #[trigger] final(self).value_mapper@[j]
                        == old(self).value_mapper@[j]
                },
                None => final(self).value_mapper@ == old(self).value_mapper@.push((id, value)),
            },
    {
        let ghost ids = mapper_ids(self.value_mapper@);
        let mut k: usize = 0;
        while k < self.value_mapper.len() && self.value_mapper[k].0 != id
            invariant
                k <= self.value_mapper@.len(),
                ids == mapper_ids(self.value_mapper@),
                forall|j: int| 0 <= j < k ==> (#[trigger] self.value_mapper@[j]).0 != id,
            decreases self.value_mapper@.len() - k,
        {
            k = k + 1;
        }
        proof {
            ids.index_of_first_ensures(id);
            if k < self.value_mapper@.len() {
                assert(ids[k as int] == id);
                let x = ids.index_of_first(id)->0;
                if x < k {
                    assert(self.value_mapper@[x].0 == ids[x]);
                }
                assert(ids.index_of_first(id) == Some(k as int));
            } else {
                if ids.contains(id) {
                    let x = choose|x: int| 0 <= x < ids.len() && ids[x] == id;
                    assert(self.value_mapper@[x].0 == ids[x]);
                }
                assert(ids.index_of_first(id) is None);
            }
        }
        if k < self.value_mapper.len() {
            let mut v = value;
            let ghost before = self.value_mapper@;
            self.value_mapper[k].1.append(&mut v);
            proof {
                assert(values_view(self.value_mapper@[k as int].1@) =~= values_view(before[k as int].1@) + values_view(value@));
            }
        } else {
            self.value_mapper.push((id, value));
        }
    }

    /// Match the proc against the options as `publish` does; the shapes `shs`, when
    /// there are any, are those of the delay contexts of the proc.
    #[verifier::spinoff_prover]
    #[verifier::rlimit(100)]
    pub(crate) fn publish_core<P: Proc>(&mut self, proc0: P, Ghost(shs): Ghost<Seq<CtxShape>>) -> (r: Result<bool>)
        requires
            old(self).core.set is Some,
            infos_valid(old(self).core.cached_infos@, old(self).core.set->0.opts@.len()),
            all_fit(old(self).core.set->0.opts@),
            mapper_valid(old(self).value_mapper@, old(self).core.set->0.opts@.len()),
            proc0.spec_ready(),
            shs.len() > 0 ==> shs.len() == proc0.spec_ctxs().len() && same_args(shs) && multi_only(shs),
            forall|j: int| 0 <= j < shs.len() ==> has_shape(#[trigger] proc0.spec_ctxs()[j], shs[j]),
            forall|j: int| 0 <= j < shs.len() ==> (#[trigger] shs[j]).delay && opt_style(shs[j].style),
        ensures
            keeps_frame(final(self).core, old(self).core),
            final(self).core.msg_id_gen == old(self).core.msg_id_gen,
            all_fit(final(self).core.set->0.opts@),
            mapper_valid(final(self).value_mapper@, old(self).core.set->0.opts@.len()),
            r matches Ok(m) ==> (final(self).core.argument_matched ==> old(self).core.argument_matched || m),
            fresh(proc0) && r is Ok ==> forall|i: int| 0 <= i < old(self).core.set->0.opts@.len() && !touched_by(proc0.spec_ctxs(), #[trigger] old(self).core.set->0.opts@[i])
                ==> untouched(final(self).core.set->0.opts@[i], old(self).core.set->0.opts@[i]),
            fresh(proc0) && r is Ok ==> forall|i: int| 0 <= i < old(self).core.set->0.opts@.len() && !is_opt_kind((#[trigger] old(self).core.set->0.opts@[i]).kind)
                ==> final(self).core.set->0.opts@[i].value@ == old(self).core.set->0.opts@[i].value@ || final(self).core.set->0.opts@[i].value@ is Bool,
            r matches Ok(m) ==> (fresh(proc0) ==> m == covered(proc0.spec_ctxs(), reg_opts(old(self).core.set->0.opts@, old(self).core.cached_infos@))),
            r matches Ok(m) ==> (fresh(proc0) ==> final(self).core.argument_matched == (old(self).core.argument_matched || (m && proc0.spec_ctxs()[0].skip()))),
            r is Err ==> final(self).core.argument_matched == old(self).core.argument_matched,
            no_opt_style(proc0.spec_ctxs()) ==> final(self).value_mapper == old(self).value_mapper,
            fresh(proc0) ==> forall|k: int| 0 <= k < final(self).value_mapper@.len() ==> mapper_ids(old(self).value_mapper@).contains(
                (#[trigger] final(self).value_mapper@[k]).0) || touched_by(proc0.spec_ctxs(),
                old(self).core.set->0.opts@[final(self).value_mapper@[k].0.0 as int]),
            r is Ok && plain_callbacks(old(self).core.set->0.opts@) ==> plain_callbacks(final(self).core.set->0.opts@),
            fresh(proc0) && old(self).core.callbacks@.dom().is_empty() && delay_safe_in(proc0.spec_ctxs(),
                reg_opts(old(self).core.set->0.opts@, old(self).core.cached_infos@)) ==> r is Ok,
            r is Ok && fresh(proc0) && old(self).core.callbacks@.dom().is_empty() && no_delay(proc0.spec_ctxs()) ==> forall|x: int|
                0 <= x < old(self).core.cached_infos@.len() && #[trigger] processed_at(proc0.spec_ctxs(), reg_opts(
                old(self).core.set->0.opts@, old(self).core.cached_infos@), x) ==> nonopt_set(final(self).core.set->0.opts@,
                old(self).core.cached_infos@, x),
            r is Ok && fresh(proc0) && old(self).core.callbacks@.dom().is_empty() && no_delay(proc0.spec_ctxs()) ==> forall|i: int|
                0 <= i < old(self).core.set->0.opts@.len() && !is_opt_kind((#[trigger] old(self).core.set->0.opts@[i]).kind)
                ==> final(self).core.set->0.opts@[i].value@ == old(self).core.set->0.opts@[i].value@
                || final(self).core.set->0.opts@[i].value@ == OptValueView::Bool(true),
            r is Ok && fresh(proc0) && shs.len() > 0 && plain_callbacks(old(self).core.set->0.opts@)
                && mapper_ids(old(self).value_mapper@).no_duplicates() ==> {
                &&& mapper_ids(final(self).value_mapper@).no_duplicates()
                &&& agree_opts(pending_values(final(self).core.set->0.opts@, final(self).value_mapper@), publish_values(shs,
                    no_flags(shs.len()), old(self).core.set->0.opts@, old(self).core.cached_infos@, 0,
                    pending_values(old(self).core.set->0.opts@, old(self).value_mapper@)), old(self).core.set->0.opts@)
            },
    {
        let mut proc = proc0;
        let ghost cs = proc.spec_ctxs();
        let ghost opts0 = self.core.set->0.opts@;
        let ghost ropts = reg_opts(opts0, self.core.cached_infos@);
        let ghost b = cs[0].skip();
        let ghost fr = fresh(proc);
        let ghost plain0 = plain_callbacks(opts0);
        let ghost g = fr && shs.len() > 0 && plain0;
        let ghost quiet = fr && old(self).core.callbacks@.dom().is_empty() && no_delay(cs);
        proof {
            reveal(nonopts_taken);
            reveal(nonopts_kept);
        }
        let ghost p0 = pending_values(opts0, self.value_mapper@);
        let ghost target = publish_values(shs, flags_upto(shs, ropts, 0), opts0, self.core.cached_infos@, 0, p0);
        let mut keeper: Vec<(Identifier, OptValue)> = Vec::new();
        let mut seen: Vec<Identifier> = Vec::new();
        proof {
            lemma_mapper_ids(self.value_mapper@);
            reveal(flags_upto);
            assert(keep_view(keeper@) =~= Seq::<(Identifier, OptValueView)>::empty());
            assert(seen@ =~= keeper@.map_values(|e: (Identifier, OptValue)| e.0));
            crate::parser::model::lemma_publish_len(shs, flags_upto(shs, ropts, 0), opts0, self.core.cached_infos@, 0, p0);
        }
        let mut k: usize = 0;
        let n = self.core.cached_infos.len();
        while k < n
            invariant_except_break
                fr ==> !all_matched(proc.spec_ctxs()),
                g ==> agree_opts(publish_values(shs, flags_upto(shs, ropts, k as int), opts0, self.core.cached_infos@, k as int,
                    apply_keep(p0, opts0, keep_view(keeper@))), target, opts0),
            invariant
                fr ==> cs.len() > 0,
                fresh(proc0) ==> fr,
                cs == proc0.spec_ctxs(),
                shs.len() > 0 ==> shs.len() == cs.len() && same_args(shs) && multi_only(shs),
                forall|j: int| 0 <= j < shs.len() ==> has_shape(#[trigger] cs[j], shs[j]),
                forall|j: int| 0 <= j < shs.len() ==> (#[trigger] shs[j]).delay && opt_style(shs[j].style),
                plain0 == plain_callbacks(opts0),
                g == (fr && shs.len() > 0 && plain0),
                p0 == pending_values(opts0, old(self).value_mapper@),
                target == publish_values(shs, flags_upto(shs, ropts, 0), opts0, self.core.cached_infos@, 0, p0),
                g ==> seen@ == keeper@.map_values(|e: (Identifier, OptValue)| e.0),
                g ==> forall|q: int, j: int| #![trigger keeper@[q], shs[j]] 0 <= q < keeper@.len() && 0 <= j < shs.len()
                    && shape_matches(shs[j], opts0[keeper@[q].0.0 as int]) ==> flags_upto(shs, ropts, k as int)[j],
                g ==> forall|x: int| 0 <= x < opts0.len() && is_opt_kind((#[trigger] opts0[x]).kind)
                    ==> self.core.set->0.opts@[x].value@ == opts0[x].value@,
                plain0 ==> plain_callbacks(self.core.set->0.opts@),
                n == self.core.cached_infos@.len(),
                k <= n,
                keeps_frame(self.core, old(self).core),
                self.core.msg_id_gen == old(self).core.msg_id_gen,
                self.core.argument_matched == old(self).core.argument_matched,
                self.value_mapper == old(self).value_mapper,
                mapper_valid(old(self).value_mapper@, opts0.len()),
                forall|k: int| 0 <= k < old(self).value_mapper@.len() ==> mapper_ids(old(self).value_mapper@).contains(
                    #[trigger] old(self).value_mapper@[k].0),
                forall|q: int| 0 <= q < keeper@.len() ==> (#[trigger] keeper@[q]).0.0 < opts0.len(),
                fr ==> forall|q: int| 0 <= q < keeper@.len() ==> touched_by(cs, opts0[(#[trigger] keeper@[q]).0.0 as int]),
                no_opt_style(cs) ==> keeper@.len() == 0,
                forall|j: int| 0 <= j < cs.len() ==> (#[trigger] proc.spec_ctxs()[j]).style() == cs[j].style(),
                quiet == (fr && old(self).core.callbacks@.dom().is_empty() && no_delay(cs)),
                quiet ==> nonopts_taken(cs, ropts, self.core.set->0.opts@, self.core.cached_infos@, k as int),
                quiet ==> nonopts_kept(self.core.set->0.opts@, opts0),
                opts0 == old(self).core.set->0.opts@,
                ropts == reg_opts(opts0, self.core.cached_infos@),
                infos_valid(self.core.cached_infos@, opts0.len()),
                all_fit(self.core.set->0.opts@),
                proc.spec_ready(),
                proc.spec_ctxs().len() == cs.len(),
                b == cs[0].skip(),
                fr ==> forall|j: int| 0 <= j < cs.len() ==> (#[trigger] cs[j]).skip() == b,
                fr ==> forall|j: int| 0 <= j < cs.len() ==> !(#[trigger] cs[j]).matched(),
                fr ==> forall|j: int| 0 <= j < cs.len() ==> (#[trigger] proc.spec_ctxs()[j]) == (if exists|x: int| 0 <= x < k && cs[j].matches(#[trigger] ropts[x]) { cs[j].after_match() } else { cs[j] }),
                fr ==> proc.spec_need_argument() == (proc.spec_matched_index() is Some && b),
                fr ==> forall|i: int| 0 <= i < opts0.len() && !touched_by(cs, #[trigger] opts0[i]) ==> untouched(self.core.set->0.opts@[i], opts0[i]),
                fr ==> forall|i: int| 0 <= i < opts0.len() && !is_opt_kind((#[trigger] opts0[i]).kind)
                    ==> self.core.set->0.opts@[i].value@ == opts0[i].value@ || self.core.set->0.opts@[i].value@ is Bool,
            ensures
                g ==> agree_opts(apply_keep(p0, opts0, keep_view(keeper@)), target, opts0),
                g ==> forall|x: int| 0 <= x < opts0.len() && is_opt_kind((#[trigger] opts0[x]).kind)
                    ==> self.core.set->0.opts@[x].value@ == opts0[x].value@,
                plain0 ==> plain_callbacks(self.core.set->0.opts@),
                keeps_frame(self.core, old(self).core),
                self.core.msg_id_gen == old(self).core.msg_id_gen,
                all_fit(self.core.set->0.opts@),
                self.value_mapper == old(self).value_mapper,
                forall|k: int| 0 <= k < old(self).value_mapper@.len() ==> mapper_ids(old(self).value_mapper@).contains(
                    #[trigger] old(self).value_mapper@[k].0),
                forall|q: int| 0 <= q < keeper@.len() ==> (#[trigger] keeper@[q]).0.0 < opts0.len(),
                fr ==> forall|q: int| 0 <= q < keeper@.len() ==> touched_by(cs, opts0[(#[trigger] keeper@[q]).0.0 as int]),
                no_opt_style(cs) ==> keeper@.len() == 0,
                fr ==> forall|i: int| 0 <= i < opts0.len() && !touched_by(cs, #[trigger] opts0[i]) ==> untouched(self.core.set->0.opts@[i], opts0[i]),
                fr ==> forall|i: int| 0 <= i < opts0.len() && !is_opt_kind((#[trigger] opts0[i]).kind)
                    ==> self.core.set->0.opts@[i].value@ == opts0[i].value@ || self.core.set->0.opts@[i].value@ is Bool,
                proc.spec_ready(),
                fr ==> all_matched(proc.spec_ctxs()) == covered(cs, ropts),
                fr && all_matched(proc.spec_ctxs()) ==> proc.spec_need_argument() == b,
                self.core.argument_matched == old(self).core.argument_matched,
                quiet ==> nonopts_taken(cs, ropts, self.core.set->0.opts@, self.core.cached_infos@, n as int),
                quiet ==> nonopts_kept(self.core.set->0.opts@, opts0),
            decreases n - k,
        {
            let id = self.core.cached_infos[k].id;
            let len = match &self.core.set {
                Some(s) => s.opts.len(),
                None => 0,
            };
            assert(id.0 < len);
            let i = id.0 as usize;
            let ghost prev = proc.spec_ctxs();
            let ghost cur = self.core.set->0.opts@[i as int];
            assert(ropts[k as int] == opts0[i as int]);
            assert(same_static(cur, opts0[i as int]));
            let first = !find_id(&seen, id);
            let ghost keeper_before = keeper@;
            let ghost seen_before = seen@;
            let ghost opts_before = self.core.set->0.opts@;
            let ghost m = flags_upto(shs, ropts, k as int);
            proof {
                if g {
                    lemma_flags_ctxs(shs, cs, prev, ropts, k as int);
                    lemma_prev_delay(shs, cs, prev, ropts, k as int);
                }
            }
            proof {
                if quiet {
                    assert(no_delay(prev)) by {
                        assert forall|j: int| 0 <= j < prev.len() implies !((#[trigger] prev[j]) is Delay) by {
                            assert(!(cs[j] is Delay));
                        }
                    }
                }
            }
            let step = match &mut self.core.set {
                Some(set) => delay_process(set, i, &mut proc, first),
                None => {
                    assert(false);
                    unreached()
                },
            };
            let (res, t, invoke, stash) = match step {
                Ok(x) => x,
                Err(e) => {
                    proof {
                        if fr {
                            assert(!delay_safe_in(cs, ropts)) by {
                                lemma_delay_fails(cs, prev, cur, ropts, k as int);
                            }
                        }
                    }
                    return Err(e);
                },
            };
            proof {
                if fr {
                assert forall|j: int| 0 <= j < cs.len() implies (#[trigger] proc.spec_ctxs()[j]) == (if exists|x: int| 0 <= x < k + 1 && cs[j].matches(#[trigger] ropts[x]) { cs[j].after_match() } else { cs[j] }) by {
                    lemma_matches_static(cs[j], cur, ropts[k as int]);
                    lemma_after_match(cs[j], cur);
                    if exists|x: int| 0 <= x < k && cs[j].matches(#[trigger] ropts[x]) {
                        let x = choose|x: int| 0 <= x < k && cs[j].matches(#[trigger] ropts[x]);
                        assert(0 <= x < k + 1 && cs[j].matches(ropts[x]));
                    } else {
                        if cs[j].matches(ropts[k as int]) {
                            assert(0 <= k < k + 1 && cs[j].matches(ropts[k as int]));
                        } else {
                            assert forall|x: int| 0 <= x < k + 1 implies !cs[j].matches(#[trigger] ropts[x]) by {
                                if x < k {
                                } else {
                                    assert(x == k);
                                }
                            }
                        }
                    }
                }
                if !touched_by(cs, opts0[i as int]) {
                    assert forall|j: int| 0 <= j < prev.len() implies !crate::proc::newly(#[trigger] prev[j], cur) by {
                        lemma_matches_static(cs[j], cur, opts0[i as int]);
                        lemma_after_match(cs[j], cur);
                    }
                }
                assert(stash is Some ==> touched_by(cs, opts0[id.0 as int]));
                }
            }
            proof {
                if no_opt_style(cs) {
                    assert forall|j: int| 0 <= j < prev.len() implies !opt_style(#[trigger] prev[j].style()) by {
                        assert(prev[j].style() == cs[j].style());
                    }
                }
                assert forall|j: int| 0 <= j < cs.len() implies (#[trigger] proc.spec_ctxs()[j]).style() == cs[j].style() by {
                    assert(prev[j].style() == cs[j].style());
                    if !all_matched(prev) {
                        assert(proc.spec_ctxs()[j] == (if crate::proc::newly(prev[j], cur) { prev[j].after_match() } else { prev[j] }));
                    }
                }
            }
            let ghost stash_v = stash;
            let ghost res_some = res.is_some();
            let ghost opts_mid = self.core.set->0.opts@;
            if res.is_some() && first {
                seen.push(id);
            }
            match stash {
                Some(v) => {
                    keeper.push((id, v));
                },
                None => {},
            }
            if invoke {
                if let Some(index) = res {
                    proof {
                        if quiet {
                            assert(!self.core.callbacks@.dom().contains(id.0));
                        }
                    }
                    self.core.invoke_callback(id, t, index)?;
                }
            }
            proof {
                if quiet {
                    assert(same_static(self.core.set->0.opts@[i as int], opts_before[i as int]));
                    assert(same_static(opts_before[i as int], opts0[i as int]));
                    lemma_kept_step(opts0, opts_before, self.core.set->0.opts@, i as int);
                    lemma_set_step(cs, prev, cur, ropts, self.core.cached_infos@, k as int, i as int, opts_before,
                        self.core.set->0.opts@);
                }
            }
            k = k + 1;
            proof {
                if plain0 {
                    assert forall|x: int| 0 <= x < self.core.set->0.opts@.len() && is_opt_kind((#[trigger] self.core.set->0.opts@[x]).kind)
                        implies self.core.set->0.opts@[x].callback == CallbackType::Null || self.core.set->0.opts@[x].callback == CallbackType::Value by {
                        assert(same_static(self.core.set->0.opts@[x], opts0[x]));
                        assert(same_static(opts_before[x], opts0[x]));
                        if x != i {
                            assert(opts_mid[x] == opts_before[x]);
                        }
                    }
                }
                if g {
                    assert forall|x: int| 0 <= x < opts0.len() && is_opt_kind((#[trigger] opts0[x]).kind)
                        implies self.core.set->0.opts@[x].value@ == opts0[x].value@ by {
                        assert(same_static(opts_before[x], opts0[x]));
                        if x != i {
                            assert(opts_mid[x] == opts_before[x]);
                        }
                    }
                    lemma_delay_keep(shs, cs, prev, ropts, opts0, self.core.cached_infos@, k - 1, cur, keeper_before, keeper@,
                        seen_before, seen@, stash_v, res_some, first, p0, target);
                    lemma_flags_ctxs(shs, cs, proc.spec_ctxs(), ropts, k as int);
                }
            }
            if proc.is_matched() {
                proof {
                    if fr {
                    assert forall|j: int| 0 <= j < cs.len() implies ctx_covered(#[trigger] cs[j], ropts) by {
                        assert(proc.spec_ctxs()[j].matched());
                        if !(exists|x: int| 0 <= x < k && cs[j].matches(#[trigger] ropts[x])) {
                            assert(proc.spec_ctxs()[j] == cs[j]);
                        } else {
                            let x = choose|x: int| 0 <= x < k && cs[j].matches(#[trigger] ropts[x]);
                            assert(0 <= x < ropts.len());
                        }
                    }
                    let j = choose|j: int| 0 <= j < prev.len() && !(#[trigger] prev[j]).matched();
                    assert(proc.spec_ctxs()[j].matched());
                    assert(crate::proc::newly(prev[j], cur));
                    assert(any_newly(prev, cur));
                    }
                    if quiet {
                        lemma_taken_all(cs, proc.spec_ctxs(), ropts, self.core.set->0.opts@, self.core.cached_infos@, k as int, n as int);
                    }
                }
                break;
            }
        }
        let m = proc.is_matched();
        if m && proc.is_need_argument() {
            self.core.set_argument_matched();
        }
        let ghost opts_l = self.core.set->0.opts@;
        let ghost kview = keep_view(keeper@);
        let ghost dist0 = mapper_ids(self.value_mapper@).no_duplicates();
        proof {
            if g {
                lemma_apply_keep_len(p0, opts0, kview);
                assert(apply_keep(p0, opts0, kview.take(0)) == p0) by {
                    assert(kview.take(0) =~= Seq::<(Identifier, OptValueView)>::empty());
                }
            }
        }
        let mut q: usize = 0;
        while q < keeper.len()
            invariant
                q <= keeper@.len(),
                self.core.set is Some,
                self.core.set->0.opts@ == opts_l,
                kview == keep_view(keeper@),
                g == (fr && shs.len() > 0 && plain0),
                dist0 == mapper_ids(old(self).value_mapper@).no_duplicates(),
                p0 == pending_values(opts0, old(self).value_mapper@),
                same_statics(opts_l, opts0),
                g ==> forall|x: int| 0 <= x < opts0.len() && is_opt_kind((#[trigger] opts0[x]).kind)
                    ==> opts_l[x].value@ == opts0[x].value@,
                g ==> agree_opts(apply_keep(p0, opts0, kview), target, opts0),
                g && dist0 ==> mapper_ids(self.value_mapper@).no_duplicates(),
                g && dist0 ==> agree_opts(pending_values(opts_l, self.value_mapper@), apply_keep(p0, opts0, kview.take(q as int)), opts0),
                forall|x: int| 0 <= x < keeper@.len() ==> (#[trigger] keeper@[x]).0.0 < opts0.len(),
                mapper_valid(self.value_mapper@, opts0.len()),
                opts0 == old(self).core.set->0.opts@,
                keeps_frame(self.core, old(self).core),
                self.core.msg_id_gen == old(self).core.msg_id_gen,
                all_fit(self.core.set->0.opts@),
                fr ==> self.core.argument_matched == (old(self).core.argument_matched || (m && b)),
                self.core.argument_matched ==> old(self).core.argument_matched || m,
                fr ==> forall|i: int| 0 <= i < opts0.len() && !touched_by(cs, #[trigger] opts0[i]) ==> untouched(self.core.set->0.opts@[i], opts0[i]),
                fr ==> forall|i: int| 0 <= i < opts0.len() && !is_opt_kind((#[trigger] opts0[i]).kind)
                    ==> self.core.set->0.opts@[i].value@ == opts0[i].value@ || self.core.set->0.opts@[i].value@ is Bool,
                no_opt_style(cs) ==> keeper@.len() == 0 && self.value_mapper == old(self).value_mapper,
                plain0 == plain_callbacks(opts0),
                plain0 ==> plain_callbacks(self.core.set->0.opts@),
                fr ==> forall|x: int| 0 <= x < keeper@.len() ==> touched_by(cs, opts0[(#[trigger] keeper@[x]).0.0 as int]),
                fr ==> forall|k: int| 0 <= k < self.value_mapper@.len() ==> mapper_ids(old(self).value_mapper@).contains(
                    (#[trigger] self.value_mapper@[k]).0) || touched_by(cs, opts0[self.value_mapper@[k].0.0 as int]),
                quiet == (fr && old(self).core.callbacks@.dom().is_empty() && no_delay(cs)),
                quiet ==> nonopts_taken(cs, ropts, opts_l, old(self).core.cached_infos@, old(self).core.cached_infos@.len() as int),
                quiet ==> nonopts_kept(opts_l, opts0),
            decreases keeper@.len() - q,
        {
            let kid = keeper[q].0;
            let kv = keeper[q].1.clone();
            let ghost vm = self.value_mapper@;
            let added = vec![kv];
            let ghost addv = values_view(added@);
            proof {
                assert(addv =~= seq![keeper@[q as int].1@]);
            }
            self.add_delay_value(kid, added);
            proof {
                if g && dist0 {
                    let vm2 = self.value_mapper@;
                    assert(kview.take(q + 1) =~= kview.take(q as int).push((kid, keeper@[q as int].1@)));
                    lemma_apply_keep_push(p0, opts0, kview.take(q as int), kid, keeper@[q as int].1@);
                    assert forall|q2: int| 0 <= q2 < kview.take(q + 1).len() implies (#[trigger] kview.take(q + 1)[q2]).0.0 < p0.len() by {
                        assert(kview.take(q + 1)[q2] == kview[q2]);
                        assert(kview[q2].0 == keeper@[q2].0);
                    }
                    lemma_apply_keep_len(p0, opts0, kview.take(q + 1));
                    let a1 = apply_keep(p0, opts0, kview.take(q as int));
                    let a2 = apply_keep(p0, opts0, kview.take(q + 1));
                    assert forall|x: int| 0 <= x < opts_l.len() implies #[trigger] flat(vm2, x) == flat(vm, x) + (if kid.0 == x { addv } else { Seq::empty() }) by {
                        lemma_flat_add(vm, vm2, kid, addv, x);
                    }
                    lemma_flat_add(vm, vm2, kid, addv, 0);
                    assert forall|x: int| 0 <= x < opts0.len() && is_opt_kind((#[trigger] opts0[x]).kind)
                        implies pending_values(opts_l, vm2)[x] == a2[x] by {
                        assert(same_static(opts_l[x], opts0[x]));
                        if x == kid.0 {
                            assert((flat(vm, x) + addv).drop_last() =~= flat(vm, x));
                            assert((flat(vm, x) + addv).last() == keeper@[q as int].1@);
                        } else {
                            assert(flat(vm, x) + Seq::<OptValueView>::empty() =~= flat(vm, x));
                        }
                    }
                }
            }
            proof {
                assert forall|x: int| 0 <= x < self.value_mapper@.len() implies (#[trigger] self.value_mapper@[x]).0.0 < opts0.len() by {
                    if x < vm.len() {
                        mapper_ids(vm).index_of_first_ensures(kid);
                    }
                }
                if fr {
                    assert forall|k: int| 0 <= k < self.value_mapper@.len() implies mapper_ids(old(self).value_mapper@).contains(
                        (#[trigger] self.value_mapper@[k]).0) || touched_by(cs, opts0[self.value_mapper@[k].0.0 as int]) by {
                        mapper_ids(vm).index_of_first_ensures(kid);
                        if k < vm.len() && self.value_mapper@[k].0 == vm[k].0 {
                            assert(vm[k] == vm[k]);
                        } else {
                            assert(self.value_mapper@[k].0 == kid);
                        }
                    }
                }
            }
            q = q + 1;
        }
        proof {
            if g && dist0 {
                assert(kview.take(q as int) =~= kview);
                reveal(flags_upto);
                assert(flags_upto(shs, ropts, 0) =~= no_flags(shs.len()));
            }
            reveal(nonopts_taken);
            reveal(nonopts_kept);
        }
        Ok(m)
    }
}


impl DelayParser {
    /// Match the proc against the options, in the order of the information the
    /// parser keeps; it stops once every context of the proc matched. An option that
    /// an option context matched gets its value kept waiting; a non-option gets its
    /// value and its callback at once. It answers whether all contexts matched.
    /// What it does is stated for a proc just made; one that matched before only
    /// keeps the set's static parts as they are.
    pub fn publish<P: Proc>(&mut self, proc: P) -> (r: Result<bool>)
        requires
            old(self).core.set is Some,
            infos_valid(old(self).core.cached_infos@, old(self).core.set->0.opts@.len()),
            all_fit(old(self).core.set->0.opts@),
            mapper_valid(old(self).value_mapper@, old(self).core.set->0.opts@.len()),
            proc.spec_ready(),
        ensures
            keeps_frame(final(self).core, old(self).core),
            final(self).core.msg_id_gen == old(self).core.msg_id_gen,
            all_fit(final(self).core.set->0.opts@),
            mapper_valid(final(self).value_mapper@, old(self).core.set->0.opts@.len()),
            r matches Ok(m) ==> (final(self).core.argument_matched ==> old(self).core.argument_matched || m),
            fresh(proc) && r is Ok ==> forall|i: int| 0 <= i < old(self).core.set->0.opts@.len() && !touched_by(proc.spec_ctxs(), #[trigger] old(self).core.set->0.opts@[i])
                ==> untouched(final(self).core.set->0.opts@[i], old(self).core.set->0.opts@[i]),
            fresh(proc) && r is Ok ==> forall|i: int| 0 <= i < old(self).core.set->0.opts@.len() && !is_opt_kind((#[trigger] old(self).core.set->0.opts@[i]).kind)
                ==> final(self).core.set->0.opts@[i].value@ == old(self).core.set->0.opts@[i].value@ || final(self).core.set->0.opts@[i].value@ is Bool,
            r matches Ok(m) ==> (fresh(proc) ==> m == covered(proc.spec_ctxs(), reg_opts(old(self).core.set->0.opts@, old(self).core.cached_infos@))),
            r matches Ok(m) ==> (fresh(proc) ==> final(self).core.argument_matched == (old(self).core.argument_matched || (m && proc.spec_ctxs()[0].skip()))),
            r is Err ==> final(self).core.argument_matched == old(self).core.argument_matched,
            no_opt_style(proc.spec_ctxs()) ==> final(self).value_mapper == old(self).value_mapper,
            fresh(proc) ==> forall|k: int| 0 <= k < final(self).value_mapper@.len() ==> mapper_ids(old(self).value_mapper@).contains(
                (#[trigger] final(self).value_mapper@[k]).0) || touched_by(proc.spec_ctxs(),
                old(self).core.set->0.opts@[final(self).value_mapper@[k].0.0 as int]),
            r is Ok && plain_callbacks(old(self).core.set->0.opts@) ==> plain_callbacks(final(self).core.set->0.opts@),
            fresh(proc) && old(self).core.callbacks@.dom().is_empty() && delay_safe_in(proc.spec_ctxs(),
                reg_opts(old(self).core.set->0.opts@, old(self).core.cached_infos@)) ==> r is Ok,
            r is Ok && fresh(proc) && old(self).core.callbacks@.dom().is_empty() && no_delay(proc.spec_ctxs()) ==> forall|x: int|
                0 <= x < old(self).core.cached_infos@.len() && #[trigger] processed_at(proc.spec_ctxs(), reg_opts(
                old(self).core.set->0.opts@, old(self).core.cached_infos@), x) ==> nonopt_set(final(self).core.set->0.opts@,
                old(self).core.cached_infos@, x),
            r is Ok && fresh(proc) && old(self).core.callbacks@.dom().is_empty() && no_delay(proc.spec_ctxs()) ==> forall|i: int|
                0 <= i < old(self).core.set->0.opts@.len() && !is_opt_kind((#[trigger] old(self).core.set->0.opts@[i]).kind)
                ==> final(self).core.set->0.opts@[i].value@ == old(self).core.set->0.opts@[i].value@
                || final(self).core.set->0.opts@[i].value@ == OptValueView::Bool(true),
    {
        self.publish_core(proc, Ghost(Seq::empty()))
    }
}

/// The delay contexts that a style makes are alike to the contexts of the plain
/// style.
pub proof fn lemma_delay_alike(plain: GenStyle, p: Option<Seq<char>>, n: Option<Seq<char>>, v: Option<Seq<char>>, nx: Option<Seq<char>>)
    requires
        plain == GenStyle::GS_Equal_With_Value || plain == GenStyle::GS_Argument || plain == GenStyle::GS_Boolean
            || plain == GenStyle::GS_Mutliple_Option || plain == GenStyle::GS_Embedded_Value,
    ensures
        crate::parser::waiting::alike_shapes(gen_shapes(delay_of(plain), p, n, v, nx), gen_shapes(plain, p, n, v, nx)),
{
}

/// The delay contexts that a style makes take one argument alike, are several in
/// the `-abc` style only, and are of the styles whose values wait.
pub proof fn lemma_delay_shapes(plain: GenStyle, p: Option<Seq<char>>, n: Option<Seq<char>>, v: Option<Seq<char>>, nx: Option<Seq<char>>)
    requires
        plain == GenStyle::GS_Equal_With_Value || plain == GenStyle::GS_Argument || plain == GenStyle::GS_Boolean
            || plain == GenStyle::GS_Mutliple_Option || plain == GenStyle::GS_Embedded_Value,
    ensures
        same_args(gen_shapes(delay_of(plain), p, n, v, nx)),
        multi_only(gen_shapes(delay_of(plain), p, n, v, nx)),
        forall|j: int| 0 <= j < gen_shapes(delay_of(plain), p, n, v, nx).len() ==> (#[trigger] gen_shapes(delay_of(plain), p, n, v, nx)[j]).delay
            && opt_style(gen_shapes(delay_of(plain), p, n, v, nx)[j].style),
{
}

/// The delay style of a plain option style.
pub open spec fn delay_of(gs: GenStyle) -> GenStyle {
    match gs {
        GenStyle::GS_Equal_With_Value => GenStyle::GS_Delay_Equal_With_Value,
        GenStyle::GS_Argument => GenStyle::GS_Delay_Argument,
        GenStyle::GS_Boolean => GenStyle::GS_Delay_Boolean,
        GenStyle::GS_Mutliple_Option => GenStyle::GS_Delay_Mutliple_Option,
        _ => GenStyle::GS_Delay_Embedded_Value,
    }
}

/// A delay style makes contexts of the shapes its plain style makes, so options
/// answer to both alike.
pub proof fn lemma_delay_style(gs: GenStyle, ropts: Seq<CommonOpt>, p: Seq<char>, n: Seq<char>, v: Option<Seq<char>>, next: Option<Seq<char>>)
    requires
        gs == GenStyle::GS_Equal_With_Value || gs == GenStyle::GS_Argument || gs == GenStyle::GS_Boolean
            || gs == GenStyle::GS_Mutliple_Option || gs == GenStyle::GS_Embedded_Value,
    ensures
        style_matched(delay_of(gs), ropts, p, n, v, next) == style_matched(gs, ropts, p, n, v, next),
{
    let a = gen_shapes(gs, Some(p), Some(n), v, next);
    let b = gen_shapes(delay_of(gs), Some(p), Some(n), v, next);
    assert(a.len() == b.len());
    assert forall|j: int, o: CommonOpt| 0 <= j < a.len() implies #[trigger] shape_matches(a[j], o) == shape_matches(b[j], o) by {
        assert(a[j].prefix == b[j].prefix && a[j].name == b[j].name && a[j].style == b[j].style);
    }
    if shapes_covered(a, ropts) {
        assert forall|j: int| 0 <= j < b.len() implies shape_covered(#[trigger] b[j], ropts) by {
            assert(shape_covered(a[j], ropts));
            let k = choose|k: int| 0 <= k < ropts.len() && shape_matches(a[j], #[trigger] ropts[k]);
            assert(shape_matches(b[j], ropts[k]));
        }
    }
    if shapes_covered(b, ropts) {
        assert forall|j: int| 0 <= j < a.len() implies shape_covered(#[trigger] a[j], ropts) by {
            assert(shape_covered(b[j], ropts));
            let k = choose|k: int| 0 <= k < ropts.len() && shape_matches(b[j], #[trigger] ropts[k]);
            assert(shape_matches(a[j], ropts[k]));
        }
    }
}

/// The contexts that a delay style makes answer to the options that its plain
/// style names.
pub proof fn lemma_delay_names(gs: GenStyle, p: Seq<char>, n: Seq<char>, v: Option<Seq<char>>, next: Option<Seq<char>>, o: CommonOpt)
    requires
        gs == GenStyle::GS_Equal_With_Value || gs == GenStyle::GS_Argument || gs == GenStyle::GS_Boolean
            || gs == GenStyle::GS_Mutliple_Option || gs == GenStyle::GS_Embedded_Value,
    ensures
        style_names(gs, p, n, v, o) == exists|j: int| 0 <= j < gen_shapes(delay_of(gs), Some(p), Some(n), v, next).len()
            && shape_matches(#[trigger] gen_shapes(delay_of(gs), Some(p), Some(n), v, next)[j], o),
{
    let a = gen_shapes(gs, Some(p), Some(n), v, None);
    let b = gen_shapes(delay_of(gs), Some(p), Some(n), v, next);
    assert(a.len() == b.len());
    assert forall|j: int| 0 <= j < a.len() implies #[trigger] shape_matches(a[j], o) == shape_matches(b[j], o) by {
        assert(a[j].prefix == b[j].prefix && a[j].name == b[j].name && a[j].style == b[j].style);
    }
    if style_names(gs, p, n, v, o) {
        let j = choose|j: int| 0 <= j < a.len() && shape_matches(#[trigger] a[j], o);
        assert(shape_matches(b[j], o));
    }
    if exists|j: int| 0 <= j < b.len() && shape_matches(#[trigger] b[j], o) {
        let j = choose|j: int| 0 <= j < b.len() && shape_matches(#[trigger] b[j], o);
        assert(shape_matches(a[j], o));
    }
}

/// Some value waits for the option at position `x`.
pub open spec fn waiting(vm: Seq<(Identifier, Vec<OptValue>)>, x: int) -> bool {
    exists|k: int| 0 <= k < vm.len() && (#[trigger] vm[k]).0.0 == x
}

/// Every value waiting belongs to an option that had one waiting in `vm0` or that
/// some argument from position `i` up to `k` names.
pub open spec fn waiting_named(vm: Seq<(Identifier, Vec<OptValue>)>, vm0: Seq<(Identifier, Vec<OptValue>)>, opts0: Seq<CommonOpt>, prefixs: Seq<Seq<char>>, args: Seq<Seq<char>>, i: int, k: int) -> bool {
    forall|q: int| 0 <= q < vm.len() ==> waiting(vm0, (#[trigger] vm[q]).0.0 as int)
        || named_between(prefixs, args, i, k, opts0[vm[q].0.0 as int])
}

/// Looking at more arguments leaves the values waiting accounted for.
proof fn lemma_waiting_more(vm: Seq<(Identifier, Vec<OptValue>)>, vm0: Seq<(Identifier, Vec<OptValue>)>, opts0: Seq<CommonOpt>, prefixs: Seq<Seq<char>>, args: Seq<Seq<char>>, i: int, k: int, k2: int)
    requires
        waiting_named(vm, vm0, opts0, prefixs, args, i, k),
        k <= k2,
    ensures
        waiting_named(vm, vm0, opts0, prefixs, args, i, k2),
{
    assert forall|q: int| 0 <= q < vm.len() implies waiting(vm0, (#[trigger] vm[q]).0.0 as int)
        || named_between(prefixs, args, i, k2, opts0[vm[q].0.0 as int]) by {
        if named_between(prefixs, args, i, k, opts0[vm[q].0.0 as int]) {
            let j = choose|j: int| i <= j < k && j < args.len() && names_option(prefixs, #[trigger] args[j], opts0[vm[q].0.0 as int]);
            assert(i <= j < k2);
        }
    }
}

/// Matching the delay contexts of a style made from the argument at `k` keeps the
/// options that no argument up to `k` names, and keeps values waiting only for
/// options that had some or that an argument up to `k` names.
proof fn lemma_delay_step(a: Seq<CommonOpt>, b: Seq<CommonOpt>, vma: Seq<(Identifier, Vec<OptValue>)>, vmb: Seq<(Identifier, Vec<OptValue>)>, opts0: Seq<CommonOpt>, vm0: Seq<(Identifier, Vec<OptValue>)>, prefixs: Seq<Seq<char>>, args: Seq<Seq<char>>, i: int, k: int, gs: GenStyle, p: Seq<char>, n: Seq<char>, v: Option<Seq<char>>)
    requires
        frame_kept(a, opts0, prefixs, args, i, k + 1),
        waiting_named(vma, vm0, opts0, prefixs, args, i, k + 1),
        mapper_valid(vma, opts0.len()),
        mapper_valid(vmb, opts0.len()),
        same_statics(a, opts0),
        a.len() == b.len(),
        0 <= i <= k < args.len(),
        spec_parse_argument(args[k], prefixs) == Some((p, n, v)),
        gs == GenStyle::GS_Equal_With_Value || gs == GenStyle::GS_Argument || gs == GenStyle::GS_Boolean
            || gs == GenStyle::GS_Mutliple_Option || gs == GenStyle::GS_Embedded_Value,
        forall|x: int| 0 <= x < a.len() && !style_names(gs, p, n, v, #[trigger] a[x]) ==> untouched(b[x], a[x]),
        forall|q: int| 0 <= q < vmb.len() ==> mapper_ids(vma).contains((#[trigger] vmb[q]).0)
            || style_names(gs, p, n, v, a[vmb[q].0.0 as int]),
    ensures
        frame_kept(b, opts0, prefixs, args, i, k + 1),
        waiting_named(vmb, vm0, opts0, prefixs, args, i, k + 1),
{
    super::driver::lemma_frame_style(a, b, opts0, prefixs, args, i, k, gs, p, n, v);
    assert forall|q: int| 0 <= q < vmb.len() implies waiting(vm0, (#[trigger] vmb[q]).0.0 as int)
        || named_between(prefixs, args, i, k + 1, opts0[vmb[q].0.0 as int]) by {
        let x = vmb[q].0.0 as int;
        if mapper_ids(vma).contains(vmb[q].0) {
            let t = choose|t: int| 0 <= t < mapper_ids(vma).len() && mapper_ids(vma)[t] == vmb[q].0;
            assert(vma[t].0 == vmb[q].0);
        } else {
            assert(style_names(gs, p, n, v, a[x]));
            assert(same_static(a[x], opts0[x]));
            let j = choose|j: int| 0 <= j < gen_shapes(gs, Some(p), Some(n), v, None).len()
                && shape_matches(#[trigger] gen_shapes(gs, Some(p), Some(n), v, None)[j], a[x]);
            assert(shape_matches(gen_shapes(gs, Some(p), Some(n), v, None)[j], opts0[x]));
            assert(style_names(gs, p, n, v, opts0[x]));
            assert(names_option(prefixs, args[k], opts0[x]));
        }
    }
}

/// Set the values kept for the option at `i`, in order, and mark its callback as
/// done; it hands back the callback type the option had.
fn set_delayed(set: &mut DefaultSet, i: usize, values: &Vec<OptValue>) -> (r: CallbackType)
    requires
        i < old(set).opts@.len(),
        value_fits(old(set).opts@[i as int]),
    ensures
        final(set).opts@.len() == old(set).opts@.len(),
        final(set).utils@ == old(set).utils@,
        final(set).prefixs@ == old(set).prefixs@,
        forall|j: int| 0 <= j < old(set).opts@.len() && j != i ==> #[trigger] final(set).opts@[j] == old(set).opts@[j],
        same_static(final(set).opts@[i as int], old(set).opts@[i as int]),
        value_fits(final(set).opts@[i as int]),
        final(set).opts@[i as int].callback == CallbackType::Null,
        final(set).opts@[i as int].value@ == fold_sets(old(set).opts@[i as int].kind, old(set).opts@[i as int].value@,
            values_view(values@)),
        r == old(set).opts@[i as int].callback,
{
    let opt = &mut set.opts[i];
    let mut j: usize = 0;
    while j < values.len()
        invariant
            j <= values@.len(),
            same_static(*opt, old(set).opts@[i as int]),
            value_fits(*opt),
            opt.callback == old(set).opts@[i as int].callback,
            opt.value@ == fold_sets(old(set).opts@[i as int].kind, old(set).opts@[i as int].value@, values_view(values@.take(j as int))),
        decreases values@.len() - j,
    {
        let v = values[j].clone();
        proof {
            assert(values_view(values@.take(j + 1)).drop_last() =~= values_view(values@.take(j as int)));
        }
        opt.set_value(v);
        j = j + 1;
    }
    assert(values@.take(values@.len() as int) =~= values@);
    let t = opt.callback_type();
    opt.set_need_invoke(false);
    t
}

impl DelayParser {
    /// Match the delay contexts that the style makes from the argument; true when
    /// options answer to all of them.
    #[verifier::rlimit(40)]
    fn try_style(&mut self, gs: GenStyle, arg: &Argument, next: &Option<String>, Ghost(plain): Ghost<GenStyle>) -> (r: Result<bool>)
        requires
            plain == GenStyle::GS_Equal_With_Value || plain == GenStyle::GS_Argument || plain == GenStyle::GS_Boolean
                || plain == GenStyle::GS_Mutliple_Option || plain == GenStyle::GS_Embedded_Value,
            gs == delay_of(plain),
            old(self).core.set is Some,
            infos_valid(old(self).core.cached_infos@, old(self).core.set->0.opts@.len()),
            all_fit(old(self).core.set->0.opts@),
            mapper_valid(old(self).value_mapper@, old(self).core.set->0.opts@.len()),
            arg.prefix is Some,
            arg.name is Some,
            old(self).core.msg_id_gen.spec_next() < u64::MAX,
            gs == GenStyle::GS_Delay_Equal_With_Value || gs == GenStyle::GS_Delay_Argument || gs == GenStyle::GS_Delay_Boolean
                || gs == GenStyle::GS_Delay_Mutliple_Option || gs == GenStyle::GS_Delay_Embedded_Value,
        ensures
            keeps_frame(final(self).core, old(self).core),
            old(self).core.msg_id_gen.spec_next() <= final(self).core.msg_id_gen.spec_next() <= old(self).core.msg_id_gen.spec_next() + 1,
            all_fit(final(self).core.set->0.opts@),
            mapper_valid(final(self).value_mapper@, old(self).core.set->0.opts@.len()),
            r matches Ok(m) ==> m == style_matched(gs, reg_opts(old(self).core.set->0.opts@, old(self).core.cached_infos@),
                arg.prefix->0@, arg.name->0@, opt_str_view(arg.value), opt_str_view(*next)),
            r matches Ok(m) ==> final(self).core.argument_matched == (old(self).core.argument_matched || (m && gs == GenStyle::GS_Delay_Argument)),
            r is Ok ==> forall|x: int| 0 <= x < old(self).core.set->0.opts@.len()
                && !style_names(plain, arg.prefix->0@, arg.name->0@, opt_str_view(arg.value), #[trigger] old(self).core.set->0.opts@[x])
                ==> untouched(final(self).core.set->0.opts@[x], old(self).core.set->0.opts@[x]),
            forall|k: int| 0 <= k < final(self).value_mapper@.len() ==> mapper_ids(old(self).value_mapper@).contains(
                (#[trigger] final(self).value_mapper@[k]).0) || style_names(plain, arg.prefix->0@, arg.name->0@,
                opt_str_view(arg.value), old(self).core.set->0.opts@[final(self).value_mapper@[k].0.0 as int]),
            r is Ok && plain_callbacks(old(self).core.set->0.opts@) ==> plain_callbacks(final(self).core.set->0.opts@),
            old(self).core.callbacks@.dom().is_empty() && delay_shapes_safe_in(gen_shapes(gs, opt_str_view(arg.prefix),
                opt_str_view(arg.name), opt_str_view(arg.value), opt_str_view(*next)), reg_opts(old(self).core.set->0.opts@,
                old(self).core.cached_infos@)) ==> r is Ok,
            r is Ok && plain_callbacks(old(self).core.set->0.opts@) && mapper_ids(old(self).value_mapper@).no_duplicates() ==> {
                &&& mapper_ids(final(self).value_mapper@).no_duplicates()
                &&& agree_opts(pending_values(final(self).core.set->0.opts@, final(self).value_mapper@), style_values(plain,
                    arg.prefix->0@, arg.name->0@, opt_str_view(arg.value), opt_str_view(*next), old(self).core.set->0.opts@,
                    old(self).core.cached_infos@, pending_values(old(self).core.set->0.opts@, old(self).value_mapper@)),
                    old(self).core.set->0.opts@)
            },
    {
        proof { lemma_mapper_ids(self.value_mapper@); }
        let ghost shapes = gen_shapes(gs, opt_str_view(arg.prefix), opt_str_view(arg.name), opt_str_view(arg.value), opt_str_view(*next));
        let ghost ropts = reg_opts(self.core.set->0.opts@, self.core.cached_infos@);
        let ghost pshapes = gen_shapes(plain, opt_str_view(arg.prefix), opt_str_view(arg.name), opt_str_view(arg.value), opt_str_view(*next));
        proof { lemma_delay_alike(plain, opt_str_view(arg.prefix), opt_str_view(arg.name), opt_str_view(arg.value), opt_str_view(*next)); }
        let ctxs = gs.gen_opt(arg, next);
        if ctxs.len() == 0 {
            proof {
                assert(pshapes.len() == 0);
                assert(pending_values(self.core.set->0.opts@, self.value_mapper@).len() == self.core.set->0.opts@.len());
            }
            return Ok(false);
        }
        let proc = crate::proc::SequenceProc { id: self.core.msg_id_gen.next_id(), contexts: ctxs, need_argument: false, matched_index: None };
        proof {
            assert forall|j: int| 0 <= j < proc.contexts@.len() implies !(#[trigger] proc.contexts@[j]).matched()
                && proc.contexts@[j].skip() == (gs == GenStyle::GS_Delay_Argument) by {
                lemma_shape(proc.contexts@[j], shapes[j], ropts[0]);
            }
        }
        let ghost cs = proc.contexts@;
        let ghost opts_before = self.core.set->0.opts@;
        proof {
            assert forall|o: CommonOpt| touched_by(cs, o) implies style_names(plain, arg.prefix->0@, arg.name->0@, opt_str_view(arg.value), o) by {
                let j = choose|j: int| 0 <= j < cs.len() && (#[trigger] cs[j]).matches(o);
                lemma_shape(cs[j], shapes[j], o);
                lemma_delay_names(plain, arg.prefix->0@, arg.name->0@, opt_str_view(arg.value), opt_str_view(*next), o);
            }
        }
        let ghost p0 = pending_values(self.core.set->0.opts@, self.value_mapper@);
        proof {
            assert(fresh(proc));
            lemma_delay_shapes(plain, opt_str_view(arg.prefix), opt_str_view(arg.name), opt_str_view(arg.value), opt_str_view(*next));
            if delay_shapes_safe_in(shapes, ropts) {
                assert forall|j: int, j2: int| 0 <= j < cs.len() && 0 <= j2 < cs.len() implies #[trigger] cs[j].argument()
                    == #[trigger] cs[j2].argument() by {
                    assert(shapes[j].arg == shapes[j2].arg);
                }
                assert forall|j: int, x: int| 0 <= j < cs.len() && 0 <= x < ropts.len() && #[trigger] cs[j].matches(ropts[x])
                    implies cs[j].ok_for(ropts[x]) && ropts[x].kind != OptKind::Path
                    && ropts[x].spec_parse_value(super::gen::or_empty(cs[j].argument())) is Some by {
                    lemma_shape(cs[j], shapes[j], ropts[x]);
                    lemma_shape_ok(cs[j], shapes[j], ropts[x]);
                    assert(shape_matches(shapes[j], ropts[x]));
                }
                assert(delay_safe_in(cs, ropts));
            }
        }
        let m = self.publish_core(proc, Ghost(shapes))?;
        proof {
            reveal(flags_upto);
            crate::parser::waiting::lemma_publish_alike(shapes, pshapes, no_flags(shapes.len()), opts_before,
                self.core.cached_infos@, 0, p0);
            assert(no_flags(shapes.len()) =~= no_flags(pshapes.len()));
        }
        proof {
            assert forall|j: int, k: int| 0 <= j < shapes.len() && 0 <= k < ropts.len() implies cs[j].matches(#[trigger] ropts[k]) == shape_matches(#[trigger] shapes[j], ropts[k]) by {
                lemma_shape(cs[j], shapes[j], ropts[k]);
            }
            if m {
                assert forall|j: int| 0 <= j < shapes.len() implies shape_covered(#[trigger] shapes[j], ropts) by {
                    assert(ctx_covered(cs[j], ropts));
                    let k = choose|k: int| 0 <= k < ropts.len() && cs[j].matches(#[trigger] ropts[k]);
                    assert(shape_matches(shapes[j], ropts[k]));
                }
            } else {
                if shapes_covered(shapes, ropts) {
                    assert forall|j: int| 0 <= j < cs.len() implies ctx_covered(#[trigger] cs[j], ropts) by {
                        assert(shape_covered(shapes[j], ropts));
                        let k = choose|k: int| 0 <= k < ropts.len() && shape_matches(shapes[j], #[trigger] ropts[k]);
                        assert(cs[j].matches(ropts[k]));
                    }
                    assert(covered(cs, ropts));
                }
            }
            lemma_shape(cs[0], shapes[0], ropts[0]);
        }
        Ok(m)
    }

    /// Match a single non-option context of style `style`.
    fn publish_single(&mut self, ctxs: Vec<Ctx>, Ghost(name): Ghost<Seq<char>>, Ghost(style): Ghost<Style>, Ghost(total): Ghost<u64>, Ghost(current): Ghost<u64>) -> (r: Result<bool>)
        requires
            old(self).core.set is Some,
            infos_valid(old(self).core.cached_infos@, old(self).core.set->0.opts@.len()),
            all_fit(old(self).core.set->0.opts@),
            mapper_valid(old(self).value_mapper@, old(self).core.set->0.opts@.len()),
            old(self).core.msg_id_gen.spec_next() < u64::MAX,
            ctxs@.len() == 1,
            super::gen::nonopt_fresh(ctxs@[0], name, style, total, current),
            style == Style::Pos || style == Style::Cmd || style == Style::Main,
        ensures
            final(self).value_mapper == old(self).value_mapper,
            keeps_frame(final(self).core, old(self).core),
            final(self).core.msg_id_gen.spec_next() == old(self).core.msg_id_gen.spec_next() + 1,
            final(self).core.argument_matched == old(self).core.argument_matched,
            all_fit(final(self).core.set->0.opts@),
            mapper_valid(final(self).value_mapper@, old(self).core.set->0.opts@.len()),
            r is Ok ==> forall|i: int| 0 <= i < old(self).core.set->0.opts@.len() && !crate::opt::common::kind_accepts_style((#[trigger] old(self).core.set->0.opts@[i]).kind, style)
                ==> untouched(final(self).core.set->0.opts@[i], old(self).core.set->0.opts@[i]),
            r is Ok ==> forall|i: int| 0 <= i < old(self).core.set->0.opts@.len() && !is_opt_kind((#[trigger] old(self).core.set->0.opts@[i]).kind)
                ==> final(self).core.set->0.opts@[i].value@ == old(self).core.set->0.opts@[i].value@ || final(self).core.set->0.opts@[i].value@ is Bool,
            r is Ok && plain_callbacks(old(self).core.set->0.opts@) ==> plain_callbacks(final(self).core.set->0.opts@),
            old(self).core.callbacks@.dom().is_empty() ==> r is Ok,
            r is Ok && old(self).core.callbacks@.dom().is_empty() ==> forall|x: int| #[trigger] first_nonopt(name, style, total,
                current, reg_opts(old(self).core.set->0.opts@, old(self).core.cached_infos@), x) ==> nonopt_set(
                final(self).core.set->0.opts@, old(self).core.cached_infos@, x),
            r is Ok && old(self).core.callbacks@.dom().is_empty() ==> forall|i: int| 0 <= i < old(self).core.set->0.opts@.len()
                && !is_opt_kind((#[trigger] old(self).core.set->0.opts@[i]).kind) ==> final(self).core.set->0.opts@[i].value@
                == old(self).core.set->0.opts@[i].value@ || final(self).core.set->0.opts@[i].value@ == OptValueView::Bool(true),
    {
        let mut ctxs = ctxs;
        let c = ctxs.pop().unwrap();
        let mut proc = crate::proc::SingleCtxProc::new(self.core.msg_id_gen.next_id());
        proc.app_ctx(c);
        let ghost cs = proc.spec_ctxs();
        assert(cs =~= seq![c]);
        proof {
            let ropts = reg_opts(self.core.set->0.opts@, self.core.cached_infos@);
            assert forall|j: int, x: int| 0 <= j < cs.len() && 0 <= x < ropts.len() && #[trigger] cs[j].matches(ropts[x])
                implies cs[j].ok_for(ropts[x]) && ropts[x].kind != OptKind::Path
                && ropts[x].spec_parse_value(super::gen::or_empty(cs[j].argument())) is Some by {
                assert(cs[j] == c);
            }
            assert(delay_safe_in(cs, ropts));
        }
        assert(no_delay(cs)) by {
            assert forall|j: int| 0 <= j < cs.len() implies !((#[trigger] cs[j]) is Delay) by {
                assert(cs[j] == c);
            }
        }
        let ghost ropts = reg_opts(self.core.set->0.opts@, self.core.cached_infos@);
        let m = self.publish(proc)?;
        proof {
            if old(self).core.callbacks@.dom().is_empty() {
                assert forall|x: int| #[trigger] first_nonopt(name, style, total, current, ropts, x) implies nonopt_set(
                    self.core.set->0.opts@, old(self).core.cached_infos@, x) by {
                    assert(cs[0] == c);
                    assert forall|y: int| 0 <= y < x implies !cs[0].matches(#[trigger] ropts[y]) by {
                        assert(!crate::ctx::nonopt_ctx_matches(name, style, total, current, ropts[y]));
                    }
                    assert(super::forward::first_match(cs[0], ropts, x));
                    assert(processed_at(cs, ropts, x));
                }
            }
            assert forall|i: int| 0 <= i < old(self).core.set->0.opts@.len() && !crate::opt::common::kind_accepts_style((#[trigger] old(self).core.set->0.opts@[i]).kind, style)
                implies !touched_by(cs, old(self).core.set->0.opts@[i]) by {
                assert(cs[0] == c);
            }
        }
        Ok(m)
    }

    /// Set the values kept waiting, option by option in the order they were kept,
    /// and invoke each option's callback.
    fn set_delay_values(&mut self) -> (r: Result<bool>)
        requires
            old(self).core.set is Some,
            all_fit(old(self).core.set->0.opts@),
            mapper_valid(old(self).value_mapper@, old(self).core.set->0.opts@.len()),
        ensures
            final(self).core.set is Some,
            same_statics(final(self).core.set->0.opts@, old(self).core.set->0.opts@),
            final(self).core.set->0.utils@ == old(self).core.set->0.utils@,
            final(self).core.set->0.prefixs@ == old(self).core.set->0.prefixs@,
            final(self).core.cached_infos@ == old(self).core.cached_infos@,
            same_callbacks(final(self).core.callbacks@, old(self).core.callbacks@),
            final(self).core.noa@ == old(self).core.noa@,
            final(self).core.msg_id_gen == old(self).core.msg_id_gen,
            final(self).core.argument_matched == old(self).core.argument_matched,
            all_fit(final(self).core.set->0.opts@),
            mapper_valid(final(self).value_mapper@, old(self).core.set->0.opts@.len()),
            r is Ok ==> final(self).value_mapper@.len() == 0,
            forall|x: int| 0 <= x < old(self).core.set->0.opts@.len() && !waiting(old(self).value_mapper@, x)
                ==> untouched(#[trigger] final(self).core.set->0.opts@[x], old(self).core.set->0.opts@[x]),
            r is Ok && plain_callbacks(old(self).core.set->0.opts@) ==> agree_opts(values_of(final(self).core.set->0.opts@),
                pending_values(old(self).core.set->0.opts@, old(self).value_mapper@), old(self).core.set->0.opts@),
            old(self).core.callbacks@.dom().is_empty() ==> r is Ok,
    {
        let ghost opts0 = self.core.set->0.opts@;
        let ghost vm0 = self.value_mapper@;
        let ghost plain0 = plain_callbacks(opts0);
        let ghost mut done: int = 0;
        while self.value_mapper.len() > 0
            invariant
                self.core.set is Some,
                opts0 == old(self).core.set->0.opts@,
                same_statics(self.core.set->0.opts@, opts0),
                self.core.set->0.utils@ == old(self).core.set->0.utils@,
                self.core.set->0.prefixs@ == old(self).core.set->0.prefixs@,
                self.core.cached_infos@ == old(self).core.cached_infos@,
                same_callbacks(self.core.callbacks@, old(self).core.callbacks@),
                self.core.noa@ == old(self).core.noa@,
                self.core.msg_id_gen == old(self).core.msg_id_gen,
                self.core.argument_matched == old(self).core.argument_matched,
                all_fit(self.core.set->0.opts@),
                mapper_valid(self.value_mapper@, opts0.len()),
                vm0 == old(self).value_mapper@,
                0 <= done <= vm0.len(),
                self.value_mapper@ == vm0.skip(done),
                forall|x: int| 0 <= x < opts0.len() && !waiting(vm0, x) ==> untouched(#[trigger] self.core.set->0.opts@[x], opts0[x]),
                plain0 == plain_callbacks(opts0),
                plain0 ==> plain_callbacks(self.core.set->0.opts@),
                plain0 ==> forall|x: int| 0 <= x < opts0.len() && is_opt_kind((#[trigger] opts0[x]).kind)
                    ==> self.core.set->0.opts@[x].value@ == fold_sets(opts0[x].kind, opts0[x].value@, flat(vm0.take(done), x)),
            decreases self.value_mapper@.len(),
        {
            let ghost vm = self.value_mapper@;
            let (id, values) = self.value_mapper.remove(0);
            assert(vm[0].0 == id);
            assert forall|k: int| 0 <= k < self.value_mapper@.len() implies (#[trigger] self.value_mapper@[k]).0.0 < opts0.len() by {
                assert(self.value_mapper@[k] == vm[k + 1]);
            }
            let len = match &self.core.set {
                Some(s) => s.opts.len(),
                None => 0,
            };
            assert(id.0 < len);
            let i = id.0 as usize;
            let ghost before = self.core.set->0.opts@;
            let t = match &mut self.core.set {
                Some(set) => set_delayed(set, i, &values),
                None => {
                    assert(false);
                    unreached()
                },
            };
            proof {
                assert forall|x: int| 0 <= x < self.core.set->0.opts@.len() implies same_static(#[trigger] self.core.set->0.opts@[x], opts0[x])
                    && value_fits(self.core.set->0.opts@[x]) by {
                    assert(same_static(before[x], opts0[x]));
                    assert(value_fits(before[x]));
                }
            }
            proof {
                assert(vm[0] == vm0[done]);
                assert(vm0[done].0.0 == i);
                assert(waiting(vm0, i as int));
                assert forall|x: int| 0 <= x < opts0.len() && !waiting(vm0, x) implies untouched(#[trigger] self.core.set->0.opts@[x], opts0[x]) by {
                    assert(x != i);
                    assert(self.core.set->0.opts@[x] == before[x]);
                }
            }
            let ghost mid = self.core.set->0.opts@;
            proof {
                if plain0 {
                    assert(t == CallbackType::Null || t == CallbackType::Value || !is_opt_kind(before[i as int].kind));
                }
            }
            self.core.invoke_callback(id, t, 0)?;
            proof {
                if plain0 {
                    assert(vm0.take(done + 1).drop_last() =~= vm0.take(done));
                    assert(vm0.take(done + 1).last() == vm0[done]);
                    assert forall|x: int| 0 <= x < self.core.set->0.opts@.len() && is_opt_kind((#[trigger] self.core.set->0.opts@[x]).kind)
                        implies self.core.set->0.opts@[x].callback == CallbackType::Null || self.core.set->0.opts@[x].callback == CallbackType::Value by {
                        assert(same_static(self.core.set->0.opts@[x], opts0[x]));
                        assert(same_static(before[x], opts0[x]));
                    }
                    assert forall|x: int| 0 <= x < opts0.len() && is_opt_kind((#[trigger] opts0[x]).kind)
                        implies self.core.set->0.opts@[x].value@ == fold_sets(opts0[x].kind, opts0[x].value@, flat(vm0.take(done + 1), x)) by {
                        assert(same_static(before[x], opts0[x]));
                        if x == i {
                            assert(values == vm0[done].1);
                            lemma_fold_sets_append(opts0[x].kind, opts0[x].value@, flat(vm0.take(done), x), values_view(values@));
                        } else {
                            assert(flat(vm0.take(done + 1), x) =~= flat(vm0.take(done), x));
                        }
                    }
                }
                done = done + 1;
                assert(self.value_mapper@ =~= vm0.skip(done));
            }
        }
        proof {
            if plain0 {
                assert(vm0.take(vm0.len() as int) =~= vm0);
            }
        }
        Ok(true)
    }
}


impl DelayParser {
    /// Parse the arguments of `iter` from its position on.
    ///
    /// Each argument is split by the prefixes of the set and matched against the
    /// options in the styles `-o=v`, `-o v`, `-o`, `-abc`, `-ov`, in that order; an
    /// option that takes the next argument consumes it, and the value it gets is
    /// kept waiting. What no option takes is a non-option argument. The non-option
    /// arguments are matched against the `cmd` and `pos` non-options; then the
    /// values kept waiting are set and the options' callbacks invoked; then the
    /// options and the non-options are checked, and at last the `main` non-option
    /// is matched. An option that no argument names and that has no value waiting
    /// keeps its value. With no callback registered, and where no option can fail
    /// on the arguments (`delay_args_safe`), it fails only where the options or the
    /// non-options do not pass their checks.
    pub fn parse(&mut self, iter: &mut ArgIterator) -> (r: Result<Option<bool>>)
        requires
            old(self).core.set is Some ==> infos_valid(old(self).core.cached_infos@, old(self).core.set->0.opts@.len())
                && all_fit(old(self).core.set->0.opts@)
                && mapper_valid(old(self).value_mapper@, old(self).core.set->0.opts@.len()),
            old(self).core.msg_id_gen.spec_next() + 6 * old(iter)@.args.len() + old(self).core.noa@.len() + 4 <= u64::MAX,
            old(iter)@.args.len() < usize::MAX,
        ensures
            old(self).core.set is None ==> r == Ok::<Option<bool>, Error>(None) && final(self).core.set is None
                && final(self).core.noa@ == old(self).core.noa@ && final(iter)@ == old(iter)@
                && final(self).value_mapper@ == old(self).value_mapper@,
            old(self).core.set is Some ==> {
                &&& final(self).core.set is Some
                &&& same_statics(final(self).core.set->0.opts@, old(self).core.set->0.opts@)
                &&& final(self).core.set->0.utils@ == old(self).core.set->0.utils@
                &&& final(self).core.set->0.prefixs@ == old(self).core.set->0.prefixs@
                &&& final(self).core.cached_infos@ == old(self).core.cached_infos@
                &&& same_callbacks(final(self).core.callbacks@, old(self).core.callbacks@)
                &&& final(iter)@.args == old(iter)@.args
                &&& mapper_valid(final(self).value_mapper@, old(self).core.set->0.opts@.len())
            },
            old(self).core.set is Some && r is Ok ==> {
                &&& r == Ok::<Option<bool>, Error>(Some(true))
                &&& strings_view(final(self).core.noa@) == strings_view(old(self).core.noa@) + spec_noa(
                    reg_opts(old(self).core.set->0.opts@, old(self).core.cached_infos@),
                    strings_view(old(self).core.set->0.prefixs@),
                    old(iter)@.args,
                    old(iter)@.index,
                )
                &&& opts_ok(final(self).core.set->0.opts@)
                &&& nonopts_ok(final(self).core.set->0.opts@)
                &&& final(iter)@.index >= final(iter)@.args.len()
                &&& final(self).value_mapper@.len() == 0
                &&& forall|x: int| 0 <= x < old(self).core.set->0.opts@.len()
                    && is_opt_kind((#[trigger] old(self).core.set->0.opts@[x]).kind)
                    && !named_between(strings_view(old(self).core.set->0.prefixs@), old(iter)@.args, old(iter)@.index,
                    old(iter)@.args.len() as int, old(self).core.set->0.opts@[x])
                    && !waiting(old(self).value_mapper@, x)
                    ==> untouched(final(self).core.set->0.opts@[x], old(self).core.set->0.opts@[x])
                &&& plain_callbacks(old(self).core.set->0.opts@) && mapper_ids(old(self).value_mapper@).no_duplicates()
                    ==> agree_opts(values_of(final(self).core.set->0.opts@), parse_values(old(self).core.set->0.opts@,
                    old(self).core.cached_infos@, strings_view(old(self).core.set->0.prefixs@), old(iter)@.args, old(iter)@.index,
                    pending_values(old(self).core.set->0.opts@, old(self).value_mapper@)), old(self).core.set->0.opts@)
            },
            old(self).core.set is Some && old(self).core.callbacks@.dom().is_empty() && delay_args_safe(reg_opts(
                old(self).core.set->0.opts@, old(self).core.cached_infos@), strings_view(old(self).core.set->0.prefixs@),
                old(iter)@.args, old(iter)@.index) ==> r is Ok || !opts_ok(final(self).core.set->0.opts@)
                || !nonopts_ok(final(self).core.set->0.opts@),
            old(self).core.set is Some && old(self).core.callbacks@.dom().is_empty() && waits_for_options(old(self).value_mapper@,
                old(self).core.set->0.opts@) && (r is Ok || (delay_args_safe(reg_opts(old(self).core.set->0.opts@,
                old(self).core.cached_infos@), strings_view(old(self).core.set->0.prefixs@), old(iter)@.args, old(iter)@.index)
                && opts_ok(final(self).core.set->0.opts@))) ==> pos_taken(final(self).core.set->0.opts@,
                old(self).core.cached_infos@, reg_opts(old(self).core.set->0.opts@, old(self).core.cached_infos@),
                strings_view(final(self).core.noa@)) && cmd_taken(final(self).core.set->0.opts@, old(self).core.cached_infos@,
                reg_opts(old(self).core.set->0.opts@, old(self).core.cached_infos@), strings_view(final(self).core.noa@)),
            old(self).core.set is Some && old(self).core.callbacks@.dom().is_empty() && r is Ok ==> main_taken(
                final(self).core.set->0.opts@, old(self).core.cached_infos@, reg_opts(old(self).core.set->0.opts@,
                old(self).core.cached_infos@), 0),
    {
        if self.core.set.is_none() {
            return Ok(None);
        }
        let ghost opts0 = self.core.set->0.opts@;
        let ghost infos0 = self.core.cached_infos@;
        let ghost prefixs0 = self.core.set->0.prefixs@;
        let ghost ropts0 = reg_opts(opts0, infos0);
        let ghost pv = strings_view(prefixs0);
        let ghost args = iter@.args;
        let ghost start = iter@.index;
        let ghost noa0 = strings_view(self.core.noa@);
        let ghost vm0 = self.value_mapper@;
        let ghost good = plain_callbacks(opts0) && mapper_ids(vm0).no_duplicates();
        let ghost ptarget = parse_values(opts0, infos0, pv, args, start, pending_values(opts0, vm0));
        proof {
            lemma_parse_len(opts0, infos0, pv, args, start, pending_values(opts0, vm0));
        }
        match &self.core.set {
            Some(set) => {
                parse_default_pre_check(set, &self.core.callbacks)?;
            },
            None => {},
        }
        proof { crate::arg::lemma_iter_view(iter); }
        assert(remaining(args.len() as int, start) <= args.len());
        while !iter.reach_end()
            invariant
                old(self).core.set is Some,
                opts0 == old(self).core.set->0.opts@,
                infos0 == old(self).core.cached_infos@,
                prefixs0 == old(self).core.set->0.prefixs@,
                args == old(iter)@.args,
                iter@.args == args,
                args.len() < usize::MAX,
                self.core.set is Some,
                self.core.cached_infos@ == infos0,
                infos_valid(infos0, opts0.len()),
                same_statics(self.core.set->0.opts@, opts0),
                self.core.set->0.utils@ == old(self).core.set->0.utils@,
                self.core.set->0.prefixs@ == prefixs0,
                same_callbacks(self.core.callbacks@, old(self).core.callbacks@),
                all_fit(self.core.set->0.opts@),
                mapper_valid(self.value_mapper@, opts0.len()),
                ropts0 == reg_opts(opts0, infos0),
                pv == strings_view(prefixs0),
                strings_view(self.core.noa@) + spec_noa(ropts0, pv, args, iter@.index) == noa0 + spec_noa(ropts0, pv, args, start),
                self.core.msg_id_gen.spec_next() + 6 * remaining(args.len() as int, iter@.index) + self.core.noa@.len() + 4 <= u64::MAX,
                frame_kept(self.core.set->0.opts@, opts0, pv, args, start, iter@.index),
                waiting_named(self.value_mapper@, vm0, opts0, pv, args, start, iter@.index),
                vm0 == old(self).value_mapper@,
                0 <= start <= iter@.index,
                start == old(iter)@.index,
                good == (plain_callbacks(opts0) && mapper_ids(vm0).no_duplicates()),
                ptarget == parse_values(opts0, infos0, pv, args, start, pending_values(opts0, vm0)),
                ptarget.len() == opts0.len(),
                good ==> plain_callbacks(self.core.set->0.opts@),
                good ==> mapper_ids(self.value_mapper@).no_duplicates(),
                good ==> agree_opts(parse_values(opts0, infos0, pv, args, iter@.index, pending_values(self.core.set->0.opts@,
                    self.value_mapper@)), ptarget, opts0),
            decreases remaining(args.len() as int, iter@.index),
        {
            proof { crate::arg::lemma_iter_view(iter); }
            let ghost i = iter@.index;
            proof {
                lemma_frame_more(self.core.set->0.opts@, opts0, pv, args, start, i, i + 1);
                lemma_waiting_more(self.value_mapper@, vm0, opts0, pv, args, start, i, i + 1);
            }
            let ghost noa_before = self.core.noa@;
            let ghost v0 = pending_values(self.core.set->0.opts@, self.value_mapper@);
            let ghost mut expected = v0;
            proof {
                assert(v0.len() == opts0.len());
            }
            iter.fill_current_and_next();
            self.core.argument_matched = false;
            let parsed = match &self.core.set {
                Some(set) => iter.parse(&set.prefixs),
                None => Err(Error::InvalidNextArgument),
            };
            let mut matched = false;
            let ghost step = arg_step(ropts0, pv, args[i], next_of(args, i));
            match parsed {
                Ok(arg) => {
                    let ghost p = arg.prefix->0@;
                    let ghost n = arg.name->0@;
                    let ghost v = opt_str_view(arg.value);
                    let ghost nx = next_of(args, i);
                    proof {
                        lemma_shapes_static(gen_shapes(GenStyle::GS_Delay_Equal_With_Value, Some(p), Some(n), v, nx), self.core.set->0.opts@, opts0, infos0);
                        lemma_delay_style(GenStyle::GS_Equal_With_Value, ropts0, p, n, v, nx);
                        lemma_delay_style(GenStyle::GS_Argument, ropts0, p, n, v, nx);
                        lemma_delay_style(GenStyle::GS_Boolean, ropts0, p, n, v, nx);
                        lemma_delay_style(GenStyle::GS_Mutliple_Option, ropts0, p, n, v, nx);
                        lemma_delay_style(GenStyle::GS_Embedded_Value, ropts0, p, n, v, nx);
                    }
                    let ghost before_ewv = self.core.set->0.opts@;
                    let ghost vm_ewv = self.value_mapper@;
                    proof { if delay_args_safe(ropts0, pv, args, start) { lemma_delay_safe_now(GenStyle::GS_Delay_Equal_With_Value, ropts0, self.core.set->0.opts@, opts0, infos0, pv, args, start, i, p, n, v); } }
                    matched = self.try_style(GenStyle::GS_Delay_Equal_With_Value, &arg, iter.next(), Ghost(GenStyle::GS_Equal_With_Value))?;
                    proof { lemma_delay_step(before_ewv, self.core.set->0.opts@, vm_ewv, self.value_mapper@, opts0, vm0, pv, args, start, i, GenStyle::GS_Equal_With_Value, p, n, v); }
                    proof { lemma_expected_step(GenStyle::GS_Equal_With_Value, p, n, v, nx, before_ewv, pending_values(before_ewv, vm_ewv), pending_values(self.core.set->0.opts@, self.value_mapper@), opts0, infos0, expected, good); expected = style_values(GenStyle::GS_Equal_With_Value, p, n, v, nx, opts0, infos0, expected); }
                    if !matched {
                        proof { lemma_shapes_static(gen_shapes(GenStyle::GS_Delay_Argument, Some(p), Some(n), v, nx), self.core.set->0.opts@, opts0, infos0); }
                        let ghost before_arg = self.core.set->0.opts@;
                        let ghost vm_arg = self.value_mapper@;
                        proof { if delay_args_safe(ropts0, pv, args, start) { lemma_delay_safe_now(GenStyle::GS_Delay_Argument, ropts0, self.core.set->0.opts@, opts0, infos0, pv, args, start, i, p, n, v); } }
                        matched = self.try_style(GenStyle::GS_Delay_Argument, &arg, iter.next(), Ghost(GenStyle::GS_Argument))?;
                        proof { lemma_delay_step(before_arg, self.core.set->0.opts@, vm_arg, self.value_mapper@, opts0, vm0, pv, args, start, i, GenStyle::GS_Argument, p, n, v); }
                    proof { lemma_expected_step(GenStyle::GS_Argument, p, n, v, nx, before_arg, pending_values(before_arg, vm_arg), pending_values(self.core.set->0.opts@, self.value_mapper@), opts0, infos0, expected, good); expected = style_values(GenStyle::GS_Argument, p, n, v, nx, opts0, infos0, expected); }
                    }
                    if !matched {
                        proof { lemma_shapes_static(gen_shapes(GenStyle::GS_Delay_Boolean, Some(p), Some(n), v, nx), self.core.set->0.opts@, opts0, infos0); }
                        let ghost before_bool = self.core.set->0.opts@;
                        let ghost vm_bool = self.value_mapper@;
                        proof { if delay_args_safe(ropts0, pv, args, start) { lemma_delay_safe_now(GenStyle::GS_Delay_Boolean, ropts0, self.core.set->0.opts@, opts0, infos0, pv, args, start, i, p, n, v); } }
                        matched = self.try_style(GenStyle::GS_Delay_Boolean, &arg, iter.next(), Ghost(GenStyle::GS_Boolean))?;
                        proof { lemma_delay_step(before_bool, self.core.set->0.opts@, vm_bool, self.value_mapper@, opts0, vm0, pv, args, start, i, GenStyle::GS_Boolean, p, n, v); }
                    proof { lemma_expected_step(GenStyle::GS_Boolean, p, n, v, nx, before_bool, pending_values(before_bool, vm_bool), pending_values(self.core.set->0.opts@, self.value_mapper@), opts0, infos0, expected, good); expected = style_values(GenStyle::GS_Boolean, p, n, v, nx, opts0, infos0, expected); }
                    }
                    if !matched {
                        proof { lemma_shapes_static(gen_shapes(GenStyle::GS_Delay_Mutliple_Option, Some(p), Some(n), v, nx), self.core.set->0.opts@, opts0, infos0); }
                        let ghost before_multi = self.core.set->0.opts@;
                        let ghost vm_multi = self.value_mapper@;
                        proof { if delay_args_safe(ropts0, pv, args, start) { lemma_delay_safe_now(GenStyle::GS_Delay_Mutliple_Option, ropts0, self.core.set->0.opts@, opts0, infos0, pv, args, start, i, p, n, v); } }
                        matched = self.try_style(GenStyle::GS_Delay_Mutliple_Option, &arg, iter.next(), Ghost(GenStyle::GS_Mutliple_Option))?;
                        proof { lemma_delay_step(before_multi, self.core.set->0.opts@, vm_multi, self.value_mapper@, opts0, vm0, pv, args, start, i, GenStyle::GS_Mutliple_Option, p, n, v); }
                    proof { lemma_expected_step(GenStyle::GS_Mutliple_Option, p, n, v, nx, before_multi, pending_values(before_multi, vm_multi), pending_values(self.core.set->0.opts@, self.value_mapper@), opts0, infos0, expected, good); expected = style_values(GenStyle::GS_Mutliple_Option, p, n, v, nx, opts0, infos0, expected); }
                    }
                    if !matched {
                        proof { lemma_shapes_static(gen_shapes(GenStyle::GS_Delay_Embedded_Value, Some(p), Some(n), v, nx), self.core.set->0.opts@, opts0, infos0); }
                        let ghost before_emb = self.core.set->0.opts@;
                        let ghost vm_emb = self.value_mapper@;
                        proof { if delay_args_safe(ropts0, pv, args, start) { lemma_delay_safe_now(GenStyle::GS_Delay_Embedded_Value, ropts0, self.core.set->0.opts@, opts0, infos0, pv, args, start, i, p, n, v); } }
                        matched = self.try_style(GenStyle::GS_Delay_Embedded_Value, &arg, iter.next(), Ghost(GenStyle::GS_Embedded_Value))?;
                        proof { lemma_delay_step(before_emb, self.core.set->0.opts@, vm_emb, self.value_mapper@, opts0, vm0, pv, args, start, i, GenStyle::GS_Embedded_Value, p, n, v); }
                    proof { lemma_expected_step(GenStyle::GS_Embedded_Value, p, n, v, nx, before_emb, pending_values(before_emb, vm_emb), pending_values(self.core.set->0.opts@, self.value_mapper@), opts0, infos0, expected, good); expected = style_values(GenStyle::GS_Embedded_Value, p, n, v, nx, opts0, infos0, expected); }
                    }
                    assert(matched == step is Some);
                    assert(matched ==> self.core.argument_matched == (step == Some(true)));
                    assert(expected == cascade_values(p, n, v, nx, opts0, infos0, v0));
                },
                Err(_) => {
                    assert(step is None);
                },
            }
            assert(good ==> agree_opts(pending_values(self.core.set->0.opts@, self.value_mapper@), expected, opts0));
            if matched && self.core.argument_matched {
                iter.skip();
            }
            if !matched {
                match iter.current() {
                    Some(a) => {
                        self.core.noa.push(a.clone());
                    },
                    None => {},
                }
                assert(strings_view(self.core.noa@) =~= strings_view(noa_before).push(args[i]));
                assert(seq![args[i]] + spec_noa(ropts0, pv, args, i + 1) =~= spec_noa(ropts0, pv, args, i));
                assert(strings_view(self.core.noa@) + spec_noa(ropts0, pv, args, i + 1) =~= strings_view(noa_before) + spec_noa(ropts0, pv, args, i));
            }
            iter.skip();
            proof {
                crate::arg::lemma_iter_view(iter);
                lemma_frame_more(self.core.set->0.opts@, opts0, pv, args, start, i + 1, iter@.index);
                lemma_waiting_more(self.value_mapper@, vm0, opts0, pv, args, start, i + 1, iter@.index);
                if good {
                    assert(parse_values(opts0, infos0, pv, args, i, v0) == parse_values(opts0, infos0, pv, args, iter@.index, expected));
                    lemma_parse_agree(opts0, infos0, pv, args, iter@.index, pending_values(self.core.set->0.opts@, self.value_mapper@), expected);
                }
            }
        }
        assert(spec_noa(ropts0, pv, args, iter@.index) =~= Seq::<Seq<char>>::empty());
        assert(strings_view(self.core.noa@) =~= noa0 + spec_noa(ropts0, pv, args, start));
        let ghost noa1 = self.core.noa@;
        let ghost opts1 = self.core.set->0.opts@;
        let ghost vm1 = self.value_mapper@;
        let ghost nv1 = strings_view(noa1);
        let ghost quiet = old(self).core.callbacks@.dom().is_empty();
        let noa_total = self.core.noa.len();
        if noa_total > 0 {
            let ghost opts_c = self.core.set->0.opts@;
            let ctxs = GenStyle::GS_Non_Cmd.gen_nonopt(&self.core.noa[0], noa_total as u64, 1);
            self.publish_single(ctxs, Ghost(self.core.noa@[0]@), Ghost(Style::Cmd), Ghost(noa_total as u64), Ghost(1u64))?;
            proof {
                if quiet {
                    assert(nv1[0] == self.core.noa@[0]@);
                    assert forall|x: int| #[trigger] first_nonopt(nv1[0], Style::Cmd, nv1.len() as u64, 1, ropts0, x)
                        implies nonopt_set(self.core.set->0.opts@, infos0, x) by {
                        lemma_first_nonopt_static(nv1[0], Style::Cmd, noa_total as u64, 1, opts_c, opts0, infos0, x);
                    }
                    assert(cmd_taken(self.core.set->0.opts@, infos0, ropts0, nv1));
                }
            }
            let mut k: usize = 0;
            while k < noa_total
                invariant
                    old(self).core.set is Some,
                    opts0 == old(self).core.set->0.opts@,
                    infos0 == old(self).core.cached_infos@,
                    prefixs0 == old(self).core.set->0.prefixs@,
                    args == old(iter)@.args,
                    0 <= k <= noa_total,
                    noa_total == self.core.noa@.len(),
                    self.core.noa@ == noa1,
                    iter@.args == args,
                    iter@.index >= args.len(),
                    self.core.set is Some,
                    self.core.cached_infos@ == infos0,
                    infos_valid(infos0, opts0.len()),
                    same_statics(self.core.set->0.opts@, opts0),
                    self.core.set->0.utils@ == old(self).core.set->0.utils@,
                    self.core.set->0.prefixs@ == prefixs0,
                    same_callbacks(self.core.callbacks@, old(self).core.callbacks@),
                    all_fit(self.core.set->0.opts@),
                    mapper_valid(self.value_mapper@, opts0.len()),
                    self.core.msg_id_gen.spec_next() + (noa_total - k) + 3 <= u64::MAX,
                    self.value_mapper@ == vm1,
                    same_statics(opts1, opts0),
                    forall|x: int| 0 <= x < opts1.len() && is_opt_kind((#[trigger] opts1[x]).kind) ==> untouched(self.core.set->0.opts@[x], opts1[x]),
                    nv1 == strings_view(noa1),
                    ropts0 == reg_opts(opts0, infos0),
                    quiet == old(self).core.callbacks@.dom().is_empty(),
                    quiet ==> forall|p: int, x: int| 1 <= p <= k && #[trigger] pos_first(nv1, p, ropts0, x) ==> nonopt_set(
                        self.core.set->0.opts@, infos0, x),
                    quiet ==> cmd_taken(self.core.set->0.opts@, infos0, ropts0, nv1),
                decreases noa_total - k,
            {
                let ghost opts_k = self.core.set->0.opts@;
                let ctxs = GenStyle::GS_Non_Pos.gen_nonopt(&self.core.noa[k], noa_total as u64, (k + 1) as u64);
                self.publish_single(ctxs, Ghost(self.core.noa@[k as int]@), Ghost(Style::Pos), Ghost(noa_total as u64), Ghost((k + 1) as u64))?;
                proof {
                    if quiet {
                        assert(self.core.callbacks@.dom() == old(self).core.callbacks@.dom());
                        assert forall|p: int, x: int| 1 <= p <= k + 1 && #[trigger] pos_first(nv1, p, ropts0, x) implies nonopt_set(
                            self.core.set->0.opts@, infos0, x) by {
                            let ix = infos0[x].id.0 as int;
                            assert(0 <= ix < opts0.len());
                            assert(same_static(opts_k[ix], opts0[ix]));
                            if p <= k {
                                assert(nonopt_set(opts_k, infos0, x));
                                if !is_opt_kind(opts_k[ix].kind) {
                                    assert(self.core.set->0.opts@[ix].value@ == opts_k[ix].value@ || self.core.set->0.opts@[ix].value@
                                        == OptValueView::Bool(true));
                                }
                            } else {
                                assert(nv1[k as int] == self.core.noa@[k as int]@);
                                lemma_first_nonopt_static(nv1[k as int], Style::Pos, noa_total as u64, (k + 1) as u64,
                                    opts_k, opts0, infos0, x);
                                assert(first_nonopt(self.core.noa@[k as int]@, Style::Pos, noa_total as u64, (k + 1) as u64,
                                    reg_opts(opts_k, infos0), x));
                            }
                        }
                        assert forall|x: int| #[trigger] first_nonopt(nv1[0], Style::Cmd, nv1.len() as u64, 1, ropts0, x)
                            implies nonopt_set(self.core.set->0.opts@, infos0, x) by {
                            let ix = infos0[x].id.0 as int;
                            assert(0 <= ix < opts0.len());
                            assert(same_static(opts_k[ix], opts0[ix]));
                            assert(nonopt_set(opts_k, infos0, x));
                            if !is_opt_kind(opts_k[ix].kind) {
                                assert(self.core.set->0.opts@[ix].value@ == opts_k[ix].value@ || self.core.set->0.opts@[ix].value@
                                    == OptValueView::Bool(true));
                            }
                        }
                    }
                }
                k = k + 1;
            }
        }
        assert(quiet ==> pos_taken(self.core.set->0.opts@, infos0, ropts0, nv1));
        assert(quiet ==> cmd_taken(self.core.set->0.opts@, infos0, ropts0, nv1));
        let ghost opts_pos = self.core.set->0.opts@;
        let ghost vm_pos = self.value_mapper@;
        proof {
            assert forall|x: int| 0 <= x < opts1.len() && is_opt_kind((#[trigger] opts1[x]).kind) implies untouched(opts_pos[x], opts1[x]) by {}
        }
        let ghost quiet2 = quiet && waits_for_options(vm0, opts0);
        self.set_delay_values()?;
        let ghost opts_d = self.core.set->0.opts@;
        proof {
            if quiet2 {
                assert forall|p: int, x: int| 1 <= p <= nv1.len() && #[trigger] pos_first(nv1, p, ropts0, x) implies nonopt_set(
                    opts_d, infos0, x) by {
                    let ix = infos0[x].id.0 as int;
                    assert(0 <= ix < opts0.len());
                    assert(ropts0[x] == opts0[ix]);
                    assert(opts0[ix].kind == OptKind::Pos);
                    if waiting(vm_pos, ix) {
                        let q = choose|q: int| 0 <= q < vm_pos.len() && (#[trigger] vm_pos[q]).0.0 == ix;
                        assert(waiting(vm0, vm_pos[q].0.0 as int) || named_between(pv, args, start, args.len() as int,
                            opts0[vm_pos[q].0.0 as int]));
                        if waiting(vm0, ix) {
                            let q2 = choose|q2: int| 0 <= q2 < vm0.len() && (#[trigger] vm0[q2]).0.0 == ix;
                            assert(is_opt_kind(opts0[vm0[q2].0.0 as int].kind));
                        } else {
                            lemma_named_no_pos(pv, args, start, args.len() as int, opts0[ix]);
                        }
                    }
                    assert(untouched(opts_d[ix], opts_pos[ix]));
                    assert(nonopt_set(opts_pos, infos0, x));
                }
                assert forall|x: int| #[trigger] first_nonopt(nv1[0], Style::Cmd, nv1.len() as u64, 1, ropts0, x)
                    && nv1.len() > 0 implies nonopt_set(opts_d, infos0, x) by {
                    let ix = infos0[x].id.0 as int;
                    assert(0 <= ix < opts0.len());
                    assert(ropts0[x] == opts0[ix]);
                    assert(opts0[ix].kind == OptKind::Cmd);
                    if waiting(vm_pos, ix) {
                        let q = choose|q: int| 0 <= q < vm_pos.len() && (#[trigger] vm_pos[q]).0.0 == ix;
                        assert(waiting(vm0, vm_pos[q].0.0 as int) || named_between(pv, args, start, args.len() as int,
                            opts0[vm_pos[q].0.0 as int]));
                        if waiting(vm0, ix) {
                            let q2 = choose|q2: int| 0 <= q2 < vm0.len() && (#[trigger] vm0[q2]).0.0 == ix;
                            assert(is_opt_kind(opts0[vm0[q2].0.0 as int].kind));
                        } else {
                            lemma_named_no_pos(pv, args, start, args.len() as int, opts0[ix]);
                        }
                    }
                    assert(untouched(opts_d[ix], opts_pos[ix]));
                    assert(nonopt_set(opts_pos, infos0, x));
                }
            }
        }
        match &self.core.set {
            Some(set) => {
                parser_default_opt_check(set)?;
                parser_default_nonopt_check(set)?;
            },
            None => {},
        }
        let ghost opts2 = self.core.set->0.opts@;
        let empty = String::new();
        let ctxs = GenStyle::GS_Non_Main.gen_nonopt(&empty, 0, 0);
        self.publish_single(ctxs, Ghost(empty@), Ghost(Style::Main), Ghost(0u64), Ghost(0u64))?;
        proof {
            let opts3 = self.core.set->0.opts@;
            if quiet {
                assert(self.core.callbacks@.dom() == old(self).core.callbacks@.dom());
                assert forall|x: int| #[trigger] first_nonopt(Seq::empty(), Style::Main, 0, 0, ropts0, x)
                    implies nonopt_set(opts3, infos0, x) by {
                    lemma_first_nonopt_static(Seq::empty(), Style::Main, 0, 0, opts2, opts0, infos0, x);
                    assert(first_nonopt(empty@, Style::Main, 0, 0, reg_opts(opts2, infos0), x));
                }
            }
            if quiet2 {
                assert forall|x: int| #[trigger] first_nonopt(nv1[0], Style::Cmd, nv1.len() as u64, 1, ropts0, x)
                    && nv1.len() > 0 implies nonopt_set(opts3, infos0, x) by {
                    let ix = infos0[x].id.0 as int;
                    assert(0 <= ix < opts0.len());
                    assert(ropts0[x] == opts0[ix]);
                    assert(opts0[ix].kind == OptKind::Cmd);
                    assert(same_static(opts2[ix], opts0[ix]));
                    assert(nonopt_set(opts2, infos0, x));
                    assert(!crate::opt::common::kind_accepts_style(opts2[ix].kind, Style::Main));
                    assert(untouched(opts3[ix], opts2[ix]));
                }
            }
            if quiet2 {
                assert forall|p: int, x: int| 1 <= p <= nv1.len() && #[trigger] pos_first(nv1, p, ropts0, x) implies nonopt_set(
                    opts3, infos0, x) by {
                    let ix = infos0[x].id.0 as int;
                    assert(0 <= ix < opts0.len());
                    assert(ropts0[x] == opts0[ix]);
                    assert(opts0[ix].kind == OptKind::Pos);
                    assert(same_static(opts2[ix], opts0[ix]));
                    assert(nonopt_set(opts2, infos0, x));
                    assert(!crate::opt::common::kind_accepts_style(opts2[ix].kind, Style::Main));
                    assert(untouched(opts3[ix], opts2[ix]));
                }
            }
            assert forall|x: int| 0 <= x < opts2.len() && is_opt_kind((#[trigger] opts2[x]).kind) implies untouched(opts3[x], opts2[x]) by {
                assert(!crate::opt::common::kind_accepts_style(opts2[x].kind, Style::Main));
            }
            lemma_opts_ok_kept(opts3, opts2);
            assert forall|x: int| 0 <= x < opts0.len() && is_opt_kind((#[trigger] opts0[x]).kind)
                && !named_between(pv, args, start, args.len() as int, opts0[x]) && !waiting(vm0, x)
                implies untouched(opts3[x], opts0[x]) by {
                assert(same_static(opts1[x], opts0[x]));
                assert(untouched(opts1[x], opts0[x]));
                assert(untouched(opts_pos[x], opts1[x]));
                if waiting(vm_pos, x) {
                    let q = choose|q: int| 0 <= q < vm_pos.len() && (#[trigger] vm_pos[q]).0.0 == x;
                    assert(waiting(vm0, vm_pos[q].0.0 as int) || named_between(pv, args, start, args.len() as int, opts0[vm_pos[q].0.0 as int]));
                }
                assert(untouched(opts2[x], opts_pos[x]));
                assert(same_static(opts2[x], opts0[x]));
                lemma_untouched_trans(opts_pos[x], opts1[x], opts0[x]);
                lemma_untouched_trans(opts2[x], opts_pos[x], opts0[x]);
                lemma_untouched_trans(opts3[x], opts2[x], opts0[x]);
            }
            assert forall|x: int| 0 <= x < opts2.len() implies (#[trigger] opts3[x]).value@ == opts2[x].value@
                || (opts2[x].kind == crate::opt::common::OptKind::Main && opts3[x].value@ is Bool) by {
                if crate::opt::common::kind_accepts_style(opts2[x].kind, Style::Main) {
                    assert(opts2[x].kind == crate::opt::common::OptKind::Main);
                }
            }
            lemma_nonopts_ok_kept(opts3, opts2);
        }
        Ok(Some(true))
    }
}


impl DelayParser {
    pub fn set_argument_matched(&mut self)
        ensures
            final(self).core.argument_matched,
            final(self).core.msg_id_gen == old(self).core.msg_id_gen,
            final(self).core.cached_infos == old(self).core.cached_infos,
            final(self).core.noa == old(self).core.noa,
            final(self).core.set == old(self).core.set,
            final(self).core.callbacks == old(self).core.callbacks,
            final(self).value_mapper == old(self).value_mapper,
    {
        self.core.set_argument_matched();
    }

    /// The prefixes of the set the parser parses for.
    pub fn get_prefix(&self) -> (r: &Vec<String>)
        requires
            self.core.set is Some,
        ensures
            *r == self.core.set->0.prefixs,
    {
        self.core.get_prefix()
    }

    /// Invoke the callback registered for the option `id`, if there is one.
    pub fn invoke_callback(&mut self, id: Identifier, callback_type: CallbackType, index: u64) -> (r: Result<bool>)
        requires
            old(self).core.set is Some,
            id.0 < old(self).core.set->0.opts@.len(),
        ensures
            keeps_frame(final(self).core, old(self).core),
            final(self).value_mapper == old(self).value_mapper,
            final(self).core.msg_id_gen == old(self).core.msg_id_gen,
            final(self).core.argument_matched == old(self).core.argument_matched,
            forall|j: int| 0 <= j < old(self).core.set->0.opts@.len() && j != id.0 ==> #[trigger] final(self).core.set->0.opts@[j]
                == old(self).core.set->0.opts@[j],
            final(self).core.set->0.opts@[id.0 as int].callback == old(self).core.set->0.opts@[id.0 as int].callback,
            final(self).core.set->0.opts@[id.0 as int].value@ == old(self).core.set->0.opts@[id.0 as int].value@
                || exists|b: bool| final(self).core.set->0.opts@[id.0 as int].value@ == #[trigger] answer_value(
                    old(self).core.set->0.opts@[id.0 as int], b),
            r is Ok && !callback_idle(old(self).core, id, callback_type, index) && callback_type != CallbackType::Value
                ==> exists|b: bool| final(self).core.set->0.opts@[id.0 as int].value@ == #[trigger] answer_value(
                    old(self).core.set->0.opts@[id.0 as int], b),
            (callback_type == CallbackType::Value || callback_type == CallbackType::Null) ==> final(self).core.set->0.opts@[id.0 as int] == old(self).core.set->0.opts@[id.0 as int],
            r is Err ==> final(self).core.set == old(self).core.set && final(self).core.noa == old(self).core.noa,
            r is Ok ==> r == Ok::<bool, Error>(true),
            callback_idle(old(self).core, id, callback_type, index) ==> r == Ok::<bool, Error>(true) && final(self).core == old(self).core,
            super::forward::callback_invoked(old(self).core, final(self).core, id, callback_type, index, r),
    {
        self.core.invoke_callback(id, callback_type, index)
    }

    pub fn set_id_generator(&mut self, id_generator: DefaultIdGen)
        ensures
            final(self).core.msg_id_gen == id_generator,
            final(self).core.cached_infos == old(self).core.cached_infos,
            final(self).core.noa == old(self).core.noa,
            final(self).core.set == old(self).core.set,
            final(self).core.argument_matched == old(self).core.argument_matched,
            final(self).core.callbacks == old(self).core.callbacks,
            final(self).value_mapper == old(self).value_mapper,
    {
        self.core.set_id_generator(id_generator);
    }

    /// Register the callback of the option `id`, in place of one it had.
    pub fn set_callback(&mut self, id: Identifier, callback: OptCallback)
        ensures
            final(self).core.callbacks@ == old(self).core.callbacks@.insert(id.0, callback),
            final(self).core.msg_id_gen == old(self).core.msg_id_gen,
            final(self).core.cached_infos == old(self).core.cached_infos,
            final(self).core.noa == old(self).core.noa,
            final(self).core.set == old(self).core.set,
            final(self).core.argument_matched == old(self).core.argument_matched,
            final(self).value_mapper == old(self).value_mapper,
    {
        self.core.set_callback(id, callback);
    }

    pub fn publish_to(&mut self, set: DefaultSet)
        ensures
            final(self).core.set == Some(set),
            final(self).core.msg_id_gen == old(self).core.msg_id_gen,
            final(self).core.cached_infos == old(self).core.cached_infos,
            final(self).core.noa == old(self).core.noa,
            final(self).core.argument_matched == old(self).core.argument_matched,
            final(self).core.callbacks == old(self).core.callbacks,
            final(self).value_mapper == old(self).value_mapper,
    {
        self.core.publish_to(set);
    }

    pub fn set(&self) -> (r: &Option<DefaultSet>)
        ensures
            *r == self.core.set,
    {
        self.core.set()
    }

    pub fn get_opt(&self, id: Identifier) -> (r: Option<&CommonOpt>)
        requires
            self.core.set is Some,
        ensures
            r is Some <==> id.0 < self.core.set->0.opts@.len(),
            r matches Some(o) ==> *o == self.core.set->0.opts@[id.0 as int],
    {
        self.core.get_opt(id)
    }

    /// The option `id` of the set, to change in place.
    pub fn get_opt_mut(&mut self, id: Identifier) -> (r: Option<&mut CommonOpt>)
        requires
            old(self).core.set is Some,
        ensures
            final(self).core.set is Some,
            r is Some <==> id.0 < old(self).core.set->0.opts@.len(),
            r matches Some(o) ==> *o == old(self).core.set->0.opts@[id.0 as int]
                && final(self).core.set->0.opts@ == old(self).core.set->0.opts@.update(id.0 as int, *final(o)),
            r is None ==> final(self).core.set->0.opts == old(self).core.set->0.opts,
            final(self).core.set->0.utils == old(self).core.set->0.utils,
            final(self).core.set->0.prefixs == old(self).core.set->0.prefixs,
            final(self).core.msg_id_gen == old(self).core.msg_id_gen,
            final(self).core.cached_infos == old(self).core.cached_infos,
            final(self).core.noa == old(self).core.noa,
            final(self).core.argument_matched == old(self).core.argument_matched,
            final(self).core.callbacks == old(self).core.callbacks,
            final(self).value_mapper == old(self).value_mapper,
    {
        self.core.get_opt_mut(id)
    }

    pub fn noa(&self) -> (r: &Vec<String>)
        ensures
            *r == self.core.noa,
    {
        self.core.noa()
    }

    pub fn pre_check(&self) -> (r: Result<bool>)
        requires
            self.core.set is Some,
        ensures
            r is Ok <==> forall|k: u64| self.core.callbacks@.contains_key(k) ==> #[trigger] callback_fits(
                self.core.set->0.opts@, Identifier(k), self.core.callbacks@[k].spec_type()),
    {
        self.core.pre_check()
    }

    /// The options are checked together with the non-options, once the values
    /// kept waiting are set.
    pub fn check_opt(&self) -> (r: Result<bool>)
        ensures
            r == Ok::<bool, Error>(true),
    {
        Ok(true)
    }

    /// Check the options, then the non-options.
    pub fn check_nonopt(&self) -> (r: Result<bool>)
        requires
            self.core.set is Some,
        ensures
            r is Ok <==> opts_ok(self.core.set->0.opts@) && nonopts_ok(self.core.set->0.opts@),
            r is Ok ==> r == Ok::<bool, Error>(true),
            !opts_ok(self.core.set->0.opts@) ==> (r matches Err(e) && exists|i: int| 0 <= i < self.core.set->0.opts@.len() && is_opt_kind(
                (#[trigger] self.core.set->0.opts@[i]).kind) && !super::check::opt_ok(self.core.set->0.opts@[i]) && (e matches Error::OptionForceRequired(m)
                && m@ == self.core.set->0.opts@[i].spec_prefix() + self.core.set->0.opts@[i].name@) && forall|j: int| 0 <= j < i && is_opt_kind(
                (#[trigger] self.core.set->0.opts@[j]).kind) ==> super::check::opt_ok(self.core.set->0.opts@[j])),
            opts_ok(self.core.set->0.opts@) ==> (r matches Err(e) ==> exists|i: int| 0 <= i < self.core.set->0.opts@.len() && !is_opt_kind(
                (#[trigger] self.core.set->0.opts@[i]).kind) && !super::check::group_valid(self.core.set->0.opts@, super::check::nonopt_key(self.core.set->0.opts@[i]))
                && (e matches Error::NonOptionForceRequired(m) && m@ == super::check::group_names(self.core.set->0.opts@,
                super::check::nonopt_key(self.core.set->0.opts@[i]), self.core.set->0.opts@.len() as int))),
    {
        match &self.core.set {
            Some(s) => {
                parser_default_opt_check(s)?;
                parser_default_nonopt_check(s)
            },
            None => Ok(true),
        }
    }

    /// Nothing else is checked.
    pub fn check_other(&self) -> (r: Result<bool>)
        ensures
            r == Ok::<bool, Error>(true),
    {
        Ok(true)
    }

    /// Forget the non-option arguments and set every option back to its default;
    /// the values kept waiting stay.
    pub fn reset(&mut self)
        requires
            old(self).core.set is Some,
        ensures
            final(self).core.noa@.len() == 0,
            !final(self).core.argument_matched,
            final(self).core.set is Some,
            same_but_values(final(self).core.set->0.opts@, old(self).core.set->0.opts@),
            forall|i: int| 0 <= i < final(self).core.set->0.opts@.len() ==> (#[trigger] final(self).core.set->0.opts@[i]).value@
                == old(self).core.set->0.opts@[i].spec_after_reset(),
            final(self).core.set->0.utils == old(self).core.set->0.utils,
            final(self).core.set->0.prefixs == old(self).core.set->0.prefixs,
            final(self).core.msg_id_gen == old(self).core.msg_id_gen,
            final(self).core.cached_infos == old(self).core.cached_infos,
            final(self).core.callbacks == old(self).core.callbacks,
            final(self).value_mapper == old(self).value_mapper,
    {
        self.core.reset();
    }
}

impl Publisher for DelayParser {
    open spec fn spec_infos(&self) -> Seq<OptionInfo> {
        self.core.cached_infos@
    }

    /// Keep the information, after what was kept before.
    fn reg_subscriber(&mut self, info: OptionInfo)
        ensures
            final(self).core.cached_infos@ == old(self).core.cached_infos@.push(info),
            final(self).core.set == old(self).core.set,
            final(self).core.noa == old(self).core.noa,
            final(self).value_mapper == old(self).value_mapper,
    {
        self.core.reg_subscriber(info);
    }

    fn clean(&mut self)
        ensures
            final(self).core.cached_infos@.len() == 0,
            final(self).core.set == old(self).core.set,
            final(self).core.noa == old(self).core.noa,
            final(self).value_mapper == old(self).value_mapper,
    {
        self.core.clean();
    }
}

impl Default for DelayParser {
    fn default() -> (r: Self)
        ensures
            r.core.msg_id_gen.id.0 == 0,
            r.core.cached_infos@.len() == 0,
            r.core.noa@.len() == 0,
            r.core.set is None,
            r.core.callbacks@.dom().is_empty(),
            r.value_mapper@.len() == 0,
    {
        DelayParser::new(DefaultIdGen::default())
    }
}


/// No value waits for a non-option.
pub open spec fn waits_for_options(vm: Seq<(Identifier, Vec<OptValue>)>, opts: Seq<CommonOpt>) -> bool {
    forall|q: int| 0 <= q < vm.len() ==> is_opt_kind(opts[(#[trigger] vm[q]).0.0 as int].kind)
}

/// A style of the option arguments answers only to options that take such an
/// argument, never to a `pos` or `cmd` non-option.
proof fn lemma_style_names_no_pos(gs: GenStyle, p: Seq<char>, n: Seq<char>, v: Option<Seq<char>>, o: CommonOpt)
    requires
        style_names(gs, p, n, v, o),
        gs == GenStyle::GS_Equal_With_Value || gs == GenStyle::GS_Argument || gs == GenStyle::GS_Boolean
            || gs == GenStyle::GS_Mutliple_Option || gs == GenStyle::GS_Embedded_Value,
    ensures
        o.kind != OptKind::Pos,
        o.kind != OptKind::Cmd,
{
    let shs = gen_shapes(gs, Some(p), Some(n), v, None);
    let j = choose|j: int| 0 <= j < shs.len() && shape_matches(#[trigger] shs[j], o);
    if gs == GenStyle::GS_Mutliple_Option {
        assert(shs[j].style == Style::Multiple);
    }
    assert(shs[j].style == Style::Argument || shs[j].style == Style::Boolean || shs[j].style == Style::Multiple);
}

/// An argument names only options, never a `pos` or `cmd` non-option.
proof fn lemma_named_no_pos(prefixs: Seq<Seq<char>>, args: Seq<Seq<char>>, i: int, k: int, o: CommonOpt)
    requires
        named_between(prefixs, args, i, k, o),
    ensures
        o.kind != OptKind::Pos,
        o.kind != OptKind::Cmd,
{
    let j = choose|j: int| i <= j < k && j < args.len() && names_option(prefixs, #[trigger] args[j], o);
    match spec_parse_argument(args[j], prefixs) {
        Some((p, n, v)) => {
            if style_names(GenStyle::GS_Equal_With_Value, p, n, v, o) {
                lemma_style_names_no_pos(GenStyle::GS_Equal_With_Value, p, n, v, o);
            } else if style_names(GenStyle::GS_Argument, p, n, v, o) {
                lemma_style_names_no_pos(GenStyle::GS_Argument, p, n, v, o);
            } else if style_names(GenStyle::GS_Boolean, p, n, v, o) {
                lemma_style_names_no_pos(GenStyle::GS_Boolean, p, n, v, o);
            } else if style_names(GenStyle::GS_Mutliple_Option, p, n, v, o) {
                lemma_style_names_no_pos(GenStyle::GS_Mutliple_Option, p, n, v, o);
            } else {
                lemma_style_names_no_pos(GenStyle::GS_Embedded_Value, p, n, v, o);
            }
        },
        None => {},
    }
}

/// With no callback registered and no value waiting for a non-option, a parse that
/// succeeds gives `true` to each `pos` non-option that is the first registered
/// option to answer to the non-option argument at its position: the `p`-th
/// non-option argument is offered at position `p`.
pub proof fn law_delay_pos_takes_its_position(before: DelayParser, after: DelayParser, i0: ArgIteratorView, i1: ArgIteratorView, r: Result<Option<bool>>, p: int, x: int)
    requires
        delay_parsed(before, after, i0, i1, r),
        before.core.set is Some,
        infos_valid(before.core.cached_infos@, before.core.set->0.opts@.len()),
        before.core.callbacks@.dom().is_empty(),
        waits_for_options(before.value_mapper@, before.core.set->0.opts@),
        r is Ok,
        1 <= p <= after.core.noa@.len(),
        first_nonopt(after.core.noa@[p - 1]@, Style::Pos, after.core.noa@.len() as u64, p as u64, reg_opts(
            before.core.set->0.opts@, before.core.cached_infos@), x),
    ensures
        after.core.set->0.opts@[before.core.cached_infos@[x].id.0 as int].value@ == OptValueView::Bool(true),
{
    let nv = strings_view(after.core.noa@);
    let ropts = reg_opts(before.core.set->0.opts@, before.core.cached_infos@);
    assert(nv[p - 1] == after.core.noa@[p - 1]@);
    assert(pos_first(nv, p, ropts, x));
    let ix = before.core.cached_infos@[x].id.0 as int;
    assert(ropts[x] == before.core.set->0.opts@[ix]);
    assert(same_static(after.core.set->0.opts@[ix], before.core.set->0.opts@[ix]));
}

/// With no callback registered and no value waiting for a non-option, a parse that
/// succeeds gives `true` to the `cmd` non-option that is the first registered option
/// to answer to the first non-option argument, at position 1, and, with no callback
/// registered, to the first `main` non-option.
pub proof fn law_delay_cmd_and_main_taken(before: DelayParser, after: DelayParser, i0: ArgIteratorView, i1: ArgIteratorView, r: Result<Option<bool>>, c: int, m: int)
    requires
        delay_parsed(before, after, i0, i1, r),
        before.core.set is Some,
        infos_valid(before.core.cached_infos@, before.core.set->0.opts@.len()),
        before.core.callbacks@.dom().is_empty(),
        r is Ok,
    ensures
        waits_for_options(before.value_mapper@, before.core.set->0.opts@) && after.core.noa@.len() > 0 && first_nonopt(
            after.core.noa@[0]@, Style::Cmd, after.core.noa@.len() as u64, 1, reg_opts(before.core.set->0.opts@,
            before.core.cached_infos@), c) ==> after.core.set->0.opts@[before.core.cached_infos@[c].id.0 as int].value@
            == OptValueView::Bool(true),
        first_nonopt(Seq::empty(), Style::Main, 0, 0, reg_opts(before.core.set->0.opts@, before.core.cached_infos@), m)
            ==> after.core.set->0.opts@[before.core.cached_infos@[m].id.0 as int].value@ == OptValueView::Bool(true),
{
    let nv = strings_view(after.core.noa@);
    let ropts = reg_opts(before.core.set->0.opts@, before.core.cached_infos@);
    if waits_for_options(before.value_mapper@, before.core.set->0.opts@) && after.core.noa@.len() > 0 && first_nonopt(
        after.core.noa@[0]@, Style::Cmd, after.core.noa@.len() as u64, 1, ropts, c) {
        assert(nv[0] == after.core.noa@[0]@);
        assert(first_nonopt(nv[0], Style::Cmd, nv.len() as u64, 1, ropts, c));
        let ix = before.core.cached_infos@[c].id.0 as int;
        assert(ropts[c] == before.core.set->0.opts@[ix]);
        assert(same_static(after.core.set->0.opts@[ix], before.core.set->0.opts@[ix]));
    }
    if first_nonopt(Seq::empty(), Style::Main, 0, 0, ropts, m) {
        let ix = before.core.cached_infos@[m].id.0 as int;
        assert(ropts[m] == before.core.set->0.opts@[ix]);
        assert(same_static(after.core.set->0.opts@[ix], before.core.set->0.opts@[ix]));
    }
}

/// What parsing from the iterator `i0` makes of the parser `before`: it ends as
/// `after`, with the iterator at `i1` and the answer `r`, as [`DelayParser::parse`] states.
pub open spec fn delay_parsed(before: DelayParser, after: DelayParser, i0: ArgIteratorView, i1: ArgIteratorView, r: Result<Option<bool>>) -> bool {
    &&& (before.core.set is None ==> r == Ok::<Option<bool>, Error>(None) && after.core.set is None
        && after.core.noa@ == before.core.noa@ && i1 == i0
        && after.value_mapper@ == before.value_mapper@)
    &&& (before.core.set is Some ==> {
        &&& after.core.set is Some
        &&& same_statics(after.core.set->0.opts@, before.core.set->0.opts@)
        &&& after.core.set->0.utils@ == before.core.set->0.utils@
        &&& after.core.set->0.prefixs@ == before.core.set->0.prefixs@
        &&& after.core.cached_infos@ == before.core.cached_infos@
        &&& same_callbacks(after.core.callbacks@, before.core.callbacks@)
        &&& i1.args == i0.args
        &&& mapper_valid(after.value_mapper@, before.core.set->0.opts@.len())
        })
    &&& (before.core.set is Some && r is Ok ==> {
        &&& r == Ok::<Option<bool>, Error>(Some(true))
        &&& strings_view(after.core.noa@) == strings_view(before.core.noa@) + spec_noa(
            reg_opts(before.core.set->0.opts@, before.core.cached_infos@),
            strings_view(before.core.set->0.prefixs@),
            i0.args,
            i0.index,
        )
        &&& opts_ok(after.core.set->0.opts@)
        &&& nonopts_ok(after.core.set->0.opts@)
        &&& i1.index >= i1.args.len()
        &&& after.value_mapper@.len() == 0
        &&& forall|x: int| 0 <= x < before.core.set->0.opts@.len()
            && is_opt_kind((#[trigger] before.core.set->0.opts@[x]).kind)
            && !named_between(strings_view(before.core.set->0.prefixs@), i0.args, i0.index,
            i0.args.len() as int, before.core.set->0.opts@[x])
            && !waiting(before.value_mapper@, x)
            ==> untouched(after.core.set->0.opts@[x], before.core.set->0.opts@[x])
        &&& plain_callbacks(before.core.set->0.opts@) && mapper_ids(before.value_mapper@).no_duplicates()
            ==> agree_opts(values_of(after.core.set->0.opts@), parse_values(before.core.set->0.opts@,
            before.core.cached_infos@, strings_view(before.core.set->0.prefixs@), i0.args, i0.index,
            pending_values(before.core.set->0.opts@, before.value_mapper@)), before.core.set->0.opts@)
        })
    &&& (before.core.set is Some && before.core.callbacks@.dom().is_empty() && delay_args_safe(reg_opts(
        before.core.set->0.opts@, before.core.cached_infos@), strings_view(before.core.set->0.prefixs@), i0.args, i0.index)
        ==> r is Ok || !opts_ok(after.core.set->0.opts@) || !nonopts_ok(after.core.set->0.opts@))
    &&& (before.core.set is Some && before.core.callbacks@.dom().is_empty() && waits_for_options(before.value_mapper@,
        before.core.set->0.opts@) && (r is Ok || (delay_args_safe(reg_opts(before.core.set->0.opts@,
        before.core.cached_infos@), strings_view(before.core.set->0.prefixs@), i0.args, i0.index) && opts_ok(
        after.core.set->0.opts@))) ==> pos_taken(after.core.set->0.opts@, before.core.cached_infos@, reg_opts(
        before.core.set->0.opts@, before.core.cached_infos@), strings_view(after.core.noa@)) && cmd_taken(
        after.core.set->0.opts@, before.core.cached_infos@, reg_opts(before.core.set->0.opts@, before.core.cached_infos@),
        strings_view(after.core.noa@)))
    &&& (before.core.set is Some && before.core.callbacks@.dom().is_empty() && r is Ok ==> main_taken(
        after.core.set->0.opts@, before.core.cached_infos@, reg_opts(before.core.set->0.opts@, before.core.cached_infos@), 0))
}

impl super::Parser for DelayParser {
    open spec fn spec_parsed(self, after: Self, i0: ArgIteratorView, i1: ArgIteratorView, r: Result<Option<bool>>) -> bool {
        delay_parsed(self, after, i0, i1, r)
    }

    open spec fn spec_has_set(&self) -> bool {
        self.core.set is Some
    }

    open spec fn spec_ready(&self, n: nat) -> bool {
        &&& self.core.set is Some ==> infos_valid(self.core.cached_infos@, self.core.set->0.opts@.len())
            && all_fit(self.core.set->0.opts@) && mapper_valid(self.value_mapper@, self.core.set->0.opts@.len())
        &&& self.core.msg_id_gen.spec_next() + 6 * n + self.core.noa@.len() + 4 <= u64::MAX
    }

    fn parse_args(&mut self, iter: &mut ArgIterator) -> (r: Result<Option<bool>>) {
        self.parse(iter)
    }
}

} // verus!
