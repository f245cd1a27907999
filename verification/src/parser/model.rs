use vstd::prelude::*;

use crate::opt::{OptValueView, OptionInfo};
use crate::opt::common::{CommonOpt, is_opt_kind, same_static, value_after_set};
use crate::arg::spec_parse_argument;
use crate::proc::{Ctx, all_matched, fold_value, newly};
use super::gen::{CtxShape, GenStyle, gen_shapes, has_shape, or_empty, shape_matches};
use super::forward::{infos_valid, reg_opts, same_statics};
use super::driver::{arg_step, lemma_shape, next_of, style_matched};

verus! {

/// The values of the options, in order.
pub open spec fn values_of(opts: Seq<CommonOpt>) -> Seq<OptValueView> {
    opts.map_values(|o: CommonOpt| o.value@)
}

/// `a` and `b` give every option of `opts` (non-options aside) the same value.
pub open spec fn agree_opts(a: Seq<OptValueView>, b: Seq<OptValueView>, opts: Seq<CommonOpt>) -> bool {
    &&& a.len() == opts.len()
    &&& b.len() == opts.len()
    &&& forall|x: int| 0 <= x < opts.len() && is_opt_kind((#[trigger] opts[x]).kind) ==> a[x] == b[x]
}

/// The value of the option (of static parts `o`) once the contexts of the shapes
/// `shs` that have not matched yet (by `m`) and that answer to it processed it in
/// order, starting from `w`.
pub open spec fn shapes_apply(shs: Seq<CtxShape>, m: Seq<bool>, o: CommonOpt, w: OptValueView) -> OptValueView
    decreases shs.len(),
{
    if shs.len() == 0 {
        w
    } else {
        let w1 = shapes_apply(shs.drop_last(), m.drop_last(), o, w);
        let j = shs.len() - 1;
        if !m[j] && shape_matches(shs[j], o) {
            value_after_set(o.kind, w1, o.spec_parse_value(or_empty(shs[j].arg))->0)
        } else {
            w1
        }
    }
}

/// The contexts that have matched once the option met them.
pub open spec fn next_flags(shs: Seq<CtxShape>, m: Seq<bool>, o: CommonOpt) -> Seq<bool> {
    Seq::new(m.len(), |j: int| m[j] || shape_matches(shs[j], o))
}

/// Every flag is up.
pub open spec fn all_true(m: Seq<bool>) -> bool {
    forall|j: int| 0 <= j < m.len() ==> m[j]
}

/// `n` flags, none of them up.
pub open spec fn no_flags(n: nat) -> Seq<bool> {
    Seq::new(n, |j: int| false)
}

/// The values after the contexts of the shapes `shs` (matched as `m`) met the
/// registered options from the `k`-th on, in order, until all of them matched.
pub open spec fn publish_values(shs: Seq<CtxShape>, m: Seq<bool>, opts: Seq<CommonOpt>, infos: Seq<OptionInfo>, k: int, vals: Seq<OptValueView>) -> Seq<OptValueView>
    decreases infos.len() - k,
{
    if k < 0 || k >= infos.len() {
        vals
    } else {
        let i = infos[k].id.0 as int;
        let vals2 = vals.update(i, shapes_apply(shs, m, opts[i], vals[i]));
        let m2 = next_flags(shs, m, opts[i]);
        if all_true(m2) {
            vals2
        } else {
            publish_values(shs, m2, opts, infos, k + 1, vals2)
        }
    }
}

/// The values after the contexts that the style makes from the argument `-p n[=v]`
/// (the next argument being `nx`) met the options.
pub open spec fn style_values(gs: GenStyle, p: Seq<char>, n: Seq<char>, v: Option<Seq<char>>, nx: Option<Seq<char>>, opts: Seq<CommonOpt>, infos: Seq<OptionInfo>, vals: Seq<OptValueView>) -> Seq<OptValueView> {
    let shs = gen_shapes(gs, Some(p), Some(n), v, nx);
    if shs.len() == 0 {
        vals
    } else {
        publish_values(shs, no_flags(shs.len()), opts, infos, 0, vals)
    }
}

/// The values after the argument `-p n[=v]` was tried in the styles `-o=v`, `-o v`,
/// `-o`, `-abc`, `-ov`, in that order, up to the first that options answer to.
pub open spec fn cascade_values(p: Seq<char>, n: Seq<char>, v: Option<Seq<char>>, nx: Option<Seq<char>>, opts: Seq<CommonOpt>, infos: Seq<OptionInfo>, vals: Seq<OptValueView>) -> Seq<OptValueView> {
    let ropts = reg_opts(opts, infos);
    let v1 = style_values(GenStyle::GS_Equal_With_Value, p, n, v, nx, opts, infos, vals);
    if style_matched(GenStyle::GS_Equal_With_Value, ropts, p, n, v, nx) {
        v1
    } else {
        let v2 = style_values(GenStyle::GS_Argument, p, n, v, nx, opts, infos, v1);
        if style_matched(GenStyle::GS_Argument, ropts, p, n, v, nx) {
            v2
        } else {
            let v3 = style_values(GenStyle::GS_Boolean, p, n, v, nx, opts, infos, v2);
            if style_matched(GenStyle::GS_Boolean, ropts, p, n, v, nx) {
                v3
            } else {
                let v4 = style_values(GenStyle::GS_Mutliple_Option, p, n, v, nx, opts, infos, v3);
                if style_matched(GenStyle::GS_Mutliple_Option, ropts, p, n, v, nx) {
                    v4
                } else {
                    style_values(GenStyle::GS_Embedded_Value, p, n, v, nx, opts, infos, v4)
                }
            }
        }
    }
}

/// The values of the options after the arguments from position `i` on were
/// matched against them; an option that takes the next argument consumes it.
pub open spec fn parse_values(opts: Seq<CommonOpt>, infos: Seq<OptionInfo>, prefixs: Seq<Seq<char>>, args: Seq<Seq<char>>, i: int, vals: Seq<OptValueView>) -> Seq<OptValueView>
    decreases args.len() - i + 1,
{
    if i < 0 || i >= args.len() {
        vals
    } else {
        match spec_parse_argument(args[i], prefixs) {
            None => parse_values(opts, infos, prefixs, args, i + 1, vals),
            Some((p, n, v)) => {
                let vals2 = cascade_values(p, n, v, next_of(args, i), opts, infos, vals);
                if arg_step(reg_opts(opts, infos), prefixs, args[i], next_of(args, i)) == Some(true) {
                    parse_values(opts, infos, prefixs, args, i + 2, vals2)
                } else {
                    parse_values(opts, infos, prefixs, args, i + 1, vals2)
                }
            },
        }
    }
}

/// Contexts made from shapes, some of them matched, process an option as their
/// shapes say.
pub proof fn lemma_fold_shapes(cs: Seq<Ctx>, c0: Seq<Ctx>, shs: Seq<CtxShape>, m: Seq<bool>, o: CommonOpt, w: OptValueView)
    requires
        cs.len() == c0.len(),
        c0.len() == shs.len(),
        shs.len() == m.len(),
        forall|j: int| 0 <= j < shs.len() ==> has_shape(#[trigger] c0[j], shs[j]),
        forall|j: int| 0 <= j < shs.len() ==> !(#[trigger] shs[j]).delay,
        forall|j: int| 0 <= j < shs.len() ==> #[trigger] cs[j] == (if m[j] { c0[j].after_match() } else { c0[j] }),
    ensures
        fold_value(cs, o, w) == shapes_apply(shs, m, o, w),
    decreases shs.len(),
{
    if shs.len() > 0 {
        let j = shs.len() - 1;
        assert forall|t: int| 0 <= t < j implies has_shape(#[trigger] c0.drop_last()[t], shs.drop_last()[t]) && !shs.drop_last()[t].delay by {
            assert(c0.drop_last()[t] == c0[t]);
        }
        assert forall|t: int| 0 <= t < j implies #[trigger] cs.drop_last()[t] == (if m.drop_last()[t] { c0.drop_last()[t].after_match() } else { c0.drop_last()[t] }) by {
            assert(cs.drop_last()[t] == cs[t]);
        }
        lemma_fold_shapes(cs.drop_last(), c0.drop_last(), shs.drop_last(), m.drop_last(), o, w);
        assert(has_shape(c0[j], shs[j]));
        lemma_shape(c0[j], shs[j], o);
        assert(newly(cs.last(), o) == (!m[j] && shape_matches(shs[j], o)));
        match c0[j] {
            Ctx::Opt(x) => {
                assert(crate::ctx::argument_of(x.next_argument) == or_empty(shs[j].arg));
            },
            _ => {},
        }
    }
}

/// What a proc does to an option depends on the option's static parts and its own
/// value alone: values that agree on the options lead to values that agree.
pub proof fn lemma_publish_agree(shs: Seq<CtxShape>, m: Seq<bool>, opts: Seq<CommonOpt>, infos: Seq<OptionInfo>, k: int, va: Seq<OptValueView>, vb: Seq<OptValueView>)
    requires
        agree_opts(va, vb, opts),
        infos_valid(infos, opts.len()),
        m.len() == shs.len(),
    ensures
        agree_opts(publish_values(shs, m, opts, infos, k, va), publish_values(shs, m, opts, infos, k, vb), opts),
    decreases infos.len() - k,
{
    if 0 <= k < infos.len() {
        let i = infos[k].id.0 as int;
        let a2 = va.update(i, shapes_apply(shs, m, opts[i], va[i]));
        let b2 = vb.update(i, shapes_apply(shs, m, opts[i], vb[i]));
        assert(agree_opts(a2, b2, opts)) by {
            assert forall|x: int| 0 <= x < opts.len() && is_opt_kind((#[trigger] opts[x]).kind) implies a2[x] == b2[x] by {
                if x == i {
                    assert(va[i] == vb[i]);
                }
            }
        }
        let m2 = next_flags(shs, m, opts[i]);
        if !all_true(m2) {
            lemma_publish_agree(shs, m2, opts, infos, k + 1, a2, b2);
        }
    }
}

/// What a proc does depends on the static parts of the options alone.
pub proof fn lemma_publish_static(shs: Seq<CtxShape>, m: Seq<bool>, a: Seq<CommonOpt>, b: Seq<CommonOpt>, infos: Seq<OptionInfo>, k: int, vals: Seq<OptValueView>)
    requires
        same_statics(a, b),
        infos_valid(infos, a.len()),
        m.len() == shs.len(),
    ensures
        publish_values(shs, m, a, infos, k, vals) == publish_values(shs, m, b, infos, k, vals),
    decreases infos.len() - k,
{
    if 0 <= k < infos.len() {
        let i = infos[k].id.0 as int;
        assert(same_static(a[i], b[i]));
        lemma_apply_static(shs, m, a[i], b[i], vals[i]);
        assert(next_flags(shs, m, a[i]) =~= next_flags(shs, m, b[i]));
        lemma_publish_static(shs, next_flags(shs, m, a[i]), a, b, infos, k + 1, vals.update(i, shapes_apply(shs, m, a[i], vals[i])));
    }
}

/// What the contexts do to an option depends on its static parts alone.
pub proof fn lemma_apply_static(shs: Seq<CtxShape>, m: Seq<bool>, a: CommonOpt, b: CommonOpt, w: OptValueView)
    requires
        same_static(a, b),
    ensures
        shapes_apply(shs, m, a, w) == shapes_apply(shs, m, b, w),
    decreases shs.len(),
{
    if shs.len() > 0 {
        lemma_apply_static(shs.drop_last(), m.drop_last(), a, b, w);
    }
}

/// Which shapes some of the first `k` options answer to.
#[verifier::opaque]
pub open spec fn flags_upto(shs: Seq<CtxShape>, ropts: Seq<CommonOpt>, k: int) -> Seq<bool> {
    Seq::new(shs.len(), |j: int| exists|x: int| 0 <= x < k && shape_matches(shs[j], #[trigger] ropts[x]))
}

/// One step of a proc through the registered options: the option the `k`-th
/// information points to takes the value its contexts give it, and the model
/// moves on to the next information.
pub proof fn lemma_publish_step(shs: Seq<CtxShape>, cs: Seq<Ctx>, prev: Seq<Ctx>, opts0: Seq<CommonOpt>, infos: Seq<OptionInfo>, k: int, cur: CommonOpt, vals_b: Seq<OptValueView>, vals_new: Seq<OptValueView>, target: Seq<OptValueView>)
    requires
        0 <= k < infos.len(),
        infos_valid(infos, opts0.len()),
        shs.len() == cs.len(),
        prev.len() == cs.len(),
        forall|j: int| 0 <= j < shs.len() ==> has_shape(#[trigger] cs[j], shs[j]),
        forall|j: int| 0 <= j < shs.len() ==> !(#[trigger] shs[j]).delay,
        forall|j: int| 0 <= j < shs.len() ==> #[trigger] prev[j] == (if flags_upto(shs, reg_opts(opts0, infos), k)[j] { cs[j].after_match() } else { cs[j] }),
        same_static(cur, opts0[infos[k].id.0 as int]),
        vals_b.len() == opts0.len(),
        vals_new.len() == opts0.len(),
        is_opt_kind(cur.kind) ==> vals_new[infos[k].id.0 as int] == fold_value(prev, cur, vals_b[infos[k].id.0 as int]),
        forall|x: int| 0 <= x < opts0.len() && x != infos[k].id.0 && is_opt_kind((#[trigger] opts0[x]).kind) ==> vals_new[x] == vals_b[x],
        agree_opts(publish_values(shs, flags_upto(shs, reg_opts(opts0, infos), k), opts0, infos, k, vals_b), target, opts0),
    ensures
        all_true(flags_upto(shs, reg_opts(opts0, infos), k + 1)) ==> agree_opts(vals_new, target, opts0),
        !all_true(flags_upto(shs, reg_opts(opts0, infos), k + 1)) ==> agree_opts(
            publish_values(shs, flags_upto(shs, reg_opts(opts0, infos), k + 1), opts0, infos, k + 1, vals_new), target, opts0),
{
    reveal(flags_upto);
    let ropts = reg_opts(opts0, infos);
    let m = flags_upto(shs, ropts, k);
    let i = infos[k].id.0 as int;
    assert(ropts[k] == opts0[i]);
    let vals2 = vals_b.update(i, shapes_apply(shs, m, opts0[i], vals_b[i]));
    let m2 = next_flags(shs, m, opts0[i]);
    assert(m2 =~= flags_upto(shs, ropts, k + 1)) by {
        assert forall|j: int| 0 <= j < shs.len() implies m2[j] == flags_upto(shs, ropts, k + 1)[j] by {
            if shape_matches(shs[j], opts0[i]) {
                assert(shape_matches(shs[j], ropts[k]));
            }
            if flags_upto(shs, ropts, k + 1)[j] && !m[j] {
                let x = choose|x: int| 0 <= x < k + 1 && shape_matches(shs[j], #[trigger] ropts[x]);
                assert(x == k);
            }
            if m[j] {
                let x = choose|x: int| 0 <= x < k && shape_matches(shs[j], #[trigger] ropts[x]);
                assert(0 <= x < k + 1 && shape_matches(shs[j], ropts[x]));
            }
        }
    }
    assert forall|j: int| 0 <= j < shs.len() implies #[trigger] prev[j] == (if m[j] { cs[j].after_match() } else { cs[j] }) by {
        assert(prev[j] == (if flags_upto(shs, reg_opts(opts0, infos), k)[j] { cs[j].after_match() } else { cs[j] }));
    }
    assert(m.len() == shs.len());
    lemma_fold_shapes(prev, cs, shs, m, cur, vals_b[i]);
    lemma_apply_static(shs, m, cur, opts0[i], vals_b[i]);
    assert(agree_opts(vals_new, vals2, opts0)) by {
        assert forall|x: int| 0 <= x < opts0.len() && is_opt_kind((#[trigger] opts0[x]).kind) implies vals_new[x] == vals2[x] by {
            if x == i {
                assert(same_static(cur, opts0[i]));
            }
        }
    }
    if all_true(m2) {
        assert(publish_values(shs, m, opts0, infos, k, vals_b) == vals2);
    } else {
        assert(publish_values(shs, m, opts0, infos, k, vals_b) == publish_values(shs, m2, opts0, infos, k + 1, vals2));
        lemma_publish_agree(shs, m2, opts0, infos, k + 1, vals_new, vals2);
    }
}

/// The model keeps the number of values.
pub proof fn lemma_publish_len(shs: Seq<CtxShape>, m: Seq<bool>, opts: Seq<CommonOpt>, infos: Seq<OptionInfo>, k: int, vals: Seq<OptValueView>)
    requires
        infos_valid(infos, opts.len()),
        vals.len() == opts.len(),
    ensures
        publish_values(shs, m, opts, infos, k, vals).len() == opts.len(),
    decreases infos.len() - k,
{
    if 0 <= k < infos.len() {
        let i = infos[k].id.0 as int;
        let vals2 = vals.update(i, shapes_apply(shs, m, opts[i], vals[i]));
        let m2 = next_flags(shs, m, opts[i]);
        if !all_true(m2) {
            lemma_publish_len(shs, m2, opts, infos, k + 1, vals2);
        }
    }
}

/// Contexts made from shapes, each matched once one of the first `k` options
/// answered to it, stand as the flags of the model say; all of them matched when
/// all flags are up.
pub proof fn lemma_flags_ctxs(shs: Seq<CtxShape>, cs: Seq<Ctx>, pc: Seq<Ctx>, ropts: Seq<CommonOpt>, k: int)
    requires
        shs.len() == cs.len(),
        pc.len() == cs.len(),
        forall|j: int| 0 <= j < shs.len() ==> has_shape(#[trigger] cs[j], shs[j]),
        forall|j: int| 0 <= j < cs.len() ==> #[trigger] pc[j] == (if exists|x: int| 0 <= x < k && cs[j].matches(#[trigger] ropts[x]) { cs[j].after_match() } else { cs[j] }),
    ensures
        forall|j: int| 0 <= j < shs.len() ==> #[trigger] pc[j] == (if flags_upto(shs, ropts, k)[j] { cs[j].after_match() } else { cs[j] }),
        all_matched(pc) == all_true(flags_upto(shs, ropts, k)),
{
    reveal(flags_upto);
    let m = flags_upto(shs, ropts, k);
    assert forall|j: int| 0 <= j < shs.len() implies m[j] == (exists|x: int| 0 <= x < k && cs[j].matches(#[trigger] ropts[x])) by {
        assert forall|x: int| 0 <= x < k implies cs[j].matches(#[trigger] ropts[x]) == shape_matches(shs[j], ropts[x]) by {
            crate::parser::driver::lemma_shape(cs[j], shs[j], ropts[x]);
        }
        if m[j] {
            let x = choose|x: int| 0 <= x < k && shape_matches(shs[j], #[trigger] ropts[x]);
            assert(cs[j].matches(ropts[x]));
        }
        if exists|x: int| 0 <= x < k && cs[j].matches(#[trigger] ropts[x]) {
            let x = choose|x: int| 0 <= x < k && cs[j].matches(#[trigger] ropts[x]);
            assert(shape_matches(shs[j], ropts[x]));
        }
    }
    assert forall|j: int| 0 <= j < shs.len() implies #[trigger] pc[j] == (if m[j] { cs[j].after_match() } else { cs[j] }) by {
        assert(pc[j] == (if exists|x: int| 0 <= x < k && cs[j].matches(#[trigger] ropts[x]) { cs[j].after_match() } else { cs[j] }));
    }
    assert forall|j: int| 0 <= j < shs.len() implies (#[trigger] pc[j]).matched() == m[j] by {
        crate::parser::driver::lemma_shape(cs[j], shs[j], ropts[0]);
        crate::proc::lemma_after_match(cs[j], ropts[0]);
    }
    if all_matched(pc) {
        assert forall|j: int| 0 <= j < m.len() implies m[j] by {
            assert(pc[j].matched());
        }
    }
    if all_true(m) {
        assert forall|j: int| 0 <= j < pc.len() implies (#[trigger] pc[j]).matched() by {
            assert(m[j]);
        }
    }
}

/// Agreement goes by the kinds of the options alone.
pub proof fn lemma_agree_static(a: Seq<OptValueView>, b: Seq<OptValueView>, o1: Seq<CommonOpt>, o2: Seq<CommonOpt>)
    requires
        same_statics(o1, o2),
        agree_opts(a, b, o1),
    ensures
        agree_opts(a, b, o2),
{
    assert forall|x: int| 0 <= x < o2.len() && is_opt_kind((#[trigger] o2[x]).kind) implies a[x] == b[x] by {
        assert(same_static(o1[x], o2[x]));
    }
}

/// A style keeps the number of values.
pub proof fn lemma_style_len(gs: GenStyle, p: Seq<char>, n: Seq<char>, v: Option<Seq<char>>, nx: Option<Seq<char>>, opts: Seq<CommonOpt>, infos: Seq<OptionInfo>, vals: Seq<OptValueView>)
    requires
        infos_valid(infos, opts.len()),
        vals.len() == opts.len(),
    ensures
        style_values(gs, p, n, v, nx, opts, infos, vals).len() == opts.len(),
{
    let shs = gen_shapes(gs, Some(p), Some(n), v, nx);
    if shs.len() > 0 {
        lemma_publish_len(shs, no_flags(shs.len()), opts, infos, 0, vals);
    }
}

/// Values that agree on the options lead, through a style, to values that agree.
pub proof fn lemma_style_agree(gs: GenStyle, p: Seq<char>, n: Seq<char>, v: Option<Seq<char>>, nx: Option<Seq<char>>, opts: Seq<CommonOpt>, infos: Seq<OptionInfo>, va: Seq<OptValueView>, vb: Seq<OptValueView>)
    requires
        infos_valid(infos, opts.len()),
        agree_opts(va, vb, opts),
    ensures
        agree_opts(style_values(gs, p, n, v, nx, opts, infos, va), style_values(gs, p, n, v, nx, opts, infos, vb), opts),
{
    let shs = gen_shapes(gs, Some(p), Some(n), v, nx);
    if shs.len() > 0 {
        lemma_publish_agree(shs, no_flags(shs.len()), opts, infos, 0, va, vb);
    }
}

/// What a style does depends on the static parts of the options alone.
pub proof fn lemma_style_static(gs: GenStyle, p: Seq<char>, n: Seq<char>, v: Option<Seq<char>>, nx: Option<Seq<char>>, a: Seq<CommonOpt>, b: Seq<CommonOpt>, infos: Seq<OptionInfo>, vals: Seq<OptValueView>)
    requires
        same_statics(a, b),
        infos_valid(infos, a.len()),
    ensures
        style_values(gs, p, n, v, nx, a, infos, vals) == style_values(gs, p, n, v, nx, b, infos, vals),
{
    let shs = gen_shapes(gs, Some(p), Some(n), v, nx);
    if shs.len() > 0 {
        lemma_publish_static(shs, no_flags(shs.len()), a, b, infos, 0, vals);
    }
}

/// The cascade of styles keeps the number of values.
pub proof fn lemma_cascade_len(p: Seq<char>, n: Seq<char>, v: Option<Seq<char>>, nx: Option<Seq<char>>, opts: Seq<CommonOpt>, infos: Seq<OptionInfo>, vals: Seq<OptValueView>)
    requires
        infos_valid(infos, opts.len()),
        vals.len() == opts.len(),
    ensures
        cascade_values(p, n, v, nx, opts, infos, vals).len() == opts.len(),
{
    let v1 = style_values(GenStyle::GS_Equal_With_Value, p, n, v, nx, opts, infos, vals);
    lemma_style_len(GenStyle::GS_Equal_With_Value, p, n, v, nx, opts, infos, vals);
    let v2 = style_values(GenStyle::GS_Argument, p, n, v, nx, opts, infos, v1);
    lemma_style_len(GenStyle::GS_Argument, p, n, v, nx, opts, infos, v1);
    let v3 = style_values(GenStyle::GS_Boolean, p, n, v, nx, opts, infos, v2);
    lemma_style_len(GenStyle::GS_Boolean, p, n, v, nx, opts, infos, v2);
    let v4 = style_values(GenStyle::GS_Mutliple_Option, p, n, v, nx, opts, infos, v3);
    lemma_style_len(GenStyle::GS_Mutliple_Option, p, n, v, nx, opts, infos, v3);
    lemma_style_len(GenStyle::GS_Embedded_Value, p, n, v, nx, opts, infos, v4);
}

/// Values that agree on the options lead, through the cascade of styles, to
/// values that agree.
pub proof fn lemma_cascade_agree(p: Seq<char>, n: Seq<char>, v: Option<Seq<char>>, nx: Option<Seq<char>>, opts: Seq<CommonOpt>, infos: Seq<OptionInfo>, va: Seq<OptValueView>, vb: Seq<OptValueView>)
    requires
        infos_valid(infos, opts.len()),
        agree_opts(va, vb, opts),
    ensures
        agree_opts(cascade_values(p, n, v, nx, opts, infos, va), cascade_values(p, n, v, nx, opts, infos, vb), opts),
{
    let a1 = style_values(GenStyle::GS_Equal_With_Value, p, n, v, nx, opts, infos, va);
    let b1 = style_values(GenStyle::GS_Equal_With_Value, p, n, v, nx, opts, infos, vb);
    lemma_style_agree(GenStyle::GS_Equal_With_Value, p, n, v, nx, opts, infos, va, vb);
    let a2 = style_values(GenStyle::GS_Argument, p, n, v, nx, opts, infos, a1);
    let b2 = style_values(GenStyle::GS_Argument, p, n, v, nx, opts, infos, b1);
    lemma_style_agree(GenStyle::GS_Argument, p, n, v, nx, opts, infos, a1, b1);
    let a3 = style_values(GenStyle::GS_Boolean, p, n, v, nx, opts, infos, a2);
    let b3 = style_values(GenStyle::GS_Boolean, p, n, v, nx, opts, infos, b2);
    lemma_style_agree(GenStyle::GS_Boolean, p, n, v, nx, opts, infos, a2, b2);
    let a4 = style_values(GenStyle::GS_Mutliple_Option, p, n, v, nx, opts, infos, a3);
    let b4 = style_values(GenStyle::GS_Mutliple_Option, p, n, v, nx, opts, infos, b3);
    lemma_style_agree(GenStyle::GS_Mutliple_Option, p, n, v, nx, opts, infos, a3, b3);
    lemma_style_agree(GenStyle::GS_Embedded_Value, p, n, v, nx, opts, infos, a4, b4);
}

/// Parsing keeps the number of values.
pub proof fn lemma_parse_len(opts: Seq<CommonOpt>, infos: Seq<OptionInfo>, prefixs: Seq<Seq<char>>, args: Seq<Seq<char>>, i: int, vals: Seq<OptValueView>)
    requires
        infos_valid(infos, opts.len()),
        vals.len() == opts.len(),
    ensures
        parse_values(opts, infos, prefixs, args, i, vals).len() == opts.len(),
    decreases args.len() - i + 1,
{
    if 0 <= i < args.len() {
        match spec_parse_argument(args[i], prefixs) {
            None => lemma_parse_len(opts, infos, prefixs, args, i + 1, vals),
            Some((p, n, v)) => {
                let vals2 = cascade_values(p, n, v, next_of(args, i), opts, infos, vals);
                lemma_cascade_len(p, n, v, next_of(args, i), opts, infos, vals);
                lemma_parse_len(opts, infos, prefixs, args, i + 1, vals2);
                lemma_parse_len(opts, infos, prefixs, args, i + 2, vals2);
            },
        }
    }
}

/// Values that agree on the options lead, through the rest of the arguments, to
/// values that agree.
pub proof fn lemma_parse_agree(opts: Seq<CommonOpt>, infos: Seq<OptionInfo>, prefixs: Seq<Seq<char>>, args: Seq<Seq<char>>, i: int, va: Seq<OptValueView>, vb: Seq<OptValueView>)
    requires
        infos_valid(infos, opts.len()),
        agree_opts(va, vb, opts),
    ensures
        agree_opts(parse_values(opts, infos, prefixs, args, i, va), parse_values(opts, infos, prefixs, args, i, vb), opts),
    decreases args.len() - i + 1,
{
    if 0 <= i < args.len() {
        match spec_parse_argument(args[i], prefixs) {
            None => lemma_parse_agree(opts, infos, prefixs, args, i + 1, va, vb),
            Some((p, n, v)) => {
                let a2 = cascade_values(p, n, v, next_of(args, i), opts, infos, va);
                let b2 = cascade_values(p, n, v, next_of(args, i), opts, infos, vb);
                lemma_cascade_agree(p, n, v, next_of(args, i), opts, infos, va, vb);
                lemma_parse_agree(opts, infos, prefixs, args, i + 1, a2, b2);
                lemma_parse_agree(opts, infos, prefixs, args, i + 2, a2, b2);
            },
        }
    }
}

/// After one more style, the values agree with the model's, when they agreed
/// before (all of it where `g` holds).
pub proof fn lemma_expected_step(gs: GenStyle, p: Seq<char>, n: Seq<char>, v: Option<Seq<char>>, nx: Option<Seq<char>>, before: Seq<CommonOpt>, vb: Seq<OptValueView>, va: Seq<OptValueView>, opts0: Seq<CommonOpt>, infos: Seq<OptionInfo>, expected: Seq<OptValueView>, g: bool)
    requires
        same_statics(before, opts0),
        infos_valid(infos, opts0.len()),
        g ==> agree_opts(vb, expected, opts0),
        g ==> agree_opts(va, style_values(gs, p, n, v, nx, before, infos, vb), before),
    ensures
        g ==> agree_opts(va, style_values(gs, p, n, v, nx, opts0, infos, expected), opts0),
{
    if g {
        lemma_style_static(gs, p, n, v, nx, before, opts0, infos, vb);
        lemma_agree_static(va, style_values(gs, p, n, v, nx, opts0, infos, vb), before, opts0);
        lemma_style_agree(gs, p, n, v, nx, opts0, infos, vb, expected);
    }
}

} // verus!
