use vstd::prelude::*;

use crate::error::{Error, Result};
use crate::id::IdGenerator;
use crate::arg::{ArgIterator, ArgIteratorView, Argument, IndexIterator, opt_str_view, spec_parse_argument, strings_view};
use crate::opt::common::{CommonOpt, OptKind, is_opt_kind};
use crate::proc::{Ctx, SequenceProc, SingleCtxProc, Proc};
use crate::set::DefaultSet;
use super::gen::{CtxShape, GenStyle, gen_shapes, has_shape, shape, shape_matches};
use super::model::{agree_opts, cascade_values, lemma_expected_step, lemma_parse_agree, lemma_parse_len, parse_values, style_values, values_of};
use super::check::{
    group_valid, in_group, nonopts_ok, opt_ok, opts_ok, parse_default_pre_check,
    parser_default_nonopt_check, parser_default_opt_check,
};
use super::forward::{
    ForwardParser, all_fit, covered, ctx_covered, infos_valid, keeps_frame, reg_opts, same_statics, touched_by,
    untouched, never_fails_in, first_nonopt, nonopt_set,
};
use crate::opt::{OptValueView, OptionInfo};

verus! {

/// Some option of `ropts` answers to the shape.
pub open spec fn shape_covered(sh: CtxShape, ropts: Seq<CommonOpt>) -> bool {
    exists|k: int| 0 <= k < ropts.len() && shape_matches(sh, #[trigger] ropts[k])
}

/// Some option of `ropts` answers to every shape.
pub open spec fn shapes_covered(shapes: Seq<CtxShape>, ropts: Seq<CommonOpt>) -> bool {
    forall|j: int| 0 <= j < shapes.len() ==> shape_covered(#[trigger] shapes[j], ropts)
}

/// The style makes contexts from the argument, and options answer to all of them.
pub open spec fn style_matched(gs: GenStyle, ropts: Seq<CommonOpt>, p: Seq<char>, n: Seq<char>, v: Option<Seq<char>>, next: Option<Seq<char>>) -> bool {
    let sh = gen_shapes(gs, Some(p), Some(n), v, next);
    sh.len() > 0 && shapes_covered(sh, ropts)
}

/// What becomes of the argument `a`: `None` when no option takes it, or whether
/// the option that takes it also takes the next argument. The styles are tried in
/// the order `-o=v`, `-o v`, `-o`, `-abc`, `-ov`.
pub open spec fn arg_step(ropts: Seq<CommonOpt>, prefixs: Seq<Seq<char>>, a: Seq<char>, next: Option<Seq<char>>) -> Option<bool> {
    match spec_parse_argument(a, prefixs) {
        None => None,
        Some((p, n, v)) => if style_matched(GenStyle::GS_Equal_With_Value, ropts, p, n, v, next) {
            Some(false)
        } else if style_matched(GenStyle::GS_Argument, ropts, p, n, v, next) {
            Some(true)
        } else if style_matched(GenStyle::GS_Boolean, ropts, p, n, v, next) {
            Some(false)
        } else if style_matched(GenStyle::GS_Mutliple_Option, ropts, p, n, v, next) {
            Some(false)
        } else if style_matched(GenStyle::GS_Embedded_Value, ropts, p, n, v, next) {
            Some(false)
        } else {
            None
        },
    }
}

/// The argument after the one at `i`.
pub open spec fn next_of(args: Seq<Seq<char>>, i: int) -> Option<Seq<char>> {
    if 0 <= i + 1 < args.len() {
        Some(args[i + 1])
    } else {
        None
    }
}

/// The non-option arguments among the arguments from position `i` on: those that
/// no option takes, and that are not the argument of an option before them.
pub open spec fn spec_noa(ropts: Seq<CommonOpt>, prefixs: Seq<Seq<char>>, args: Seq<Seq<char>>, i: int) -> Seq<Seq<char>>
    decreases args.len() - i + 1,
{
    if i < 0 || i >= args.len() {
        Seq::empty()
    } else {
        match arg_step(ropts, prefixs, args[i], next_of(args, i)) {
            Some(skip) => if skip {
                spec_noa(ropts, prefixs, args, i + 2)
            } else {
                spec_noa(ropts, prefixs, args, i + 1)
            },
            None => seq![args[i]] + spec_noa(ropts, prefixs, args, i + 1),
        }
    }
}

pub open spec fn remaining(len: int, i: int) -> int {
    if i < len {
        len - i
    } else {
        0
    }
}

/// The option can process a context of the shape: it gets the argument it needs,
/// and the argument parses (a delay context leaves the parsing for later).
pub open spec fn shape_ok(sh: CtxShape, o: CommonOpt) -> bool {
    &&& !(crate::opt::common::kind_accepts_style(o.kind, crate::opt::Style::Argument) && sh.arg is None)
    &&& (sh.delay || o.spec_parse_value(super::gen::or_empty(sh.arg)) is Some)
}

/// `x` is the first of the options `ropts` that answers to the shape.
pub open spec fn first_shape_match(sh: CtxShape, ropts: Seq<CommonOpt>, x: int) -> bool {
    &&& 0 <= x < ropts.len()
    &&& shape_matches(sh, ropts[x])
    &&& forall|y: int| 0 <= y < x ==> !shape_matches(sh, #[trigger] ropts[y])
}

/// The first option that answers to the shape may fail to process it.
pub open spec fn shape_may_fail(sh: CtxShape, ropts: Seq<CommonOpt>) -> bool {
    exists|x: int| first_shape_match(sh, ropts, x) && (!shape_ok(sh, #[trigger] ropts[x]) || ropts[x].kind == OptKind::Path)
}

/// The first option that answers to the shape may process it.
pub open spec fn shape_may_succeed(sh: CtxShape, ropts: Seq<CommonOpt>) -> bool {
    exists|x: int| first_shape_match(sh, ropts, x) && shape_ok(sh, #[trigger] ropts[x])
}

/// No option that answers to a context of the shapes can fail to process it.
pub open spec fn shapes_safe(shs: Seq<CtxShape>) -> bool {
    forall|j: int, o: CommonOpt| #![trigger shape_matches(shs[j], o)] 0 <= j < shs.len() && shape_matches(shs[j], o)
        ==> shape_ok(shs[j], o) && o.kind != OptKind::Path
}

/// No option of `ropts` that answers to a context of the shapes can fail to process it.
pub open spec fn shapes_safe_in(shs: Seq<CtxShape>, ropts: Seq<CommonOpt>) -> bool {
    forall|j: int, x: int| 0 <= j < shs.len() && 0 <= x < ropts.len() && #[trigger] shape_matches(shs[j], ropts[x])
        ==> shape_ok(shs[j], ropts[x]) && ropts[x].kind != OptKind::Path
}

/// No option of `ropts` can fail on the argument `a`, in any of the styles that
/// the parse tries on it.
pub open spec fn arg_styles_safe(ropts: Seq<CommonOpt>, prefixs: Seq<Seq<char>>, a: Seq<char>, next: Option<Seq<char>>) -> bool {
    match spec_parse_argument(a, prefixs) {
        None => true,
        Some((p, n, v)) => {
            &&& shapes_safe_in(gen_shapes(GenStyle::GS_Equal_With_Value, Some(p), Some(n), v, next), ropts)
            &&& shapes_safe_in(gen_shapes(GenStyle::GS_Argument, Some(p), Some(n), v, next), ropts)
            &&& shapes_safe_in(gen_shapes(GenStyle::GS_Boolean, Some(p), Some(n), v, next), ropts)
            &&& shapes_safe_in(gen_shapes(GenStyle::GS_Mutliple_Option, Some(p), Some(n), v, next), ropts)
            &&& shapes_safe_in(gen_shapes(GenStyle::GS_Embedded_Value, Some(p), Some(n), v, next), ropts)
        },
    }
}

/// No option of `ropts` can fail on any of the arguments from position `i` on.
pub open spec fn args_safe(ropts: Seq<CommonOpt>, prefixs: Seq<Seq<char>>, args: Seq<Seq<char>>, i: int) -> bool {
    forall|j: int| i <= j < args.len() ==> #[trigger] arg_styles_safe(ropts, prefixs, args[j], next_of(args, j))
}

/// Safety of shapes asks only for the static parts of the options.
pub proof fn lemma_safe_in_static(sh: Seq<CtxShape>, a: Seq<CommonOpt>, b: Seq<CommonOpt>, infos: Seq<crate::opt::OptionInfo>)
    requires
        same_statics(a, b),
        infos_valid(infos, a.len()),
        shapes_safe_in(sh, reg_opts(b, infos)),
    ensures
        shapes_safe_in(sh, reg_opts(a, infos)),
{
    let ra = reg_opts(a, infos);
    let rb = reg_opts(b, infos);
    assert forall|j: int, k: int| 0 <= j < sh.len() && 0 <= k < ra.len() && #[trigger] shape_matches(sh[j], ra[k])
        implies shape_ok(sh[j], ra[k]) && ra[k].kind != OptKind::Path by {
        assert(ra[k] == a[infos[k].id.0 as int]);
        assert(rb[k] == b[infos[k].id.0 as int]);
        assert(same_static(ra[k], rb[k]));
        assert(shape_matches(sh[j], rb[k]));
    }
}

/// Where no option can fail on the arguments, none can fail on the argument at
/// `i` in the style `gs`, whatever values the options hold by then.
pub proof fn lemma_style_safe_now(gs: GenStyle, ropts0: Seq<CommonOpt>, before: Seq<CommonOpt>, opts0: Seq<CommonOpt>, infos: Seq<crate::opt::OptionInfo>, prefixs: Seq<Seq<char>>, args: Seq<Seq<char>>, start: int, i: int, p: Seq<char>, n: Seq<char>, v: Option<Seq<char>>)
    requires
        ropts0 == reg_opts(opts0, infos),
        same_statics(before, opts0),
        infos_valid(infos, opts0.len()),
        start <= i < args.len(),
        spec_parse_argument(args[i], prefixs) == Some((p, n, v)),
        gs == GenStyle::GS_Equal_With_Value || gs == GenStyle::GS_Argument || gs == GenStyle::GS_Boolean
            || gs == GenStyle::GS_Mutliple_Option || gs == GenStyle::GS_Embedded_Value,
        args_safe(ropts0, prefixs, args, start),
    ensures
        shapes_safe_in(gen_shapes(gs, Some(p), Some(n), v, next_of(args, i)), reg_opts(before, infos)),
{
    assert(arg_styles_safe(ropts0, prefixs, args[i], next_of(args, i)));
    lemma_safe_in_static(gen_shapes(gs, Some(p), Some(n), v, next_of(args, i)), before, opts0, infos);
}

/// The shape of the `-o value` context made from the argument `a`.
pub open spec fn argument_shape(prefixs: Seq<Seq<char>>, a: Seq<char>, next: Option<Seq<char>>) -> CtxShape {
    let (p, n, v) = spec_parse_argument(a, prefixs)->0;
    gen_shapes(GenStyle::GS_Argument, Some(p), Some(n), v, next)[0]
}

/// No option that answers first to the single context a style makes from the
/// argument `-p n[=v]` can fail to process it.
pub open spec fn style_safe(gs: GenStyle, ropts: Seq<CommonOpt>, p: Seq<char>, n: Seq<char>, v: Option<Seq<char>>, next: Option<Seq<char>>) -> bool {
    let sh = gen_shapes(gs, Some(p), Some(n), v, next);
    sh.len() == 1 ==> !shape_may_fail(sh[0], ropts)
}

/// No option can fail on the argument `a` in any of the styles of a single context.
pub open spec fn arg_safe(ropts: Seq<CommonOpt>, prefixs: Seq<Seq<char>>, a: Seq<char>, next: Option<Seq<char>>) -> bool {
    match spec_parse_argument(a, prefixs) {
        None => true,
        Some((p, n, v)) => {
            &&& style_safe(GenStyle::GS_Equal_With_Value, ropts, p, n, v, next)
            &&& style_safe(GenStyle::GS_Argument, ropts, p, n, v, next)
            &&& style_safe(GenStyle::GS_Boolean, ropts, p, n, v, next)
            &&& style_safe(GenStyle::GS_Embedded_Value, ropts, p, n, v, next)
        },
    }
}

/// No option can fail on any of the arguments from position `i` on.
pub open spec fn fails_nowhere(ropts: Seq<CommonOpt>, prefixs: Seq<Seq<char>>, args: Seq<Seq<char>>, i: int) -> bool {
    forall|j: int| i <= j < args.len() ==> arg_safe(ropts, prefixs, #[trigger] args[j], next_of(args, j))
}

/// Where no option can fail on the arguments, none fails on the argument at `i`
/// in the style `gs`, whatever values the options hold by then.
pub proof fn lemma_safe_here(gs: GenStyle, ropts0: Seq<CommonOpt>, before: Seq<CommonOpt>, opts0: Seq<CommonOpt>, infos: Seq<crate::opt::OptionInfo>, prefixs: Seq<Seq<char>>, args: Seq<Seq<char>>, start: int, i: int, p: Seq<char>, n: Seq<char>, v: Option<Seq<char>>, tolerant: bool)
    requires
        ropts0 == reg_opts(opts0, infos),
        same_statics(before, opts0),
        infos_valid(infos, opts0.len()),
        start <= i < args.len(),
        spec_parse_argument(args[i], prefixs) == Some((p, n, v)),
        gs == GenStyle::GS_Equal_With_Value || gs == GenStyle::GS_Argument || gs == GenStyle::GS_Boolean
            || gs == GenStyle::GS_Mutliple_Option || gs == GenStyle::GS_Embedded_Value,
    ensures
        (!tolerant || fails_nowhere(ropts0, prefixs, args, start)) && gen_shapes(gs, Some(p), Some(n), v, next_of(args, i)).len() == 1
            ==> !shape_may_fail(gen_shapes(gs, Some(p), Some(n), v, next_of(args, i))[0], reg_opts(before, infos)) || !tolerant,
{
    let sh = gen_shapes(gs, Some(p), Some(n), v, next_of(args, i));
    if tolerant && fails_nowhere(ropts0, prefixs, args, start) && sh.len() == 1 {
        assert(arg_safe(ropts0, prefixs, args[i], next_of(args, i)));
        if gs == GenStyle::GS_Mutliple_Option {
            assert(n.len() > 1 ==> sh.len() == n.len());
        }
        lemma_shape_static(sh[0], before, opts0, infos);
    }
}

/// `out` is what may become of the non-option arguments from position `i` on, when
/// an option that fails to process its argument leaves it in place: an option
/// that takes the next argument as its value consumes it only when it processes
/// it.
pub open spec fn pre_noa(ropts: Seq<CommonOpt>, prefixs: Seq<Seq<char>>, args: Seq<Seq<char>>, i: int, out: Seq<Seq<char>>) -> bool
    decreases args.len() - i + 1,
{
    if i < 0 || i >= args.len() {
        out.len() == 0
    } else {
        match arg_step(ropts, prefixs, args[i], next_of(args, i)) {
            Some(skip) => if skip {
                let sh = argument_shape(prefixs, args[i], next_of(args, i));
                ||| shape_may_succeed(sh, ropts) && pre_noa(ropts, prefixs, args, i + 2, out)
                ||| shape_may_fail(sh, ropts) && pre_noa(ropts, prefixs, args, i + 1, out)
            } else {
                pre_noa(ropts, prefixs, args, i + 1, out)
            },
            None => out.len() > 0 && out[0] == args[i] && pre_noa(ropts, prefixs, args, i + 1, out.drop_first()),
        }
    }
}

/// Where every option that takes the next argument as its value can process it,
/// the non-option arguments that a tolerant parse may leave include those that a
/// forward parse leaves.
pub proof fn law_tolerant_agrees(ropts: Seq<CommonOpt>, prefixs: Seq<Seq<char>>, args: Seq<Seq<char>>, i: int)
    requires
        forall|j: int| i <= j < args.len() && arg_step(ropts, prefixs, args[j], next_of(args, j)) == Some(true)
            ==> shape_may_succeed(#[trigger] argument_shape(prefixs, args[j], next_of(args, j)), ropts),
    ensures
        pre_noa(ropts, prefixs, args, i, spec_noa(ropts, prefixs, args, i)),
    decreases args.len() - i + 1,
{
    if 0 <= i < args.len() {
        let out = spec_noa(ropts, prefixs, args, i);
        match arg_step(ropts, prefixs, args[i], next_of(args, i)) {
            Some(skip) => {
                if skip {
                    law_tolerant_agrees(ropts, prefixs, args, i + 2);
                    assert(shape_may_succeed(argument_shape(prefixs, args[i], next_of(args, i)), ropts));
                } else {
                    law_tolerant_agrees(ropts, prefixs, args, i + 1);
                }
            },
            None => {
                law_tolerant_agrees(ropts, prefixs, args, i + 1);
                assert(out.drop_first() =~= spec_noa(ropts, prefixs, args, i + 1));
            },
        }
    }
}

/// Some context that the style makes from the argument `-p n[=v]` answers to the
/// option (what answers does not depend on the next argument).
pub open spec fn style_names(gs: GenStyle, p: Seq<char>, n: Seq<char>, v: Option<Seq<char>>, o: CommonOpt) -> bool {
    exists|j: int| 0 <= j < gen_shapes(gs, Some(p), Some(n), v, None).len()
        && shape_matches(#[trigger] gen_shapes(gs, Some(p), Some(n), v, None)[j], o)
}

/// The argument `a`, split by the prefixes, names the option in one of the option
/// styles.
pub open spec fn names_option(prefixs: Seq<Seq<char>>, a: Seq<char>, o: CommonOpt) -> bool {
    match spec_parse_argument(a, prefixs) {
        Some((p, n, v)) => {
            ||| style_names(GenStyle::GS_Equal_With_Value, p, n, v, o)
            ||| style_names(GenStyle::GS_Argument, p, n, v, o)
            ||| style_names(GenStyle::GS_Boolean, p, n, v, o)
            ||| style_names(GenStyle::GS_Mutliple_Option, p, n, v, o)
            ||| style_names(GenStyle::GS_Embedded_Value, p, n, v, o)
        },
        None => false,
    }
}

/// Some argument at a position from `i` up to `k` names the option.
pub open spec fn named_between(prefixs: Seq<Seq<char>>, args: Seq<Seq<char>>, i: int, k: int, o: CommonOpt) -> bool {
    exists|j: int| i <= j < k && j < args.len() && names_option(prefixs, #[trigger] args[j], o)
}

/// What answers to a shape does not depend on the argument the shape carries.
pub proof fn lemma_style_names(gs: GenStyle, p: Seq<char>, n: Seq<char>, v: Option<Seq<char>>, next: Option<Seq<char>>, o: CommonOpt)
    ensures
        style_names(gs, p, n, v, o) == exists|j: int| 0 <= j < gen_shapes(gs, Some(p), Some(n), v, next).len()
            && shape_matches(#[trigger] gen_shapes(gs, Some(p), Some(n), v, next)[j], o),
{
    let a = gen_shapes(gs, Some(p), Some(n), v, None);
    let b = gen_shapes(gs, Some(p), Some(n), v, next);
    assert(a.len() == b.len());
    assert forall|j: int| 0 <= j < a.len() implies #[trigger] shape_matches(a[j], o) == shape_matches(b[j], o) by {
        assert(a[j].prefix == b[j].prefix && a[j].name == b[j].name && a[j].style == b[j].style);
    }
    if style_names(gs, p, n, v, o) {
        let j = choose|j: int| 0 <= j < a.len() && shape_matches(#[trigger] a[j], o);
        assert(shape_matches(b[j], o));
    }
    if exists|j: int| 0 <= j < b.len() && shape_matches(#[trigger] b[j], o) {
        let j = choose|j: int| 0 <= j < b.len() && shape_matches(#[trigger] b[j], o);
        assert(shape_matches(a[j], o));
    }
}

/// An option left alone twice is left alone.
pub proof fn lemma_untouched_trans(a: CommonOpt, b: CommonOpt, c: CommonOpt)
    requires
        untouched(a, b),
        untouched(b, c),
    ensures
        untouched(a, c),
{
}

/// Every option that no argument from position `i` up to `k` names is, in `cur`,
/// as it was in `opts0`.
pub open spec fn frame_kept(cur: Seq<CommonOpt>, opts0: Seq<CommonOpt>, prefixs: Seq<Seq<char>>, args: Seq<Seq<char>>, i: int, k: int) -> bool {
    forall|x: int| 0 <= x < opts0.len() && is_opt_kind((#[trigger] opts0[x]).kind) && !named_between(prefixs, args, i, k, opts0[x])
        ==> untouched(cur[x], opts0[x])
}

/// Looking at more arguments leaves fewer options unnamed.
pub proof fn lemma_frame_more(cur: Seq<CommonOpt>, opts0: Seq<CommonOpt>, prefixs: Seq<Seq<char>>, args: Seq<Seq<char>>, i: int, k: int, k2: int)
    requires
        frame_kept(cur, opts0, prefixs, args, i, k),
        k <= k2,
    ensures
        frame_kept(cur, opts0, prefixs, args, i, k2),
{
    assert forall|x: int| 0 <= x < opts0.len() && is_opt_kind((#[trigger] opts0[x]).kind) && !named_between(prefixs, args, i, k2, opts0[x])
        implies untouched(cur[x], opts0[x]) by {
        if named_between(prefixs, args, i, k, opts0[x]) {
            let j = choose|j: int| i <= j < k && j < args.len() && names_option(prefixs, #[trigger] args[j], opts0[x]);
            assert(i <= j < k2);
        }
    }
}

/// Matching the contexts of a style made from the argument at `k` keeps every
/// option that no argument up to `k` names.
pub proof fn lemma_frame_style(a: Seq<CommonOpt>, b: Seq<CommonOpt>, opts0: Seq<CommonOpt>, prefixs: Seq<Seq<char>>, args: Seq<Seq<char>>, i: int, k: int, gs: GenStyle, p: Seq<char>, n: Seq<char>, v: Option<Seq<char>>)
    requires
        frame_kept(a, opts0, prefixs, args, i, k + 1),
        same_statics(a, opts0),
        a.len() == b.len(),
        0 <= i <= k < args.len(),
        spec_parse_argument(args[k], prefixs) == Some((p, n, v)),
        gs == GenStyle::GS_Equal_With_Value || gs == GenStyle::GS_Argument || gs == GenStyle::GS_Boolean
            || gs == GenStyle::GS_Mutliple_Option || gs == GenStyle::GS_Embedded_Value,
        forall|x: int| 0 <= x < a.len() && !style_names(gs, p, n, v, #[trigger] a[x]) ==> untouched(b[x], a[x]),
    ensures
        frame_kept(b, opts0, prefixs, args, i, k + 1),
{
    assert forall|x: int| 0 <= x < opts0.len() && is_opt_kind((#[trigger] opts0[x]).kind) && !named_between(prefixs, args, i, k + 1, opts0[x])
        implies untouched(b[x], opts0[x]) by {
        assert(!names_option(prefixs, args[k], opts0[x]));
        assert(same_static(a[x], opts0[x]));
        assert(!style_names(gs, p, n, v, opts0[x]));
        if style_names(gs, p, n, v, a[x]) {
            let j = choose|j: int| 0 <= j < gen_shapes(gs, Some(p), Some(n), v, None).len()
                && shape_matches(#[trigger] gen_shapes(gs, Some(p), Some(n), v, None)[j], a[x]);
            assert(shape_matches(gen_shapes(gs, Some(p), Some(n), v, None)[j], opts0[x]));
        }
        lemma_untouched_trans(b[x], a[x], opts0[x]);
    }
}

/// A context processes the option as a context of its shape would.
pub proof fn lemma_shape_ok(c: Ctx, sh: CtxShape, o: CommonOpt)
    requires
        has_shape(c, sh),
    ensures
        c.ok_for(o) == shape_ok(sh, o),
{
    match c {
        Ctx::Opt(x) => {
            assert(opt_str_view(x.next_argument) == sh.arg);
            assert((x.next_argument is None) == (sh.arg is None));
            assert(crate::ctx::argument_of(x.next_argument) == super::gen::or_empty(sh.arg));
        },
        _ => {},
    }
}

/// Options that agree on their static parts fail, or succeed, alike.
pub proof fn lemma_shape_static(sh: CtxShape, a: Seq<CommonOpt>, b: Seq<CommonOpt>, infos: Seq<crate::opt::OptionInfo>)
    requires
        same_statics(a, b),
        infos_valid(infos, a.len()),
    ensures
        shape_may_fail(sh, reg_opts(a, infos)) == shape_may_fail(sh, reg_opts(b, infos)),
        shape_may_succeed(sh, reg_opts(a, infos)) == shape_may_succeed(sh, reg_opts(b, infos)),
{
    let ra = reg_opts(a, infos);
    let rb = reg_opts(b, infos);
    assert forall|k: int| 0 <= k < ra.len() implies shape_matches(sh, #[trigger] ra[k]) == shape_matches(sh, rb[k])
        && shape_ok(sh, ra[k]) == shape_ok(sh, rb[k]) && ra[k].kind == rb[k].kind by {
        assert(ra[k] == a[infos[k].id.0 as int]);
        assert(rb[k] == b[infos[k].id.0 as int]);
        assert(same_static(ra[k], rb[k]));
    }
    assert forall|x: int| first_shape_match(sh, ra, x) == first_shape_match(sh, rb, x) by {
        if 0 <= x < ra.len() {
            assert(shape_matches(sh, ra[x]) == shape_matches(sh, rb[x]));
            if first_shape_match(sh, ra, x) {
                assert forall|y: int| 0 <= y < x implies !shape_matches(sh, #[trigger] rb[y]) by {
                    assert(shape_matches(sh, ra[y]) == shape_matches(sh, rb[y]));
                }
            }
            if first_shape_match(sh, rb, x) {
                assert forall|y: int| 0 <= y < x implies !shape_matches(sh, #[trigger] ra[y]) by {
                    assert(shape_matches(sh, ra[y]) == shape_matches(sh, rb[y]));
                }
            }
        }
    }
    if shape_may_fail(sh, ra) {
        let x = choose|x: int| first_shape_match(sh, ra, x) && (!shape_ok(sh, #[trigger] ra[x]) || ra[x].kind == OptKind::Path);
        assert(first_shape_match(sh, rb, x));
    }
    if shape_may_fail(sh, rb) {
        let x = choose|x: int| first_shape_match(sh, rb, x) && (!shape_ok(sh, #[trigger] rb[x]) || rb[x].kind == OptKind::Path);
        assert(first_shape_match(sh, ra, x));
    }
    if shape_may_succeed(sh, ra) {
        let x = choose|x: int| first_shape_match(sh, ra, x) && shape_ok(sh, #[trigger] ra[x]);
        assert(first_shape_match(sh, rb, x));
    }
    if shape_may_succeed(sh, rb) {
        let x = choose|x: int| first_shape_match(sh, rb, x) && shape_ok(sh, #[trigger] rb[x]);
        assert(first_shape_match(sh, ra, x));
    }
}

/// A context made from a shape answers to an option exactly when the shape does.
pub proof fn lemma_shape(c: Ctx, sh: CtxShape, o: CommonOpt)
    requires
        has_shape(c, sh),
    ensures
        c.matches(o) == shape_matches(sh, o),
        !c.matched(),
        c.skip() == sh.skip,
{
}

/// Whether the first option may fail, or succeed, on a context is a matter of its
/// shape.
pub proof fn lemma_may_shape(c: Ctx, sh: CtxShape, ropts: Seq<CommonOpt>)
    requires
        has_shape(c, sh),
    ensures
        super::forward::may_fail(c, ropts) == shape_may_fail(sh, ropts),
        super::forward::may_succeed(c, ropts) == shape_may_succeed(sh, ropts),
{
    assert forall|k: int| 0 <= k < ropts.len() implies c.matches(#[trigger] ropts[k]) == shape_matches(sh, ropts[k])
        && c.ok_for(ropts[k]) == shape_ok(sh, ropts[k]) by {
        lemma_shape(c, sh, ropts[k]);
        lemma_shape_ok(c, sh, ropts[k]);
    }
    assert forall|x: int| super::forward::first_match(c, ropts, x) == first_shape_match(sh, ropts, x) by {
        if 0 <= x < ropts.len() {
            if super::forward::first_match(c, ropts, x) {
                assert forall|y: int| 0 <= y < x implies !shape_matches(sh, #[trigger] ropts[y]) by {
                    assert(c.matches(ropts[y]) == shape_matches(sh, ropts[y]));
                }
            }
            if first_shape_match(sh, ropts, x) {
                assert forall|y: int| 0 <= y < x implies !c.matches(#[trigger] ropts[y]) by {
                    assert(c.matches(ropts[y]) == shape_matches(sh, ropts[y]));
                }
            }
        }
    }
    if super::forward::may_fail(c, ropts) {
        let x = choose|x: int| super::forward::first_match(c, ropts, x) && (!c.ok_for(#[trigger] ropts[x]) || ropts[x].kind == OptKind::Path);
        assert(first_shape_match(sh, ropts, x));
    }
    if shape_may_fail(sh, ropts) {
        let x = choose|x: int| first_shape_match(sh, ropts, x) && (!shape_ok(sh, #[trigger] ropts[x]) || ropts[x].kind == OptKind::Path);
        assert(super::forward::first_match(c, ropts, x));
    }
    if super::forward::may_succeed(c, ropts) {
        let x = choose|x: int| super::forward::first_match(c, ropts, x) && c.ok_for(#[trigger] ropts[x]);
        assert(first_shape_match(sh, ropts, x));
    }
    if shape_may_succeed(sh, ropts) {
        let x = choose|x: int| first_shape_match(sh, ropts, x) && shape_ok(sh, #[trigger] ropts[x]);
        assert(super::forward::first_match(c, ropts, x));
    }
}

/// Options that agree on their static parts answer to the same shapes.
pub proof fn lemma_shapes_static(sh: Seq<CtxShape>, a: Seq<CommonOpt>, b: Seq<CommonOpt>, infos: Seq<crate::opt::OptionInfo>)
    requires
        same_statics(a, b),
        infos_valid(infos, a.len()),
    ensures
        shapes_covered(sh, reg_opts(a, infos)) == shapes_covered(sh, reg_opts(b, infos)),
{
    let ra = reg_opts(a, infos);
    let rb = reg_opts(b, infos);
    assert forall|j: int, k: int| 0 <= j < sh.len() && 0 <= k < ra.len() implies shape_matches(#[trigger] sh[j], #[trigger] ra[k]) == shape_matches(sh[j], rb[k]) by {
        assert(ra[k] == a[infos[k].id.0 as int]);
        assert(rb[k] == b[infos[k].id.0 as int]);
        assert(same_static(ra[k], rb[k]));
    }
    assert forall|j: int| 0 <= j < sh.len() implies shape_covered(#[trigger] sh[j], ra) == shape_covered(sh[j], rb) by {
        if shape_covered(sh[j], ra) {
            let k = choose|k: int| 0 <= k < ra.len() && shape_matches(sh[j], #[trigger] ra[k]);
            assert(shape_matches(sh[j], rb[k]));
        }
        if shape_covered(sh[j], rb) {
            let k = choose|k: int| 0 <= k < rb.len() && shape_matches(sh[j], #[trigger] rb[k]);
            assert(shape_matches(sh[j], ra[k]));
        }
    }
}

/// Options untouched by the parsing of non-options keep passing their check.
pub proof fn lemma_opts_ok_kept(a: Seq<CommonOpt>, b: Seq<CommonOpt>)
    requires
        same_statics(a, b),
        forall|i: int| 0 <= i < b.len() && is_opt_kind((#[trigger] b[i]).kind) ==> untouched(a[i], b[i]),
        opts_ok(b),
    ensures
        opts_ok(a),
{
    assert forall|i: int| 0 <= i < a.len() && is_opt_kind((#[trigger] a[i]).kind) implies opt_ok(a[i]) by {
        assert(same_static(a[i], b[i]));
        assert(is_opt_kind(b[i].kind));
        assert(untouched(a[i], b[i]));
        assert(opt_ok(b[i]));
    }
}

use crate::opt::common::same_static;

/// A non-option passes its check at least as well once its value may only have
/// become a boolean of a `main` non-option.
proof fn lemma_ok_mono(x: CommonOpt, y: CommonOpt)
    requires
        same_static(x, y),
        x.value@ == y.value@ || (y.kind == OptKind::Main && x.value@ is Bool),
        opt_ok(y),
    ensures
        opt_ok(x),
{
}

/// Groups of non-options keep holding when the values of `main` non-options may
/// only have become booleans.
pub proof fn lemma_nonopts_ok_kept(a: Seq<CommonOpt>, b: Seq<CommonOpt>)
    requires
        same_statics(a, b),
        forall|i: int| 0 <= i < b.len() ==> (#[trigger] a[i]).value@ == b[i].value@ || (b[i].kind == OptKind::Main && a[i].value@ is Bool),
        nonopts_ok(b),
    ensures
        nonopts_ok(a),
{
    assert forall|i: int| 0 <= i < a.len() && !is_opt_kind((#[trigger] a[i]).kind) implies group_valid(a, super::check::nonopt_key(a[i])) by {
        assert(same_static(a[i], b[i]));
        let k = super::check::nonopt_key(b[i]);
        assert(k == super::check::nonopt_key(a[i]));
        assert(!is_opt_kind(b[i].kind));
        assert(group_valid(b, k));
        assert forall|x: int| 0 <= x < a.len() implies in_group(#[trigger] a[x], k) == in_group(b[x], k)
            && a[x].kind == b[x].kind && (opt_ok(b[x]) ==> opt_ok(a[x]))
            && (b[x].kind == OptKind::Pos ==> a[x].spec_has_value() == b[x].spec_has_value()) by {
            assert(same_static(a[x], b[x]));
            if opt_ok(b[x]) {
                lemma_ok_mono(a[x], b[x]);
            }
        }
        if k == 0 || k == 1 {
            let has_cmd = exists|x: int| 0 <= x < b.len() && in_group(#[trigger] b[x], k) && b[x].kind == OptKind::Cmd;
            let other = exists|x: int| 0 <= x < b.len() && in_group(#[trigger] b[x], k) && b[x].kind != OptKind::Cmd;
            if has_cmd {
                let x = choose|x: int| 0 <= x < b.len() && in_group(#[trigger] b[x], k) && b[x].kind == OptKind::Cmd;
                assert(in_group(a[x], k) && a[x].kind == OptKind::Cmd);
            } else {
                assert forall|x: int| 0 <= x < a.len() implies !(in_group(#[trigger] a[x], k) && a[x].kind == OptKind::Cmd) by {
                    assert(in_group(a[x], k) == in_group(b[x], k));
                }
            }
            if other {
                let x = choose|x: int| 0 <= x < b.len() && in_group(#[trigger] b[x], k) && b[x].kind != OptKind::Cmd;
                assert(in_group(a[x], k) && a[x].kind != OptKind::Cmd);
            } else {
                assert forall|x: int| 0 <= x < a.len() implies !(in_group(#[trigger] a[x], k) && a[x].kind != OptKind::Cmd) by {
                    assert(in_group(a[x], k) == in_group(b[x], k));
                }
            }
            if exists|x: int| 0 <= x < b.len() && in_group(#[trigger] b[x], k) && b[x].kind == OptKind::Cmd && opt_ok(b[x]) {
                let x = choose|x: int| 0 <= x < b.len() && in_group(#[trigger] b[x], k) && b[x].kind == OptKind::Cmd && opt_ok(b[x]);
                assert(in_group(a[x], k) && a[x].kind == OptKind::Cmd && opt_ok(a[x]));
            }
            if exists|x: int| 0 <= x < b.len() && in_group(#[trigger] b[x], k) && b[x].kind == OptKind::Pos && opt_ok(b[x]) {
                let x = choose|x: int| 0 <= x < b.len() && in_group(#[trigger] b[x], k) && b[x].kind == OptKind::Pos && opt_ok(b[x]);
                assert(in_group(a[x], k) && a[x].kind == OptKind::Pos && opt_ok(a[x]));
            }
            if exists|x: int| 0 <= x < b.len() && in_group(#[trigger] b[x], k) && b[x].kind == OptKind::Pos && opt_ok(b[x]) && b[x].spec_has_value() {
                let x = choose|x: int| 0 <= x < b.len() && in_group(#[trigger] b[x], k) && b[x].kind == OptKind::Pos && opt_ok(b[x]) && b[x].spec_has_value();
                assert(in_group(a[x], k) && a[x].kind == OptKind::Pos && opt_ok(a[x]) && a[x].spec_has_value());
            }
        } else {
            let x = choose|x: int| 0 <= x < b.len() && in_group(#[trigger] b[x], k) && opt_ok(b[x]);
            assert(in_group(a[x], k) && opt_ok(a[x]));
        }
    }
}

/// `x` is the first registered option (of `ropts`) that answers, as a `pos`
/// non-option, to the `p`-th of the non-option arguments `noa`.
pub open spec fn pos_first(noa: Seq<Seq<char>>, p: int, ropts: Seq<CommonOpt>, x: int) -> bool {
    first_nonopt(noa[p - 1], crate::opt::Style::Pos, noa.len() as u64, p as u64, ropts, x)
}

/// Each `pos` non-option that is the first registered option to answer to one of
/// the non-option arguments `noa`, at its position, holds `true`.
pub open spec fn pos_taken(opts: Seq<CommonOpt>, infos: Seq<OptionInfo>, ropts: Seq<CommonOpt>, noa: Seq<Seq<char>>) -> bool {
    forall|p: int, x: int| 1 <= p <= noa.len() && #[trigger] pos_first(noa, p, ropts, x) ==> nonopt_set(opts, infos, x)
}

/// Where there are non-option arguments `noa`, the first registered option that
/// answers, as a `cmd` non-option, to the first of them at position 1 holds `true`.
pub open spec fn cmd_taken(opts: Seq<CommonOpt>, infos: Seq<OptionInfo>, ropts: Seq<CommonOpt>, noa: Seq<Seq<char>>) -> bool {
    noa.len() > 0 ==> forall|x: int| #[trigger] first_nonopt(noa[0], crate::opt::Style::Cmd, noa.len() as u64, 1, ropts, x)
        ==> nonopt_set(opts, infos, x)
}

/// The first registered option that answers, as a `main` non-option, to the main
/// context (no argument, position `current`) holds `true`.
pub open spec fn main_taken(opts: Seq<CommonOpt>, infos: Seq<OptionInfo>, ropts: Seq<CommonOpt>, current: u64) -> bool {
    forall|x: int| #[trigger] first_nonopt(Seq::empty(), crate::opt::Style::Main, 0, current, ropts, x) ==> nonopt_set(opts,
        infos, x)
}

/// Which option first answers to a non-option argument asks only for the parts of
/// the options that parsing never changes.
pub proof fn lemma_first_nonopt_static(name: Seq<char>, style: crate::opt::Style, total: u64, current: u64, a: Seq<CommonOpt>, b: Seq<CommonOpt>, infos: Seq<OptionInfo>, x: int)
    requires
        same_statics(a, b),
        infos_valid(infos, a.len()),
    ensures
        first_nonopt(name, style, total, current, reg_opts(a, infos), x) == first_nonopt(name, style, total, current,
            reg_opts(b, infos), x),
{
    let ra = reg_opts(a, infos);
    let rb = reg_opts(b, infos);
    assert forall|y: int| 0 <= y < infos.len() implies crate::ctx::nonopt_ctx_matches(name, style, total, current, #[trigger] ra[y])
        == crate::ctx::nonopt_ctx_matches(name, style, total, current, rb[y]) by {
        assert(same_static(a[infos[y].id.0 as int], b[infos[y].id.0 as int]));
    }
    if 0 <= x < infos.len() {
        assert(crate::ctx::nonopt_ctx_matches(name, style, total, current, ra[x]) == crate::ctx::nonopt_ctx_matches(name,
            style, total, current, rb[x]));
        if first_nonopt(name, style, total, current, ra, x) {
            assert forall|y: int| 0 <= y < x implies !crate::ctx::nonopt_ctx_matches(name, style, total, current,
                #[trigger] rb[y]) by {
                assert(!crate::ctx::nonopt_ctx_matches(name, style, total, current, ra[y]));
            }
        }
        if first_nonopt(name, style, total, current, rb, x) {
            assert forall|y: int| 0 <= y < x implies !crate::ctx::nonopt_ctx_matches(name, style, total, current,
                #[trigger] ra[y]) by {
                assert(!crate::ctx::nonopt_ctx_matches(name, style, total, current, rb[y]));
            }
        }
    }
}

impl ForwardParser {
    /// Match the contexts that the style makes from the argument; true when
    /// options answer to all of them. Tolerant matching lets an option that fails
    /// to process its context leave it as it was; the second answer says whether
    /// that happened.
    fn try_style(&mut self, gs: GenStyle, arg: &Argument, next: &Option<String>, tolerant: bool) -> (r: Result<(bool, bool)>)
        requires
            old(self).set is Some,
            infos_valid(old(self).cached_infos@, old(self).set->0.opts@.len()),
            all_fit(old(self).set->0.opts@),
            arg.prefix is Some,
            arg.name is Some,
            old(self).msg_id_gen.spec_next() < u64::MAX,
            gs == GenStyle::GS_Equal_With_Value || gs == GenStyle::GS_Argument || gs == GenStyle::GS_Boolean
                || gs == GenStyle::GS_Mutliple_Option || gs == GenStyle::GS_Embedded_Value,
        ensures
            keeps_frame(*final(self), *old(self)),
            old(self).msg_id_gen.spec_next() <= final(self).msg_id_gen.spec_next() <= old(self).msg_id_gen.spec_next() + 1,
            all_fit(final(self).set->0.opts@),
            r matches Ok((m, f)) ==> m == style_matched(gs, reg_opts(old(self).set->0.opts@, old(self).cached_infos@),
                arg.prefix->0@, arg.name->0@, opt_str_view(arg.value), opt_str_view(*next)),
            r matches Ok((m, f)) ==> final(self).argument_matched == (old(self).argument_matched || (m && gs == GenStyle::GS_Argument && !f)),
            r matches Ok((m, f)) ==> (f ==> tolerant && m && gen_shapes(gs, opt_str_view(arg.prefix), opt_str_view(arg.name), opt_str_view(arg.value), opt_str_view(*next)).len() == 1
                && shape_may_fail(gen_shapes(gs, opt_str_view(arg.prefix), opt_str_view(arg.name), opt_str_view(arg.value), opt_str_view(*next))[0],
                reg_opts(old(self).set->0.opts@, old(self).cached_infos@))),
            r matches Ok((m, f)) ==> (m && !f && gen_shapes(gs, opt_str_view(arg.prefix), opt_str_view(arg.name), opt_str_view(arg.value), opt_str_view(*next)).len() == 1
                ==> shape_may_succeed(gen_shapes(gs, opt_str_view(arg.prefix), opt_str_view(arg.name), opt_str_view(arg.value), opt_str_view(*next))[0],
                reg_opts(old(self).set->0.opts@, old(self).cached_infos@))),
            r is Ok ==> forall|x: int| 0 <= x < old(self).set->0.opts@.len()
                && !style_names(gs, arg.prefix->0@, arg.name->0@, opt_str_view(arg.value), #[trigger] old(self).set->0.opts@[x])
                ==> untouched(final(self).set->0.opts@[x], old(self).set->0.opts@[x]),
            old(self).callbacks@.dom().is_empty() && (tolerant || shapes_safe(gen_shapes(gs, opt_str_view(arg.prefix),
                opt_str_view(arg.name), opt_str_view(arg.value), opt_str_view(*next))) || shapes_safe_in(gen_shapes(gs,
                opt_str_view(arg.prefix), opt_str_view(arg.name), opt_str_view(arg.value), opt_str_view(*next)),
                reg_opts(old(self).set->0.opts@, old(self).cached_infos@))) ==> r is Ok,
            r matches Ok((m, f)) ==> (!f ==> agree_opts(values_of(final(self).set->0.opts@), style_values(gs, arg.prefix->0@,
                arg.name->0@, opt_str_view(arg.value), opt_str_view(*next), old(self).set->0.opts@, old(self).cached_infos@,
                values_of(old(self).set->0.opts@)), old(self).set->0.opts@)),
    {
        let ghost shapes = gen_shapes(gs, opt_str_view(arg.prefix), opt_str_view(arg.name), opt_str_view(arg.value), opt_str_view(*next));
        let ghost ropts = reg_opts(self.set->0.opts@, self.cached_infos@);
        let ctxs = gs.gen_opt(arg, next);
        if ctxs.len() == 0 {
            return Ok((false, false));
        }
        assert forall|j: int| 0 <= j < shapes.len() implies !(#[trigger] shapes[j]).delay by {
            if gs == GenStyle::GS_Mutliple_Option {
                assert(shapes[j] == shape(false, arg.prefix->0@, seq![arg.name->0@[j]], None, crate::opt::Style::Multiple, false));
            }
        }
        let proc = SequenceProc { id: self.msg_id_gen.next_id(), contexts: ctxs, need_argument: false, matched_index: None };
        proof {
            assert forall|j: int| 0 <= j < proc.contexts@.len() implies !(#[trigger] proc.contexts@[j]).matched()
                && proc.contexts@[j].skip() == (gs == GenStyle::GS_Argument) by {
                lemma_shape(proc.contexts@[j], shapes[j], ropts[0]);
            }
            if tolerant && proc.contexts@.len() != 1 {
                assert(gs == GenStyle::GS_Mutliple_Option);
                assert forall|j: int, o: CommonOpt| 0 <= j < proc.contexts@.len() && #[trigger] proc.contexts@[j].matches(o)
                    implies proc.contexts@[j].ok_for(o) && o.kind != OptKind::Path by {
                    lemma_shape(proc.contexts@[j], shapes[j], o);
                    lemma_shape_ok(proc.contexts@[j], shapes[j], o);
                    assert(shapes[j].style == crate::opt::Style::Multiple);
                }
            }
        }
        let ghost cs = proc.contexts@;
        proof {
            if shapes_safe(shapes) {
                assert forall|j: int, o: CommonOpt| 0 <= j < cs.len() && #[trigger] cs[j].matches(o)
                    implies cs[j].ok_for(o) && o.kind != OptKind::Path by {
                    lemma_shape(cs[j], shapes[j], o);
                    lemma_shape_ok(cs[j], shapes[j], o);
                    assert(shape_matches(shapes[j], o));
                }
                assert(super::forward::never_fails(cs));
            }
            if shapes_safe_in(shapes, ropts) {
                assert forall|j: int, x: int| 0 <= j < cs.len() && 0 <= x < ropts.len() && #[trigger] cs[j].matches(ropts[x])
                    implies cs[j].ok_for(ropts[x]) && ropts[x].kind != OptKind::Path by {
                    lemma_shape(cs[j], shapes[j], ropts[x]);
                    lemma_shape_ok(cs[j], shapes[j], ropts[x]);
                    assert(shape_matches(shapes[j], ropts[x]));
                }
                assert(never_fails_in(cs, ropts));
            }
        }
        let ghost opts_before = self.set->0.opts@;
        let (m, f) = self.publish_core(proc, tolerant, Ghost(shapes))?;
        proof {
            assert forall|x: int| 0 <= x < opts_before.len()
                && !style_names(gs, arg.prefix->0@, arg.name->0@, opt_str_view(arg.value), #[trigger] opts_before[x])
                implies untouched(self.set->0.opts@[x], opts_before[x]) by {
                lemma_style_names(gs, arg.prefix->0@, arg.name->0@, opt_str_view(arg.value), opt_str_view(*next), opts_before[x]);
                if touched_by(cs, opts_before[x]) {
                    let j = choose|j: int| 0 <= j < cs.len() && (#[trigger] cs[j]).matches(opts_before[x]);
                    lemma_shape(cs[j], shapes[j], opts_before[x]);
                }
            }
            assert forall|j: int, k: int| 0 <= j < shapes.len() && 0 <= k < ropts.len() implies cs[j].matches(#[trigger] ropts[k]) == shape_matches(#[trigger] shapes[j], ropts[k]) by {
                lemma_shape(cs[j], shapes[j], ropts[k]);
            }
            if m {
                assert forall|j: int| 0 <= j < shapes.len() implies shape_covered(#[trigger] shapes[j], ropts) by {
                    assert(ctx_covered(cs[j], ropts));
                    let k = choose|k: int| 0 <= k < ropts.len() && cs[j].matches(#[trigger] ropts[k]);
                    assert(shape_matches(shapes[j], ropts[k]));
                }
            } else {
                if shapes_covered(shapes, ropts) {
                    assert forall|j: int| 0 <= j < cs.len() implies ctx_covered(#[trigger] cs[j], ropts) by {
                        assert(shape_covered(shapes[j], ropts));
                        let k = choose|k: int| 0 <= k < ropts.len() && shape_matches(shapes[j], #[trigger] ropts[k]);
                        assert(cs[j].matches(ropts[k]));
                    }
                    assert(covered(cs, ropts));
                }
            }
            lemma_shape(cs[0], shapes[0], ropts[0]);
            lemma_may_shape(cs[0], shapes[0], ropts);
        }
        Ok((m, f))
    }

    /// Match a single non-option context of style `style`.
    fn publish_single(&mut self, ctxs: Vec<Ctx>, Ghost(name): Ghost<Seq<char>>, Ghost(style): Ghost<crate::opt::Style>, Ghost(total): Ghost<u64>, Ghost(current): Ghost<u64>, tolerant: bool) -> (r: Result<bool>)
        requires
            old(self).set is Some,
            infos_valid(old(self).cached_infos@, old(self).set->0.opts@.len()),
            all_fit(old(self).set->0.opts@),
            old(self).msg_id_gen.spec_next() < u64::MAX,
            ctxs@.len() == 1,
            super::gen::nonopt_fresh(ctxs@[0], name, style, total, current),
        ensures
            keeps_frame(*final(self), *old(self)),
            final(self).msg_id_gen.spec_next() == old(self).msg_id_gen.spec_next() + 1,
            final(self).argument_matched == old(self).argument_matched,
            all_fit(final(self).set->0.opts@),
            r is Ok ==> forall|i: int| 0 <= i < old(self).set->0.opts@.len() && !crate::opt::common::kind_accepts_style((#[trigger] old(self).set->0.opts@[i]).kind, style)
                ==> untouched(final(self).set->0.opts@[i], old(self).set->0.opts@[i]),
            r is Ok ==> forall|i: int| 0 <= i < old(self).set->0.opts@.len() && !is_opt_kind((#[trigger] old(self).set->0.opts@[i]).kind)
                ==> final(self).set->0.opts@[i].value@ == old(self).set->0.opts@[i].value@ || final(self).set->0.opts@[i].value@ is Bool,
            (tolerant || style == crate::opt::Style::Cmd || style == crate::opt::Style::Pos || style
                == crate::opt::Style::Main) && old(self).callbacks@.dom().is_empty() ==> r is Ok,
            r is Ok && !tolerant && old(self).callbacks@.dom().is_empty() ==> forall|x: int| #[trigger] first_nonopt(name,
                style, total, current, reg_opts(old(self).set->0.opts@, old(self).cached_infos@), x) ==> nonopt_set(
                final(self).set->0.opts@, old(self).cached_infos@, x),
            r is Ok && old(self).callbacks@.dom().is_empty() ==> forall|i: int| 0 <= i < old(self).set->0.opts@.len()
                && !is_opt_kind((#[trigger] old(self).set->0.opts@[i]).kind) ==> final(self).set->0.opts@[i].value@
                == old(self).set->0.opts@[i].value@ || final(self).set->0.opts@[i].value@ == OptValueView::Bool(true),
    {
        let mut ctxs = ctxs;
        let c = ctxs.pop().unwrap();
        let mut proc = SingleCtxProc::new(self.msg_id_gen.next_id());
        proc.app_ctx(c);
        let ghost cs = proc.spec_ctxs();
        assert(cs =~= seq![c]);
        proof {
            if style == crate::opt::Style::Cmd || style == crate::opt::Style::Pos || style == crate::opt::Style::Main {
                assert forall|j: int, o: CommonOpt| 0 <= j < cs.len() && #[trigger] cs[j].matches(o)
                    implies cs[j].ok_for(o) && o.kind != OptKind::Path by {
                    assert(cs[j] == c);
                }
                assert(super::forward::never_fails(cs));
            }
        }
        assert(super::forward::no_delay(cs)) by {
            assert forall|j: int| 0 <= j < cs.len() implies !((#[trigger] cs[j]) is Delay) by {
                assert(cs[j] == c);
            }
        }
        let ghost ropts = reg_opts(self.set->0.opts@, self.cached_infos@);
        let (m, _) = self.publish_core(proc, tolerant, Ghost(Seq::empty()))?;
        proof {
            if !tolerant && old(self).callbacks@.dom().is_empty() {
                assert forall|x: int| #[trigger] first_nonopt(name, style, total, current, ropts, x) implies nonopt_set(
                    self.set->0.opts@, old(self).cached_infos@, x) by {
                    assert(cs[0] == c);
                    assert forall|y: int| 0 <= y < x implies !cs[0].matches(#[trigger] ropts[y]) by {
                        assert(!crate::ctx::nonopt_ctx_matches(name, style, total, current, ropts[y]));
                    }
                    assert(super::forward::first_match(cs[0], ropts, x));
                    assert(super::forward::processed_at(cs, ropts, x));
                }
            }
            assert forall|i: int| 0 <= i < old(self).set->0.opts@.len() && !crate::opt::common::kind_accepts_style((#[trigger] old(self).set->0.opts@[i]).kind, style)
                implies !touched_by(cs, old(self).set->0.opts@[i]) by {
                assert(cs[0] == c);
            }
        }
        Ok(m)
    }

    /// Parse the arguments of `iter` from its position on; a tolerant parse lets an
    /// option that fails to process an argument leave it as it was.
    #[verifier::rlimit(50)]
    pub(crate) fn parse_core(&mut self, iter: &mut ArgIterator, tolerant: bool, main_current: u64) -> (r: Result<Option<bool>>)
        requires
            old(self).set is Some ==> infos_valid(old(self).cached_infos@, old(self).set->0.opts@.len())
                && all_fit(old(self).set->0.opts@),
            old(self).msg_id_gen.spec_next() + 6 * old(iter)@.args.len() + old(self).noa@.len() + 4 <= u64::MAX,
            old(iter)@.args.len() < usize::MAX,
        ensures
            old(self).set is None ==> r == Ok::<Option<bool>, Error>(None) && final(self).set is None
                && final(self).noa@ == old(self).noa@ && final(iter)@ == old(iter)@,
            old(self).set is Some ==> {
                &&& final(self).set is Some
                &&& same_statics(final(self).set->0.opts@, old(self).set->0.opts@)
                &&& final(self).set->0.utils@ == old(self).set->0.utils@
                &&& final(self).set->0.prefixs@ == old(self).set->0.prefixs@
                &&& final(self).cached_infos@ == old(self).cached_infos@
                &&& super::forward::same_callbacks(final(self).callbacks@, old(self).callbacks@)
                &&& final(iter)@.args == old(iter)@.args
            },
            old(self).set is Some && r is Ok ==> {
                &&& r == Ok::<Option<bool>, Error>(Some(true))
                &&& !tolerant || fails_nowhere(reg_opts(old(self).set->0.opts@, old(self).cached_infos@),
                    strings_view(old(self).set->0.prefixs@), old(iter)@.args, old(iter)@.index)
                    ==> strings_view(final(self).noa@) == strings_view(old(self).noa@) + spec_noa(
                    reg_opts(old(self).set->0.opts@, old(self).cached_infos@),
                    strings_view(old(self).set->0.prefixs@),
                    old(iter)@.args,
                    old(iter)@.index,
                )
                &&& old(self).noa@.len() <= final(self).noa@.len()
                &&& strings_view(final(self).noa@).take(old(self).noa@.len() as int) == strings_view(old(self).noa@)
                &&& pre_noa(
                    reg_opts(old(self).set->0.opts@, old(self).cached_infos@),
                    strings_view(old(self).set->0.prefixs@),
                    old(iter)@.args,
                    old(iter)@.index,
                    strings_view(final(self).noa@).skip(old(self).noa@.len() as int),
                )
                &&& opts_ok(final(self).set->0.opts@)
                &&& nonopts_ok(final(self).set->0.opts@)
                &&& final(iter)@.index >= final(iter)@.args.len()
                &&& frame_kept(final(self).set->0.opts@, old(self).set->0.opts@, strings_view(old(self).set->0.prefixs@),
                    old(iter)@.args, old(iter)@.index, old(iter)@.args.len() as int)
                &&& !tolerant || fails_nowhere(reg_opts(old(self).set->0.opts@, old(self).cached_infos@),
                    strings_view(old(self).set->0.prefixs@), old(iter)@.args, old(iter)@.index)
                    ==> agree_opts(values_of(final(self).set->0.opts@), parse_values(old(self).set->0.opts@,
                    old(self).cached_infos@, strings_view(old(self).set->0.prefixs@), old(iter)@.args, old(iter)@.index,
                    values_of(old(self).set->0.opts@)), old(self).set->0.opts@)
            },
            old(self).set is Some && old(self).callbacks@.dom().is_empty() && (tolerant || args_safe(reg_opts(old(self).set->0.opts@,
                old(self).cached_infos@), strings_view(old(self).set->0.prefixs@), old(iter)@.args, old(iter)@.index))
                ==> r is Ok || !opts_ok(final(self).set->0.opts@) || !nonopts_ok(final(self).set->0.opts@),
            old(self).set is Some && !tolerant && old(self).callbacks@.dom().is_empty() && (r is Ok || (args_safe(reg_opts(
                old(self).set->0.opts@, old(self).cached_infos@), strings_view(old(self).set->0.prefixs@), old(iter)@.args,
                old(iter)@.index) && opts_ok(final(self).set->0.opts@))) ==> pos_taken(final(self).set->0.opts@,
                old(self).cached_infos@, reg_opts(old(self).set->0.opts@, old(self).cached_infos@), strings_view(final(self).noa@))
                && cmd_taken(final(self).set->0.opts@, old(self).cached_infos@, reg_opts(old(self).set->0.opts@,
                old(self).cached_infos@), strings_view(final(self).noa@)),
            old(self).set is Some && !tolerant && old(self).callbacks@.dom().is_empty() && r is Ok ==> main_taken(
                final(self).set->0.opts@, old(self).cached_infos@, reg_opts(old(self).set->0.opts@, old(self).cached_infos@),
                main_current),
    {
        if self.set.is_none() {
            return Ok(None);
        }
        let ghost opts0 = self.set->0.opts@;
        let ghost infos0 = self.cached_infos@;
        let ghost prefixs0 = self.set->0.prefixs@;
        let ghost ropts0 = reg_opts(opts0, infos0);
        let ghost pv = strings_view(prefixs0);
        let ghost args = iter@.args;
        let ghost start = iter@.index;
        let ghost noa0 = strings_view(self.noa@);
        let ghost ptarget = parse_values(opts0, infos0, pv, args, start, values_of(opts0));
        proof { lemma_parse_len(opts0, infos0, pv, args, start, values_of(opts0)); }
        match &self.set {
            Some(set) => {
                parse_default_pre_check(set, &self.callbacks)?;
            },
            None => {},
        }
        proof { crate::arg::lemma_iter_view(iter); }
        assert(remaining(args.len() as int, start) <= args.len());
        let ghost mut added: Seq<Seq<char>> = Seq::empty();
        let ghost mut nofail: bool = true;
        proof {
            assert forall|x: Seq<Seq<char>>| pre_noa(ropts0, pv, args, start, x) implies pre_noa(ropts0, pv, args, start, added + x) by {
                assert(added + x =~= x);
            }
        }
        while !iter.reach_end()
            invariant
                old(self).set is Some,
                opts0 == old(self).set->0.opts@,
                infos0 == old(self).cached_infos@,
                prefixs0 == old(self).set->0.prefixs@,
                args == old(iter)@.args,
                iter@.args == args,
                args.len() < usize::MAX,
                self.set is Some,
                self.cached_infos@ == infos0,
                infos_valid(infos0, opts0.len()),
                same_statics(self.set->0.opts@, opts0),
                self.set->0.utils@ == old(self).set->0.utils@,
                self.set->0.prefixs@ == prefixs0,
                super::forward::same_callbacks(self.callbacks@, old(self).callbacks@),
                all_fit(self.set->0.opts@),
                ropts0 == reg_opts(opts0, infos0),
                pv == strings_view(prefixs0),
                nofail ==> strings_view(self.noa@) + spec_noa(ropts0, pv, args, iter@.index) == noa0 + spec_noa(ropts0, pv, args, start),
                strings_view(self.noa@) == noa0 + added,
                forall|x: Seq<Seq<char>>| pre_noa(ropts0, pv, args, iter@.index, x) ==> #[trigger] pre_noa(ropts0, pv, args, start, added + x),
                self.msg_id_gen.spec_next() + 6 * remaining(args.len() as int, iter@.index) + self.noa@.len() + 4 <= u64::MAX,
                frame_kept(self.set->0.opts@, opts0, pv, args, start, iter@.index),
                0 <= start <= iter@.index,
                start == old(iter)@.index,
                ptarget == parse_values(opts0, infos0, pv, args, start, values_of(opts0)),
                ptarget.len() == opts0.len(),
                nofail ==> agree_opts(parse_values(opts0, infos0, pv, args, iter@.index, values_of(self.set->0.opts@)), ptarget, opts0),
                !tolerant || fails_nowhere(ropts0, pv, args, start) ==> nofail,
            decreases remaining(args.len() as int, iter@.index),
        {
            proof { crate::arg::lemma_iter_view(iter); }
            let ghost i = iter@.index;
            let ghost v0 = values_of(self.set->0.opts@);
            let ghost mut expected = v0;
            proof { lemma_frame_more(self.set->0.opts@, opts0, pv, args, start, i, i + 1); }
            let ghost noa_before = self.noa@;
            let ghost ropts_now = reg_opts(self.set->0.opts@, infos0);
            iter.fill_current_and_next();
            self.argument_matched = false;
            let parsed = match &self.set {
                Some(set) => iter.parse(&set.prefixs),
                None => Err(Error::InvalidNextArgument),
            };
            let mut matched = false;
            let mut arg_failed = false;
            let ghost step = arg_step(ropts0, pv, args[i], next_of(args, i));
            match parsed {
                Ok(arg) => {
                    let ghost p = arg.prefix->0@;
                    let ghost n = arg.name->0@;
                    let ghost v = opt_str_view(arg.value);
                    let ghost nx = next_of(args, i);
                    proof {
                        lemma_shapes_static(gen_shapes(GenStyle::GS_Equal_With_Value, Some(p), Some(n), v, nx), self.set->0.opts@, opts0, infos0);
                        lemma_shapes_static(gen_shapes(GenStyle::GS_Argument, Some(p), Some(n), v, nx), self.set->0.opts@, opts0, infos0);
                        lemma_shapes_static(gen_shapes(GenStyle::GS_Boolean, Some(p), Some(n), v, nx), self.set->0.opts@, opts0, infos0);
                        lemma_shapes_static(gen_shapes(GenStyle::GS_Mutliple_Option, Some(p), Some(n), v, nx), self.set->0.opts@, opts0, infos0);
                        lemma_shapes_static(gen_shapes(GenStyle::GS_Embedded_Value, Some(p), Some(n), v, nx), self.set->0.opts@, opts0, infos0);
                    }
                    let ghost before_gs_equal_with_value = self.set->0.opts@;
                    proof { if args_safe(ropts0, pv, args, start) { lemma_style_safe_now(GenStyle::GS_Equal_With_Value, ropts0, before_gs_equal_with_value, opts0, infos0, pv, args, start, i, p, n, v); } }
                    let (m1, f1) = self.try_style(GenStyle::GS_Equal_With_Value, &arg, iter.next(), tolerant)?;
                    proof { lemma_frame_style(before_gs_equal_with_value, self.set->0.opts@, opts0, pv, args, start, i, GenStyle::GS_Equal_With_Value, p, n, v); }
                    proof { lemma_safe_here(GenStyle::GS_Equal_With_Value, ropts0, before_gs_equal_with_value, opts0, infos0, pv, args, start, i, p, n, v, tolerant); }
                    proof { nofail = nofail && !f1; lemma_expected_step(GenStyle::GS_Equal_With_Value, p, n, v, nx, before_gs_equal_with_value, values_of(before_gs_equal_with_value), values_of(self.set->0.opts@), opts0, infos0, expected, nofail); }
                    proof { expected = style_values(GenStyle::GS_Equal_With_Value, p, n, v, nx, opts0, infos0, expected); }
                    matched = m1;
                    if !matched {
                        proof {
                            lemma_shapes_static(gen_shapes(GenStyle::GS_Argument, Some(p), Some(n), v, nx), self.set->0.opts@, opts0, infos0);
                            lemma_shape_static(gen_shapes(GenStyle::GS_Argument, Some(p), Some(n), v, nx)[0], self.set->0.opts@, opts0, infos0);
                        }
                        let ghost before_gs_argument = self.set->0.opts@;
                        proof { if args_safe(ropts0, pv, args, start) { lemma_style_safe_now(GenStyle::GS_Argument, ropts0, before_gs_argument, opts0, infos0, pv, args, start, i, p, n, v); } }
                        let (m2, f2) = self.try_style(GenStyle::GS_Argument, &arg, iter.next(), tolerant)?;
                        proof { lemma_frame_style(before_gs_argument, self.set->0.opts@, opts0, pv, args, start, i, GenStyle::GS_Argument, p, n, v); }
                        proof { lemma_safe_here(GenStyle::GS_Argument, ropts0, before_gs_argument, opts0, infos0, pv, args, start, i, p, n, v, tolerant); }
                    proof { nofail = nofail && !f2; lemma_expected_step(GenStyle::GS_Argument, p, n, v, nx, before_gs_argument, values_of(before_gs_argument), values_of(self.set->0.opts@), opts0, infos0, expected, nofail); }
                        proof { expected = style_values(GenStyle::GS_Argument, p, n, v, nx, opts0, infos0, expected); }
                        matched = m2;
                        arg_failed = f2;
                    }
                    if !matched {
                        proof { lemma_shapes_static(gen_shapes(GenStyle::GS_Boolean, Some(p), Some(n), v, nx), self.set->0.opts@, opts0, infos0); }
                        let ghost before_gs_boolean = self.set->0.opts@;
                        proof { if args_safe(ropts0, pv, args, start) { lemma_style_safe_now(GenStyle::GS_Boolean, ropts0, before_gs_boolean, opts0, infos0, pv, args, start, i, p, n, v); } }
                        let (m3, f3) = self.try_style(GenStyle::GS_Boolean, &arg, iter.next(), tolerant)?;
                        proof { lemma_frame_style(before_gs_boolean, self.set->0.opts@, opts0, pv, args, start, i, GenStyle::GS_Boolean, p, n, v); }
                        proof { lemma_safe_here(GenStyle::GS_Boolean, ropts0, before_gs_boolean, opts0, infos0, pv, args, start, i, p, n, v, tolerant); }
                    proof { nofail = nofail && !f3; lemma_expected_step(GenStyle::GS_Boolean, p, n, v, nx, before_gs_boolean, values_of(before_gs_boolean), values_of(self.set->0.opts@), opts0, infos0, expected, nofail); }
                        proof { expected = style_values(GenStyle::GS_Boolean, p, n, v, nx, opts0, infos0, expected); }
                        matched = m3;
                    }
                    if !matched {
                        proof { lemma_shapes_static(gen_shapes(GenStyle::GS_Mutliple_Option, Some(p), Some(n), v, nx), self.set->0.opts@, opts0, infos0); }
                        let ghost before_gs_mutliple_option = self.set->0.opts@;
                        proof { if args_safe(ropts0, pv, args, start) { lemma_style_safe_now(GenStyle::GS_Mutliple_Option, ropts0, before_gs_mutliple_option, opts0, infos0, pv, args, start, i, p, n, v); } }
                        let (m4, f4) = self.try_style(GenStyle::GS_Mutliple_Option, &arg, iter.next(), tolerant)?;
                        proof { lemma_frame_style(before_gs_mutliple_option, self.set->0.opts@, opts0, pv, args, start, i, GenStyle::GS_Mutliple_Option, p, n, v); }
                        proof { lemma_safe_here(GenStyle::GS_Mutliple_Option, ropts0, before_gs_mutliple_option, opts0, infos0, pv, args, start, i, p, n, v, tolerant); }
                    proof { nofail = nofail && !f4; lemma_expected_step(GenStyle::GS_Mutliple_Option, p, n, v, nx, before_gs_mutliple_option, values_of(before_gs_mutliple_option), values_of(self.set->0.opts@), opts0, infos0, expected, nofail); }
                        proof { expected = style_values(GenStyle::GS_Mutliple_Option, p, n, v, nx, opts0, infos0, expected); }
                        matched = m4;
                    }
                    if !matched {
                        proof { lemma_shapes_static(gen_shapes(GenStyle::GS_Embedded_Value, Some(p), Some(n), v, nx), self.set->0.opts@, opts0, infos0); }
                        let ghost before_gs_embedded_value = self.set->0.opts@;
                        proof { if args_safe(ropts0, pv, args, start) { lemma_style_safe_now(GenStyle::GS_Embedded_Value, ropts0, before_gs_embedded_value, opts0, infos0, pv, args, start, i, p, n, v); } }
                        let (m5, f5) = self.try_style(GenStyle::GS_Embedded_Value, &arg, iter.next(), tolerant)?;
                        proof { lemma_frame_style(before_gs_embedded_value, self.set->0.opts@, opts0, pv, args, start, i, GenStyle::GS_Embedded_Value, p, n, v); }
                        proof { lemma_safe_here(GenStyle::GS_Embedded_Value, ropts0, before_gs_embedded_value, opts0, infos0, pv, args, start, i, p, n, v, tolerant); }
                    proof { nofail = nofail && !f5; lemma_expected_step(GenStyle::GS_Embedded_Value, p, n, v, nx, before_gs_embedded_value, values_of(before_gs_embedded_value), values_of(self.set->0.opts@), opts0, infos0, expected, nofail); }
                        proof { expected = style_values(GenStyle::GS_Embedded_Value, p, n, v, nx, opts0, infos0, expected); }
                        matched = m5;
                    }
                    assert(matched == step is Some);
                    assert(matched ==> self.argument_matched == (step == Some(true) && !arg_failed));
                    assert(arg_failed ==> tolerant);
                    assert(step == Some(true) && arg_failed ==> shape_may_fail(argument_shape(pv, args[i], nx), ropts0));
                    assert(step == Some(true) && !arg_failed ==> shape_may_succeed(argument_shape(pv, args[i], nx), ropts0));
                    assert(expected == cascade_values(p, n, v, nx, opts0, infos0, v0));
                },
                Err(_) => {
                    assert(step is None);
                },
            }
            assert(nofail ==> agree_opts(values_of(self.set->0.opts@), expected, opts0));
            if matched && self.argument_matched {
                iter.skip();
            }
            let ghost added_before = added;
            if !matched {
                match iter.current() {
                    Some(a) => {
                        self.noa.push(a.clone());
                    },
                    None => {},
                }
                assert(strings_view(self.noa@) =~= strings_view(noa_before).push(args[i]));
                assert(seq![args[i]] + spec_noa(ropts0, pv, args, i + 1) =~= spec_noa(ropts0, pv, args, i));
                assert(strings_view(self.noa@) + spec_noa(ropts0, pv, args, i + 1) =~= strings_view(noa_before) + spec_noa(ropts0, pv, args, i));
                proof {
                    added = added.push(args[i]);
                }
            }
            iter.skip();
            proof {
                crate::arg::lemma_iter_view(iter);
                let ni = iter@.index;
                assert forall|x: Seq<Seq<char>>| pre_noa(ropts0, pv, args, ni, x) implies #[trigger] pre_noa(ropts0, pv, args, start, added + x) by {
                    if step is None {
                        let y = seq![args[i]] + x;
                        assert(y.drop_first() =~= x);
                        assert(y[0] == args[i]);
                        assert(pre_noa(ropts0, pv, args, i, y));
                        assert(added_before + y =~= added + x);
                    } else {
                        assert(pre_noa(ropts0, pv, args, i, x));
                    }
                }
                lemma_frame_more(self.set->0.opts@, opts0, pv, args, start, i + 1, ni);
                if nofail {
                    assert(parse_values(opts0, infos0, pv, args, i, v0) == parse_values(opts0, infos0, pv, args, ni, expected));
                    lemma_parse_agree(opts0, infos0, pv, args, ni, values_of(self.set->0.opts@), expected);
                }
            }
        }
        assert(spec_noa(ropts0, pv, args, iter@.index) =~= Seq::<Seq<char>>::empty());
        assert(nofail ==> strings_view(self.noa@) =~= noa0 + spec_noa(ropts0, pv, args, start));
        proof {
            assert(pre_noa(ropts0, pv, args, iter@.index, Seq::empty()));
            assert(added + Seq::<Seq<char>>::empty() =~= added);
            assert(pre_noa(ropts0, pv, args, start, added));
            assert(strings_view(self.noa@).take(old(self).noa@.len() as int) =~= noa0);
            assert(strings_view(self.noa@).skip(old(self).noa@.len() as int) =~= added);
        }
        match &self.set {
            Some(set) => {
                parser_default_opt_check(set)?;
            },
            None => {},
        }
        let ghost opts1 = self.set->0.opts@;
        let ghost noa1 = self.noa@;
        let ghost nv1 = strings_view(noa1);
        let ghost quiet = !tolerant && old(self).callbacks@.dom().is_empty();
        let noa_total = self.noa.len();
        if noa_total > 0 {
            let ghost opts_c = self.set->0.opts@;
            let ctxs = GenStyle::GS_Non_Cmd.gen_nonopt(&self.noa[0], noa_total as u64, 1);
            self.publish_single(ctxs, Ghost(self.noa@[0]@), Ghost(crate::opt::Style::Cmd), Ghost(noa_total as u64), Ghost(1u64), tolerant)?;
            proof {
                if quiet {
                    assert(nv1[0] == self.noa@[0]@);
                    assert forall|x: int| #[trigger] first_nonopt(nv1[0], crate::opt::Style::Cmd, nv1.len() as u64, 1, ropts0, x)
                        implies nonopt_set(self.set->0.opts@, infos0, x) by {
                        lemma_first_nonopt_static(nv1[0], crate::opt::Style::Cmd, noa_total as u64, 1, opts_c, opts0, infos0, x);
                    }
                    assert(cmd_taken(self.set->0.opts@, infos0, ropts0, nv1));
                }
            }
            let mut k: usize = 0;
            while k < noa_total
                invariant
                    old(self).set is Some,
                    opts0 == old(self).set->0.opts@,
                    infos0 == old(self).cached_infos@,
                    prefixs0 == old(self).set->0.prefixs@,
                    args == old(iter)@.args,
                    0 <= k <= noa_total,
                    noa_total == self.noa@.len(),
                    self.noa@ == noa1,
                    iter@.args == args,
                    iter@.index >= args.len(),
                    self.set is Some,
                    self.cached_infos@ == infos0,
                    infos_valid(infos0, opts0.len()),
                    same_statics(self.set->0.opts@, opts0),
                    same_statics(opts1, opts0),
                    self.set->0.utils@ == old(self).set->0.utils@,
                    self.set->0.prefixs@ == prefixs0,
                    super::forward::same_callbacks(self.callbacks@, old(self).callbacks@),
                    all_fit(self.set->0.opts@),
                    self.msg_id_gen.spec_next() + (noa_total - k) + 3 <= u64::MAX,
                    forall|x: int| 0 <= x < opts1.len() && is_opt_kind((#[trigger] opts1[x]).kind) ==> untouched(self.set->0.opts@[x], opts1[x]),
                    nv1 == strings_view(noa1),
                    ropts0 == reg_opts(opts0, infos0),
                    quiet == (!tolerant && old(self).callbacks@.dom().is_empty()),
                    quiet ==> forall|p: int, x: int| 1 <= p <= k && #[trigger] pos_first(nv1, p, ropts0, x) ==> nonopt_set(
                        self.set->0.opts@, infos0, x),
                    quiet ==> cmd_taken(self.set->0.opts@, infos0, ropts0, nv1),
                decreases noa_total - k,
            {
                let ghost opts_k = self.set->0.opts@;
                let ctxs = GenStyle::GS_Non_Pos.gen_nonopt(&self.noa[k], noa_total as u64, (k + 1) as u64);
                self.publish_single(ctxs, Ghost(self.noa@[k as int]@), Ghost(crate::opt::Style::Pos), Ghost(noa_total as u64), Ghost((k + 1) as u64), tolerant)?;
                proof {
                    if quiet {
                        assert(self.callbacks@.dom() == old(self).callbacks@.dom());
                        assert forall|p: int, x: int| 1 <= p <= k + 1 && #[trigger] pos_first(nv1, p, ropts0, x) implies nonopt_set(
                            self.set->0.opts@, infos0, x) by {
                            let ix = infos0[x].id.0 as int;
                            assert(0 <= ix < opts0.len());
                            assert(same_static(opts_k[ix], opts0[ix]));
                            if p <= k {
                                assert(nonopt_set(opts_k, infos0, x));
                                if !is_opt_kind(opts_k[ix].kind) {
                                    assert(self.set->0.opts@[ix].value@ == opts_k[ix].value@ || self.set->0.opts@[ix].value@
                                        == OptValueView::Bool(true));
                                }
                            } else {
                                assert(nv1[k as int] == self.noa@[k as int]@);
                                lemma_first_nonopt_static(nv1[k as int], crate::opt::Style::Pos, noa_total as u64, (k + 1) as u64,
                                    opts_k, opts0, infos0, x);
                                assert(first_nonopt(self.noa@[k as int]@, crate::opt::Style::Pos, noa_total as u64, (k + 1) as u64,
                                    reg_opts(opts_k, infos0), x));
                            }
                        }
                        assert forall|x: int| #[trigger] first_nonopt(nv1[0], crate::opt::Style::Cmd, nv1.len() as u64, 1, ropts0, x)
                            implies nonopt_set(self.set->0.opts@, infos0, x) by {
                            let ix = infos0[x].id.0 as int;
                            assert(0 <= ix < opts0.len());
                            assert(same_static(opts_k[ix], opts0[ix]));
                            assert(nonopt_set(opts_k, infos0, x));
                            if !is_opt_kind(opts_k[ix].kind) {
                                assert(self.set->0.opts@[ix].value@ == opts_k[ix].value@ || self.set->0.opts@[ix].value@
                                    == OptValueView::Bool(true));
                            }
                        }
                    }
                }
                k = k + 1;
            }
        }
        assert(quiet ==> pos_taken(self.set->0.opts@, infos0, ropts0, nv1));
        assert(quiet ==> cmd_taken(self.set->0.opts@, infos0, ropts0, nv1));
        match &self.set {
            Some(set) => {
                parser_default_nonopt_check(set)?;
            },
            None => {},
        }
        let ghost opts2 = self.set->0.opts@;
        let empty = String::new();
        let ctxs = GenStyle::GS_Non_Main.gen_nonopt(&empty, 0, main_current);
        self.publish_single(ctxs, Ghost(empty@), Ghost(crate::opt::Style::Main), Ghost(0u64), Ghost(main_current), tolerant)?;
        proof {
            let opts3 = self.set->0.opts@;
            if quiet {
                assert(self.callbacks@.dom() == old(self).callbacks@.dom());
                assert forall|x: int| #[trigger] first_nonopt(Seq::empty(), crate::opt::Style::Main, 0, main_current, ropts0, x)
                    implies nonopt_set(opts3, infos0, x) by {
                    lemma_first_nonopt_static(Seq::empty(), crate::opt::Style::Main, 0, main_current, opts2, opts0, infos0, x);
                    assert(first_nonopt(empty@, crate::opt::Style::Main, 0, main_current, reg_opts(opts2, infos0), x));
                }
                assert forall|x: int| #[trigger] first_nonopt(nv1[0], crate::opt::Style::Cmd, nv1.len() as u64, 1, ropts0, x)
                    && nv1.len() > 0 implies nonopt_set(opts3, infos0, x) by {
                    let ix = infos0[x].id.0 as int;
                    assert(0 <= ix < opts0.len());
                    assert(same_static(opts2[ix], opts0[ix]));
                    assert(nonopt_set(opts2, infos0, x));
                    if !is_opt_kind(opts2[ix].kind) {
                        assert(opts3[ix].value@ == opts2[ix].value@ || opts3[ix].value@ == OptValueView::Bool(true));
                    }
                }
            }
            if quiet {
                assert(self.callbacks@.dom() == old(self).callbacks@.dom());
                assert forall|p: int, x: int| 1 <= p <= nv1.len() && #[trigger] pos_first(nv1, p, ropts0, x) implies nonopt_set(
                    opts3, infos0, x) by {
                    let ix = infos0[x].id.0 as int;
                    assert(0 <= ix < opts0.len());
                    assert(same_static(opts2[ix], opts0[ix]));
                    assert(nonopt_set(opts2, infos0, x));
                    if !is_opt_kind(opts2[ix].kind) {
                        assert(opts3[ix].value@ == opts2[ix].value@ || opts3[ix].value@ == OptValueView::Bool(true));
                    }
                }
            }
            assert forall|x: int| 0 <= x < opts1.len() && is_opt_kind((#[trigger] opts1[x]).kind) implies untouched(opts3[x], opts1[x]) by {
                assert(same_static(opts2[x], opts1[x]));
                assert(untouched(opts2[x], opts1[x]));
                assert(!crate::opt::common::kind_accepts_style(opts2[x].kind, crate::opt::Style::Main));
            }
            lemma_opts_ok_kept(opts3, opts1);
            assert forall|x: int| 0 <= x < opts0.len() && is_opt_kind((#[trigger] opts0[x]).kind)
                && !named_between(pv, args, start, args.len() as int, opts0[x]) implies untouched(opts3[x], opts0[x]) by {
                assert(same_static(opts1[x], opts0[x]));
                lemma_untouched_trans(opts3[x], opts1[x], opts0[x]);
            }
            assert forall|x: int| 0 <= x < opts2.len() implies (#[trigger] opts3[x]).value@ == opts2[x].value@
                || (opts2[x].kind == OptKind::Main && opts3[x].value@ is Bool) by {
                if crate::opt::common::kind_accepts_style(opts2[x].kind, crate::opt::Style::Main) {
                    assert(opts2[x].kind == OptKind::Main);
                }
            }
            lemma_nonopts_ok_kept(opts3, opts2);
            if nofail {
                assert(parse_values(opts0, infos0, pv, args, iter@.index, values_of(opts1)) == values_of(opts1));
                assert forall|x: int| 0 <= x < opts0.len() && is_opt_kind((#[trigger] opts0[x]).kind) implies values_of(opts3)[x] == ptarget[x] by {
                    assert(same_static(opts1[x], opts0[x]));
                    assert(untouched(opts3[x], opts1[x]));
                }
            }
        }
        Ok(Some(true))
    }

    /// Parse the arguments of `iter` from its position on.
    ///
    /// Each argument is split by the prefixes of the set and matched against the
    /// options in the styles `-o=v`, `-o v`, `-o`, `-abc`, `-ov`, in that order; an
    /// option that takes the next argument consumes it. What no option takes is a
    /// non-option argument. Then the options are checked, the non-option arguments
    /// are matched against the `cmd` and `pos` non-options, the non-options are
    /// checked, and at last the `main` non-option is matched. An option that no
    /// argument names keeps its value; every option ends with the value that
    /// `parse_values` gives it. With no callback registered, and where no option can
    /// fail on the arguments (`args_safe`), it fails only where the options or the
    /// non-options do not pass their checks.
    pub fn parse(&mut self, iter: &mut ArgIterator) -> (r: Result<Option<bool>>)
        requires
            old(self).set is Some ==> infos_valid(old(self).cached_infos@, old(self).set->0.opts@.len())
                && all_fit(old(self).set->0.opts@),
            old(self).msg_id_gen.spec_next() + 6 * old(iter)@.args.len() + old(self).noa@.len() + 4 <= u64::MAX,
            old(iter)@.args.len() < usize::MAX,
        ensures
            old(self).set is None ==> r == Ok::<Option<bool>, Error>(None) && final(self).set is None
                && final(self).noa@ == old(self).noa@ && final(iter)@ == old(iter)@,
            old(self).set is Some ==> {
                &&& final(self).set is Some
                &&& same_statics(final(self).set->0.opts@, old(self).set->0.opts@)
                &&& final(self).set->0.utils@ == old(self).set->0.utils@
                &&& final(self).set->0.prefixs@ == old(self).set->0.prefixs@
                &&& final(self).cached_infos@ == old(self).cached_infos@
                &&& super::forward::same_callbacks(final(self).callbacks@, old(self).callbacks@)
                &&& final(iter)@.args == old(iter)@.args
            },
            old(self).set is Some && r is Ok ==> {
                &&& r == Ok::<Option<bool>, Error>(Some(true))
                &&& strings_view(final(self).noa@) == strings_view(old(self).noa@) + spec_noa(
                    reg_opts(old(self).set->0.opts@, old(self).cached_infos@),
                    strings_view(old(self).set->0.prefixs@),
                    old(iter)@.args,
                    old(iter)@.index,
                )
                &&& opts_ok(final(self).set->0.opts@)
                &&& nonopts_ok(final(self).set->0.opts@)
                &&& final(iter)@.index >= final(iter)@.args.len()
                &&& frame_kept(final(self).set->0.opts@, old(self).set->0.opts@, strings_view(old(self).set->0.prefixs@),
                    old(iter)@.args, old(iter)@.index, old(iter)@.args.len() as int)
                &&& agree_opts(values_of(final(self).set->0.opts@), parse_values(old(self).set->0.opts@,
                    old(self).cached_infos@, strings_view(old(self).set->0.prefixs@), old(iter)@.args, old(iter)@.index,
                    values_of(old(self).set->0.opts@)), old(self).set->0.opts@)
            },
            old(self).set is Some && old(self).callbacks@.dom().is_empty() && args_safe(reg_opts(old(self).set->0.opts@,
                old(self).cached_infos@), strings_view(old(self).set->0.prefixs@), old(iter)@.args, old(iter)@.index)
                ==> r is Ok || !opts_ok(final(self).set->0.opts@) || !nonopts_ok(final(self).set->0.opts@),
            old(self).set is Some && old(self).callbacks@.dom().is_empty() && (r is Ok || (args_safe(reg_opts(
                old(self).set->0.opts@, old(self).cached_infos@), strings_view(old(self).set->0.prefixs@), old(iter)@.args,
                old(iter)@.index) && opts_ok(final(self).set->0.opts@))) ==> pos_taken(final(self).set->0.opts@,
                old(self).cached_infos@, reg_opts(old(self).set->0.opts@, old(self).cached_infos@), strings_view(final(self).noa@))
                && cmd_taken(final(self).set->0.opts@, old(self).cached_infos@, reg_opts(old(self).set->0.opts@,
                old(self).cached_infos@), strings_view(final(self).noa@)),
            old(self).set is Some && old(self).callbacks@.dom().is_empty() && r is Ok ==> main_taken(final(self).set->0.opts@,
                old(self).cached_infos@, reg_opts(old(self).set->0.opts@, old(self).cached_infos@), 1),
    {
        self.parse_core(iter, false, 1)
    }
}


/// What parsing from the iterator `i0` makes of the parser `before`: it ends as
/// `after`, with the iterator at `i1` and the answer `r`, as [`ForwardParser::parse`] states.
pub open spec fn forward_parsed(before: ForwardParser, after: ForwardParser, i0: ArgIteratorView, i1: ArgIteratorView, r: Result<Option<bool>>) -> bool {
    &&& (before.set is None ==> r == Ok::<Option<bool>, Error>(None) && after.set is None
        && after.noa@ == before.noa@ && i1 == i0)
    &&& (before.set is Some ==> {
        &&& after.set is Some
        &&& same_statics(after.set->0.opts@, before.set->0.opts@)
        &&& after.set->0.utils@ == before.set->0.utils@
        &&& after.set->0.prefixs@ == before.set->0.prefixs@
        &&& after.cached_infos@ == before.cached_infos@
        &&& super::forward::same_callbacks(after.callbacks@, before.callbacks@)
        &&& i1.args == i0.args
        })
    &&& (before.set is Some && r is Ok ==> {
        &&& r == Ok::<Option<bool>, Error>(Some(true))
        &&& strings_view(after.noa@) == strings_view(before.noa@) + spec_noa(
            reg_opts(before.set->0.opts@, before.cached_infos@),
            strings_view(before.set->0.prefixs@),
            i0.args,
            i0.index,
        )
        &&& opts_ok(after.set->0.opts@)
        &&& nonopts_ok(after.set->0.opts@)
        &&& i1.index >= i1.args.len()
        &&& frame_kept(after.set->0.opts@, before.set->0.opts@, strings_view(before.set->0.prefixs@),
            i0.args, i0.index, i0.args.len() as int)
        &&& agree_opts(values_of(after.set->0.opts@), parse_values(before.set->0.opts@,
            before.cached_infos@, strings_view(before.set->0.prefixs@), i0.args, i0.index,
            values_of(before.set->0.opts@)), before.set->0.opts@)
        })
    &&& (before.set is Some && before.callbacks@.dom().is_empty() && args_safe(reg_opts(before.set->0.opts@,
        before.cached_infos@), strings_view(before.set->0.prefixs@), i0.args, i0.index)
        ==> r is Ok || !opts_ok(after.set->0.opts@) || !nonopts_ok(after.set->0.opts@))
    &&& (before.set is Some && before.callbacks@.dom().is_empty() && (r is Ok || (args_safe(reg_opts(before.set->0.opts@,
        before.cached_infos@), strings_view(before.set->0.prefixs@), i0.args, i0.index) && opts_ok(after.set->0.opts@)))
        ==> pos_taken(after.set->0.opts@, before.cached_infos@, reg_opts(before.set->0.opts@, before.cached_infos@),
        strings_view(after.noa@)) && cmd_taken(after.set->0.opts@, before.cached_infos@, reg_opts(before.set->0.opts@,
        before.cached_infos@), strings_view(after.noa@)))
    &&& (before.set is Some && before.callbacks@.dom().is_empty() && r is Ok ==> main_taken(after.set->0.opts@,
        before.cached_infos@, reg_opts(before.set->0.opts@, before.cached_infos@), 1))
}

/// With no callback registered, a parse that succeeds gives `true` to the `cmd`
/// non-option that is the first registered option to answer to the first
/// non-option argument, at position 1, and to the first `main` non-option.
pub proof fn law_cmd_and_main_taken(before: ForwardParser, after: ForwardParser, i0: ArgIteratorView, i1: ArgIteratorView, r: Result<Option<bool>>, c: int, m: int)
    requires
        forward_parsed(before, after, i0, i1, r),
        before.set is Some,
        infos_valid(before.cached_infos@, before.set->0.opts@.len()),
        before.callbacks@.dom().is_empty(),
        r is Ok,
    ensures
        after.noa@.len() > 0 && first_nonopt(after.noa@[0]@, crate::opt::Style::Cmd, after.noa@.len() as u64, 1, reg_opts(
            before.set->0.opts@, before.cached_infos@), c) ==> after.set->0.opts@[before.cached_infos@[c].id.0 as int].value@
            == OptValueView::Bool(true),
        first_nonopt(Seq::empty(), crate::opt::Style::Main, 0, 1, reg_opts(before.set->0.opts@, before.cached_infos@), m)
            ==> after.set->0.opts@[before.cached_infos@[m].id.0 as int].value@ == OptValueView::Bool(true),
{
    let nv = strings_view(after.noa@);
    let ropts = reg_opts(before.set->0.opts@, before.cached_infos@);
    if after.noa@.len() > 0 && first_nonopt(after.noa@[0]@, crate::opt::Style::Cmd, after.noa@.len() as u64, 1, ropts, c) {
        assert(nv[0] == after.noa@[0]@);
        assert(first_nonopt(nv[0], crate::opt::Style::Cmd, nv.len() as u64, 1, ropts, c));
        let ix = before.cached_infos@[c].id.0 as int;
        assert(ropts[c] == before.set->0.opts@[ix]);
        assert(same_static(after.set->0.opts@[ix], before.set->0.opts@[ix]));
    }
    if first_nonopt(Seq::empty(), crate::opt::Style::Main, 0, 1, ropts, m) {
        let ix = before.cached_infos@[m].id.0 as int;
        assert(ropts[m] == before.set->0.opts@[ix]);
        assert(same_static(after.set->0.opts@[ix], before.set->0.opts@[ix]));
    }
}

/// With no callback registered, a parse that succeeds gives `true` to each `pos`
/// non-option that is the first registered option to answer to the non-option
/// argument at its position: the `p`-th non-option argument is offered at position
/// `p`.
pub proof fn law_pos_takes_its_position(before: ForwardParser, after: ForwardParser, i0: ArgIteratorView, i1: ArgIteratorView, r: Result<Option<bool>>, p: int, x: int)
    requires
        forward_parsed(before, after, i0, i1, r),
        before.set is Some,
        infos_valid(before.cached_infos@, before.set->0.opts@.len()),
        before.callbacks@.dom().is_empty(),
        r is Ok,
        1 <= p <= after.noa@.len(),
        first_nonopt(after.noa@[p - 1]@, crate::opt::Style::Pos, after.noa@.len() as u64, p as u64, reg_opts(
            before.set->0.opts@, before.cached_infos@), x),
    ensures
        after.set->0.opts@[before.cached_infos@[x].id.0 as int].value@ == OptValueView::Bool(true),
{
    let nv = strings_view(after.noa@);
    let ropts = reg_opts(before.set->0.opts@, before.cached_infos@);
    assert(nv[p - 1] == after.noa@[p - 1]@);
    assert(pos_first(nv, p, ropts, x));
    let ix = before.cached_infos@[x].id.0 as int;
    assert(ropts[x] == before.set->0.opts@[ix]);
    assert(same_static(after.set->0.opts@[ix], before.set->0.opts@[ix]));
}

impl super::Parser for ForwardParser {
    open spec fn spec_parsed(self, after: Self, i0: ArgIteratorView, i1: ArgIteratorView, r: Result<Option<bool>>) -> bool {
        forward_parsed(self, after, i0, i1, r)
    }

    open spec fn spec_has_set(&self) -> bool {
        self.set is Some
    }

    open spec fn spec_ready(&self, n: nat) -> bool {
        &&& self.set is Some ==> infos_valid(self.cached_infos@, self.set->0.opts@.len()) && all_fit(self.set->0.opts@)
        &&& self.msg_id_gen.spec_next() + 6 * n + self.noa@.len() + 4 <= u64::MAX
    }

    fn parse_args(&mut self, iter: &mut ArgIterator) -> (r: Result<Option<bool>>) {
        self.parse(iter)
    }
}

} // verus!
