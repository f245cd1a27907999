use vstd::prelude::*;

use crate::opt::Style;
use crate::opt::common::CommonOpt;
use crate::arg::{Argument, opt_str_view};
use crate::text::substring;
use crate::ctx::{Context, DelayContext, NonOptContext, OptContext, opt_ctx_matches};
use crate::proc::Ctx;

verus! {

/// The ways contexts are generated from an argument.
#[allow(non_camel_case_types)]
#[derive(Debug, Clone, Copy, PartialEq, Eq, Structural)]
pub enum GenStyle {
    /// `-o=value`: the option with the value after `=`.
    GS_Equal_With_Value,
    /// `-o value`: the option with the next argument as value.
    GS_Argument,
    /// `-ovalue`: the one character option `o` with the rest as value.
    GS_Embedded_Value,
    /// `-abc`: the boolean options `a`, `b` and `c`.
    GS_Mutliple_Option,
    /// `-o`: the boolean option `o`.
    GS_Boolean,
    GS_Delay_Equal_With_Value,
    GS_Delay_Argument,
    GS_Delay_Embedded_Value,
    GS_Delay_Mutliple_Option,
    GS_Delay_Boolean,
    /// The `main` non-option.
    GS_Non_Main,
    /// A `pos` non-option.
    GS_Non_Pos,
    /// The `cmd` non-option.
    GS_Non_Cmd,
}

/// What an option context is made of.
pub ghost struct CtxShape {
    pub delay: bool,
    pub prefix: Seq<char>,
    pub name: Seq<char>,
    pub arg: Option<Seq<char>>,
    pub style: Style,
    pub skip: bool,
}

/// The shape of a fresh option context (a non-option context has none).
pub open spec fn has_shape(c: Ctx, sh: CtxShape) -> bool {
    match c {
        Ctx::Opt(o) => !sh.delay && o.id.0 == 0 && o.opt_prefix@ == sh.prefix && o.opt_name@ == sh.name
            && opt_str_view(o.next_argument) == sh.arg && o.style == sh.style && o.skip_next_arg == sh.skip
            && o.matched_index is None,
        Ctx::Delay(o) => sh.delay && o.id.0 == 0 && o.opt_prefix@ == sh.prefix && o.opt_name@ == sh.name
            && opt_str_view(o.next_argument) == sh.arg && o.style == sh.style && o.skip_next_arg == sh.skip
            && o.matched_index is None,
        Ctx::NonOpt(_) => false,
    }
}

/// An option answers to a context of this shape.
pub open spec fn shape_matches(sh: CtxShape, o: CommonOpt) -> bool {
    opt_ctx_matches(sh.prefix, sh.name, sh.style, o)
}

pub open spec fn or_empty(s: Option<Seq<char>>) -> Seq<char> {
    match s {
        Some(x) => x,
        None => Seq::empty(),
    }
}

pub open spec fn shape(delay: bool, prefix: Seq<char>, name: Seq<char>, arg: Option<Seq<char>>, style: Style, skip: bool) -> CtxShape {
    CtxShape { delay, prefix, name, arg, style, skip }
}

/// The style generates delay contexts.
pub open spec fn is_delay(gs: GenStyle) -> bool {
    gs == GenStyle::GS_Delay_Equal_With_Value || gs == GenStyle::GS_Delay_Argument || gs
        == GenStyle::GS_Delay_Embedded_Value || gs == GenStyle::GS_Delay_Mutliple_Option || gs
        == GenStyle::GS_Delay_Boolean
}

/// The shapes of the contexts that `gs` generates from the argument with prefix
/// `p`, name `n` and value `v`, when the next argument is `next`.
pub open spec fn gen_shapes(gs: GenStyle, p: Option<Seq<char>>, n: Option<Seq<char>>, v: Option<Seq<char>>, next: Option<Seq<char>>) -> Seq<CtxShape> {
    let d = is_delay(gs);
    match gs {
        GenStyle::GS_Equal_With_Value | GenStyle::GS_Delay_Equal_With_Value => if v is Some {
            seq![shape(d, or_empty(p), or_empty(n), v, Style::Argument, false)]
        } else {
            Seq::empty()
        },
        GenStyle::GS_Argument | GenStyle::GS_Delay_Argument => if v is None {
            seq![shape(d, or_empty(p), or_empty(n), next, Style::Argument, true)]
        } else {
            Seq::empty()
        },
        GenStyle::GS_Embedded_Value | GenStyle::GS_Delay_Embedded_Value => if v is None && n is Some
            && n->0.len() >= 2 {
            seq![shape(d, or_empty(p), n->0.subrange(0, 1), Some(n->0.subrange(1, n->0.len() as int)), Style::Argument, false)]
        } else {
            Seq::empty()
        },
        GenStyle::GS_Mutliple_Option | GenStyle::GS_Delay_Mutliple_Option => if v is None && n->0.len() > 1 {
            n->0.map(|i: int, c: char| shape(d, p->0, seq![c], None, Style::Multiple, false))
        } else {
            Seq::empty()
        },
        GenStyle::GS_Boolean | GenStyle::GS_Delay_Boolean => if v is None {
            seq![shape(d, p->0, n->0, None, Style::Boolean, false)]
        } else {
            Seq::empty()
        },
        _ => Seq::empty(),
    }
}

/// The style of the non-option contexts that `gs` generates.
pub open spec fn nonopt_style(gs: GenStyle) -> Style {
    if gs == GenStyle::GS_Non_Pos {
        Style::Pos
    } else if gs == GenStyle::GS_Non_Cmd {
        Style::Cmd
    } else {
        Style::Main
    }
}

/// A non-option context that has not matched yet.
pub open spec fn nonopt_fresh(c: Ctx, name: Seq<char>, style: Style, total: u64, current: u64) -> bool {
    match c {
        Ctx::NonOpt(n) => n.id.0 == 0 && n.opt_name@ == name && n.style == style && n.total == total
            && n.current == current && n.matched_index is None,
        _ => false,
    }
}

/// The argument holds what the style needs of it: the boolean and multiple styles
/// need a name, and a prefix where they make a context.
pub open spec fn gen_ok(gs: GenStyle, a: Argument) -> bool {
    match gs {
        GenStyle::GS_Mutliple_Option | GenStyle::GS_Delay_Mutliple_Option => a.value is None ==> (a.name
            is Some && (a.name->0@.len() > 1 ==> a.prefix is Some)),
        GenStyle::GS_Boolean | GenStyle::GS_Delay_Boolean => a.value is None ==> (a.name is Some
            && a.prefix is Some),
        _ => true,
    }
}

fn opt_or_empty(s: &Option<String>) -> (r: String)
    ensures
        r@ == or_empty(opt_str_view(*s)),
{
    match s {
        Some(x) => x.clone(),
        None => String::new(),
    }
}

fn make_ctx(delay: bool, prefix: String, name: String, arg: Option<String>, style: Style, skip: bool) -> (r: Ctx)
    ensures
        has_shape(r, shape(delay, prefix@, name@, opt_str_view(arg), style, skip)),
{
    if delay {
        Ctx::Delay(DelayContext::new(prefix, name, arg, style, skip))
    } else {
        Ctx::Opt(OptContext::new(prefix, name, arg, style, skip))
    }
}

fn clone_opt(s: &Option<String>) -> (r: Option<String>)
    ensures
        r == *s,
{
    match s {
        Some(x) => Some(x.clone()),
        None => None,
    }
}

impl GenStyle {
    /// The contexts the style generates from the argument `arg`, whose next
    /// argument is `next_argument`.
    pub fn gen_opt(&self, arg: &Argument, next_argument: &Option<String>) -> (r: Vec<Ctx>)
        requires
            gen_ok(*self, *arg),
        ensures
            r@.len() == gen_shapes(*self, opt_str_view(arg.prefix), opt_str_view(arg.name), opt_str_view(arg.value), opt_str_view(*next_argument)).len(),
            forall|k: int| 0 <= k < r@.len() ==> has_shape(#[trigger] r@[k], gen_shapes(*self, opt_str_view(arg.prefix), opt_str_view(arg.name), opt_str_view(arg.value), opt_str_view(*next_argument))[k]),
    {
        let ghost shapes = gen_shapes(*self, opt_str_view(arg.prefix), opt_str_view(arg.name), opt_str_view(arg.value), opt_str_view(*next_argument));
        let mut ret: Vec<Ctx> = Vec::new();
        let delay = match self {
            GenStyle::GS_Delay_Equal_With_Value | GenStyle::GS_Delay_Argument | GenStyle::GS_Delay_Embedded_Value
            | GenStyle::GS_Delay_Mutliple_Option | GenStyle::GS_Delay_Boolean => true,
            _ => false,
        };
        match self {
            GenStyle::GS_Equal_With_Value | GenStyle::GS_Delay_Equal_With_Value => {
                if arg.value.is_some() {
                    ret.push(make_ctx(delay, opt_or_empty(&arg.prefix), opt_or_empty(&arg.name), clone_opt(&arg.value), Style::Argument, false));
                }
            },
            GenStyle::GS_Argument | GenStyle::GS_Delay_Argument => {
                if arg.value.is_none() {
                    ret.push(make_ctx(delay, opt_or_empty(&arg.prefix), opt_or_empty(&arg.name), clone_opt(next_argument), Style::Argument, true));
                }
            },
            GenStyle::GS_Embedded_Value | GenStyle::GS_Delay_Embedded_Value => {
                if arg.value.is_none() {
                    if let Some(name) = &arg.name {
                        let len = name.as_str().unicode_len();
                        if len >= 2 {
                            let first = substring(name.as_str(), 0, 1);
                            let rest = substring(name.as_str(), 1, len);
                            ret.push(make_ctx(delay, opt_or_empty(&arg.prefix), first, Some(rest), Style::Argument, false));
                        }
                    }
                }
            },
            GenStyle::GS_Mutliple_Option | GenStyle::GS_Delay_Mutliple_Option => {
                if arg.value.is_none() {
                    let name = arg.name.as_ref().unwrap();
                    let len = name.as_str().unicode_len();
                    if len > 1 {
                        let prefix = arg.prefix.as_ref().unwrap();
                        let mut k: usize = 0;
                        while k < len
                            invariant
                                k <= len,
                                len == name@.len(),
                                shapes == gen_shapes(*self, opt_str_view(arg.prefix), opt_str_view(arg.name), opt_str_view(arg.value), opt_str_view(*next_argument)),
                                shapes == name@.map(|i: int, c: char| shape(delay, prefix@, seq![c], None, Style::Multiple, false)),
                                ret@.len() == k,
                                forall|j: int| 0 <= j < k ==> has_shape(#[trigger] ret@[j], shapes[j]),
                            decreases len - k,
                        {
                            let c = substring(name.as_str(), k, k + 1);
                            assert(c@ =~= seq![name@[k as int]]);
                            ret.push(make_ctx(delay, prefix.clone(), c, None, Style::Multiple, false));
                            k = k + 1;
                        }
                    }
                }
            },
            GenStyle::GS_Boolean | GenStyle::GS_Delay_Boolean => {
                if arg.value.is_none() {
                    let prefix = arg.prefix.as_ref().unwrap().clone();
                    let name = arg.name.as_ref().unwrap().clone();
                    ret.push(make_ctx(delay, prefix, name, None, Style::Boolean, false));
                }
            },
            _ => {},
        }
        ret
    }

    /// The context the style generates for the non-option argument `noa` at
    /// position `current` of `total`.
    pub fn gen_nonopt(&self, noa: &String, total: u64, current: u64) -> (r: Vec<Ctx>)
        ensures
            (*self == GenStyle::GS_Non_Pos || *self == GenStyle::GS_Non_Cmd || *self == GenStyle::GS_Non_Main)
                ==> r@.len() == 1 && nonopt_fresh(r@[0], noa@, nonopt_style(*self), total, current),
            !(*self == GenStyle::GS_Non_Pos || *self == GenStyle::GS_Non_Cmd || *self == GenStyle::GS_Non_Main)
                ==> r@.len() == 0,
    {
        let mut ret: Vec<Ctx> = Vec::new();
        match self {
            GenStyle::GS_Non_Pos => {
                ret.push(Ctx::NonOpt(NonOptContext::new(noa.clone(), Style::Pos, total, current)));
            },
            GenStyle::GS_Non_Cmd => {
                ret.push(Ctx::NonOpt(NonOptContext::new(noa.clone(), Style::Cmd, total, current)));
            },
            GenStyle::GS_Non_Main => {
                ret.push(Ctx::NonOpt(NonOptContext::new(noa.clone(), Style::Main, total, current)));
            },
            _ => {},
        }
        ret
    }
}

} // verus!
