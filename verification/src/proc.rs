use vstd::prelude::*;

use crate::error::{Error, Result};
use crate::id::Identifier;
use crate::opt::{OptValueView, Style};
use crate::opt::common::{
    CommonOpt, OptKind, is_opt_kind, kind_accepts_style, kind_callback, same_static,
    value_after_set, value_fits,
};
use crate::ctx::{Context, DelayContext, NonOptContext, OptContext, argument_of};

verus! {

/// A context of any kind, as a proc holds it.
#[derive(Debug)]
pub enum Ctx {
    Opt(OptContext),
    NonOpt(NonOptContext),
    Delay(DelayContext),
}

impl Ctx {
    pub open spec fn matched(self) -> bool {
        match self {
            Ctx::Opt(c) => c.matched_index is Some,
            Ctx::NonOpt(c) => c.matched_index is Some,
            Ctx::Delay(c) => c.matched_index is Some,
        }
    }

    pub open spec fn matches(self, o: CommonOpt) -> bool {
        match self {
            Ctx::Opt(c) => c.spec_matches(o),
            Ctx::NonOpt(c) => c.spec_matches(o),
            Ctx::Delay(c) => c.spec_matches(o),
        }
    }

    /// The matched option consumes the next argument.
    pub open spec fn skip(self) -> bool {
        match self {
            Ctx::Opt(c) => c.skip_next_arg,
            Ctx::NonOpt(c) => false,
            Ctx::Delay(c) => c.skip_next_arg,
        }
    }

    /// The position that the context reports once it matched.
    pub open spec fn position(self) -> u64 {
        match self {
            Ctx::NonOpt(c) => c.current,
            _ => 0,
        }
    }

    /// The context once it matched.
    pub open spec fn after_match(self) -> Ctx {
        match self {
            Ctx::Opt(c) => Ctx::Opt(OptContext { matched_index: Some(0), ..c }),
            Ctx::NonOpt(c) => Ctx::NonOpt(NonOptContext { matched_index: Some(c.current), ..c }),
            Ctx::Delay(c) => Ctx::Delay(DelayContext { matched_index: Some(0), ..c }),
        }
    }

    /// The context can process the option without error, whatever the file system
    /// holds: the option gets the argument it needs, and the argument parses.
    pub open spec fn ok_for(self, o: CommonOpt) -> bool {
        match self {
            Ctx::Opt(c) => !(kind_accepts_style(o.kind, Style::Argument) && c.next_argument is None)
                && o.spec_parse_value(argument_of(c.next_argument)) is Some,
            Ctx::NonOpt(c) => o.spec_parse_value(c.opt_name@) is Some,
            Ctx::Delay(c) => !(kind_accepts_style(o.kind, Style::Argument) && c.next_argument is None),
        }
    }

    /// The value of the option (of static part `o`) after the context processed it,
    /// when its value was `v`.
    pub open spec fn apply(self, o: CommonOpt, v: OptValueView) -> OptValueView {
        match self {
            Ctx::Opt(c) => value_after_set(o.kind, v, o.spec_parse_value(argument_of(c.next_argument))->0),
            Ctx::NonOpt(c) => value_after_set(o.kind, v, o.spec_parse_value(c.opt_name@)->0),
            Ctx::Delay(c) => v,
        }
    }

    /// The style of the context.
    pub open spec fn style(self) -> Style {
        match self {
            Ctx::Opt(c) => c.style,
            Ctx::NonOpt(c) => c.style,
            Ctx::Delay(c) => c.style,
        }
    }

    /// The argument the context hands to the option: a non-option context has none.
    pub open spec fn argument(self) -> Option<Seq<char>> {
        match self {
            Ctx::Opt(c) => crate::arg::opt_str_view(c.next_argument),
            Ctx::NonOpt(c) => None,
            Ctx::Delay(c) => crate::arg::opt_str_view(c.next_argument),
        }
    }

    pub fn get_style(&self) -> (r: Style)
        ensures
            r == self.style(),
    {
        match self {
            Ctx::Opt(c) => c.get_style(),
            Ctx::NonOpt(c) => c.get_style(),
            Ctx::Delay(c) => c.get_style(),
        }
    }

    pub fn get_next_argument(&self) -> (r: Option<&String>)
        ensures
            crate::arg::opt_str_view(match r { Some(x) => Some(*x), None => None }) == self.argument(),
    {
        match self {
            Ctx::Opt(c) => c.get_next_argument(),
            Ctx::NonOpt(c) => c.get_next_argument(),
            Ctx::Delay(c) => c.get_next_argument(),
        }
    }

    pub fn match_opt(&self, opt: &CommonOpt) -> (r: bool)
        ensures
            r == self.matches(*opt),
    {
        match self {
            Ctx::Opt(c) => c.match_opt(opt),
            Ctx::NonOpt(c) => c.match_opt(opt),
            Ctx::Delay(c) => c.match_opt(opt),
        }
    }

    pub fn is_matched(&self) -> (r: bool)
        ensures
            r == self.matched(),
    {
        match self {
            Ctx::Opt(c) => c.is_matched(),
            Ctx::NonOpt(c) => c.is_matched(),
            Ctx::Delay(c) => c.is_matched(),
        }
    }

    pub fn is_need_argument(&self) -> (r: bool)
        ensures
            r == self.skip(),
    {
        match self {
            Ctx::Opt(c) => c.is_need_argument(),
            Ctx::NonOpt(c) => c.is_need_argument(),
            Ctx::Delay(c) => c.is_need_argument(),
        }
    }

    /// Process the option: an error leaves the option as it was.
    pub fn process(&mut self, opt: &mut CommonOpt) -> (r: Result<bool>)
        requires
            value_fits(*old(opt)),
        ensures
            *final(self) == old(self).after_match(),
            value_fits(*final(opt)),
            r is Ok ==> r == Ok::<bool, Error>(true) && same_static(*final(opt), *old(opt))
                && final(opt).value@ == old(self).apply(*old(opt), old(opt).value@)
                && final(opt).callback == kind_callback(old(opt).kind),
            r is Ok ==> old(self).ok_for(*old(opt)),
            r is Err ==> *final(opt) == *old(opt),
            old(self).ok_for(*old(opt)) && old(opt).kind != OptKind::Path ==> r is Ok,
    {
        match self {
            Ctx::Opt(c) => c.process(opt),
            Ctx::NonOpt(c) => c.process(opt),
            Ctx::Delay(c) => c.process(opt),
        }
    }
}

/// Matching leaves what a context answers to, and whether it consumes the next
/// argument, as it was.
pub proof fn lemma_after_match(c: Ctx, o: CommonOpt)
    ensures
        c.after_match().matches(o) == c.matches(o),
        c.after_match().skip() == c.skip(),
        c.after_match().matched(),
{
}

/// The context has not matched yet and answers to the option.
pub open spec fn newly(c: Ctx, o: CommonOpt) -> bool {
    !c.matched() && c.matches(o)
}

/// Some context of `cs` newly matches the option.
pub open spec fn any_newly(cs: Seq<Ctx>, o: CommonOpt) -> bool {
    exists|j: int| 0 <= j < cs.len() && newly(#[trigger] cs[j], o)
}

/// Every context of `cs` matched.
pub open spec fn all_matched(cs: Seq<Ctx>) -> bool {
    forall|j: int| 0 <= j < cs.len() ==> (#[trigger] cs[j]).matched()
}

/// The contexts after they met the option: those that newly match it are matched.
pub open spec fn ctxs_after(cs: Seq<Ctx>, o: CommonOpt) -> Seq<Ctx> {
    cs.map_values(|c: Ctx| if newly(c, o) { c.after_match() } else { c })
}

/// Every context that newly matches the option can process it.
pub open spec fn all_ok(cs: Seq<Ctx>, o: CommonOpt) -> bool {
    forall|j: int| 0 <= j < cs.len() && newly(cs[j], o) ==> (#[trigger] cs[j]).ok_for(o)
}

/// Some context that newly matches the option consumes the next argument.
pub open spec fn any_skip(cs: Seq<Ctx>, o: CommonOpt) -> bool {
    exists|j: int| 0 <= j < cs.len() && newly(#[trigger] cs[j], o) && cs[j].skip()
}

/// The value of the option after the contexts of `cs` that newly match it processed
/// it in order, starting from `v`.
pub open spec fn fold_value(cs: Seq<Ctx>, o: CommonOpt, v: OptValueView) -> OptValueView
    decreases cs.len(),
{
    if cs.len() == 0 {
        v
    } else {
        let w = fold_value(cs.drop_last(), o, v);
        if newly(cs.last(), o) {
            cs.last().apply(o, w)
        } else {
            w
        }
    }
}

/// The option after a proc with contexts `cs` processed it without error.
pub open spec fn proc_processed(cs: Seq<Ctx>, o: CommonOpt, p: CommonOpt) -> bool {
    &&& same_static(p, o)
    &&& p.value@ == fold_value(cs, o, o.value@)
    &&& p.callback == (if any_newly(cs, o) { kind_callback(o.kind) } else { o.callback })
}

/// Something that carries an identifier, as procs do.
pub trait Message {
    spec fn spec_message_id(&self) -> Identifier;

    fn id(&self) -> (r: Identifier)
        ensures
            r == self.spec_message_id(),
    ;
}

impl Message for SequenceProc {
    open spec fn spec_message_id(&self) -> Identifier {
        Proc::spec_id(self)
    }

    fn id(&self) -> (r: Identifier) {
        Proc::id(self)
    }
}

impl Message for SingleCtxProc {
    open spec fn spec_message_id(&self) -> Identifier {
        Proc::spec_id(self)
    }

    fn id(&self) -> (r: Identifier) {
        Proc::id(self)
    }
}

/// A group of contexts made from one argument, matched against the options.
pub trait Proc {
    spec fn spec_id(&self) -> Identifier;

    spec fn spec_ctxs(&self) -> Seq<Ctx>;

    spec fn spec_need_argument(&self) -> bool;

    spec fn spec_matched_index(&self) -> Option<u64>;

    /// The proc can be processed and asked whether it matched.
    spec fn spec_ready(&self) -> bool;

    fn id(&self) -> (r: Identifier)
        ensures
            r == self.spec_id(),
    ;

    /// Append the context to current Proc
    fn app_ctx(&mut self, ctx: Ctx)
        ensures
            final(self).spec_ready(),
            final(self).spec_id() == old(self).spec_id(),
    ;

    /// Get the context in the Proc
    fn get_ctx(&self, index: usize) -> (r: Option<&Ctx>)
        ensures
            r is Some <==> index < self.spec_ctxs().len(),
            r matches Some(c) ==> *c == self.spec_ctxs()[index as int],
    ;

    /// Process the option: every context that has not matched yet and answers to
    /// the option processes it; a proc whose contexts all matched is left alone.
    fn process(&mut self, opt: &mut CommonOpt) -> (r: Result<Option<u64>>)
        requires
            old(self).spec_ready(),
            value_fits(*old(opt)),
        ensures
            final(self).spec_ready(),
            final(self).spec_id() == old(self).spec_id(),
            value_fits(*final(opt)),
            same_static(*final(opt), *old(opt)),
            all_matched(old(self).spec_ctxs()) ==> {
                &&& final(self).spec_ctxs() == old(self).spec_ctxs()
                &&& final(self).spec_need_argument() == old(self).spec_need_argument()
                &&& final(self).spec_matched_index() == old(self).spec_matched_index()
                &&& *final(opt) == *old(opt)
                &&& r == Ok::<Option<u64>, Error>(old(self).spec_matched_index())
            },
            !all_matched(old(self).spec_ctxs()) && r is Ok ==> {
                &&& final(self).spec_ctxs() == ctxs_after(old(self).spec_ctxs(), *old(opt))
                &&& proc_processed(old(self).spec_ctxs(), *old(opt), *final(opt))
                &&& all_ok(old(self).spec_ctxs(), *old(opt))
                &&& final(self).spec_need_argument() == any_skip(old(self).spec_ctxs(), *old(opt))
                &&& (final(self).spec_matched_index() is Some <==> any_newly(old(self).spec_ctxs(), *old(opt)))
                &&& r == Ok::<Option<u64>, Error>(final(self).spec_matched_index())
            },
            !all_matched(old(self).spec_ctxs()) && all_ok(old(self).spec_ctxs(), *old(opt))
                && old(opt).kind != OptKind::Path ==> r is Ok,
            !all_matched(old(self).spec_ctxs()) && r is Err ==> any_newly(old(self).spec_ctxs(), *old(opt)),
            !all_matched(old(self).spec_ctxs()) && r is Err ==> {
                &&& final(self).spec_ctxs().len() == old(self).spec_ctxs().len()
                &&& forall|j: int| 0 <= j < old(self).spec_ctxs().len() ==> #[trigger] final(self).spec_ctxs()[j]
                    == old(self).spec_ctxs()[j] || (newly(old(self).spec_ctxs()[j], *old(opt))
                    && final(self).spec_ctxs()[j] == old(self).spec_ctxs()[j].after_match())
                &&& !final(self).spec_need_argument()
                &&& final(self).spec_matched_index() is None
                &&& !is_opt_kind(old(opt).kind) ==> final(opt).value@ == old(opt).value@ || final(opt).value@ is Bool
            },
            old(self).spec_ctxs().len() == 1 && !all_matched(old(self).spec_ctxs()) && r is Err ==> {
                &&& final(self).spec_ctxs() == ctxs_after(old(self).spec_ctxs(), *old(opt))
                &&& *final(opt) == *old(opt)
            },
    ;

    /// If the matched option need argument
    fn is_need_argument(&self) -> (r: bool)
        ensures
            r == self.spec_need_argument(),
    ;

    /// If all the context matched
    fn is_matched(&self) -> (r: bool)
        requires
            self.spec_ready(),
        ensures
            r == all_matched(self.spec_ctxs()),
    ;

    fn len(&self) -> (r: usize)
        ensures
            r == self.spec_ctxs().len(),
    ;
}

proof fn lemma_fold_step(cs: Seq<Ctx>, i: int, o: CommonOpt, v: OptValueView)
    requires
        0 <= i < cs.len(),
    ensures
        fold_value(cs.take(i + 1), o, v) == (if newly(cs[i], o) {
            cs[i].apply(o, fold_value(cs.take(i), o, v))
        } else {
            fold_value(cs.take(i), o, v)
        }),
{
    assert(cs.take(i + 1).drop_last() =~= cs.take(i));
}

/// Process `opt` with the contexts `ctxs` in order.
fn process_all(ctxs: &mut Vec<Ctx>, opt: &mut CommonOpt) -> (r: Result<(bool, bool)>)
    requires
        value_fits(*old(opt)),
    ensures
        value_fits(*final(opt)),
        same_static(*final(opt), *old(opt)),
        r matches Ok((m, n)) ==> {
            &&& final(ctxs)@ == ctxs_after(old(ctxs)@, *old(opt))
            &&& proc_processed(old(ctxs)@, *old(opt), *final(opt))
            &&& all_ok(old(ctxs)@, *old(opt))
            &&& m == any_newly(old(ctxs)@, *old(opt))
            &&& n == any_skip(old(ctxs)@, *old(opt))
        },
        all_ok(old(ctxs)@, *old(opt)) && old(opt).kind != OptKind::Path ==> r is Ok,
        r is Err ==> any_newly(old(ctxs)@, *old(opt)),
        r is Err && old(ctxs)@.len() == 1 ==> final(ctxs)@ == ctxs_after(old(ctxs)@, *old(opt))
            && *final(opt) == *old(opt),
        r is Err ==> final(ctxs)@.len() == old(ctxs)@.len(),
        r is Err ==> forall|j: int| 0 <= j < old(ctxs)@.len() ==> #[trigger] final(ctxs)@[j] == old(ctxs)@[j]
            || (newly(old(ctxs)@[j], *old(opt)) && final(ctxs)@[j] == old(ctxs)@[j].after_match()),
        r is Err && !is_opt_kind(old(opt).kind) ==> final(opt).value@ == old(opt).value@ || final(opt).value@ is Bool,
{
    let ghost cs = ctxs@;
    let ghost o = *opt;
    let mut matched = false;
    let mut need = false;
    let mut i: usize = 0;
    let n = ctxs.len();
    while i < n
        invariant
            n == cs.len(),
            cs == old(ctxs)@,
            o == *old(opt),
            i <= n,
            ctxs@.len() == n,
            value_fits(*opt),
            same_static(*opt, o),
            forall|j: int| 0 <= j < i ==> ctxs@[j] == (if newly(cs[j], o) { cs[j].after_match() } else { cs[j] }),
            forall|j: int| i <= j < n ==> ctxs@[j] == cs[j],
            opt.value@ == fold_value(cs.take(i as int), o, o.value@),
            opt.callback == (if matched { kind_callback(o.kind) } else { o.callback }),
            matched == (exists|j: int| 0 <= j < i && newly(#[trigger] cs[j], o)),
            !matched ==> *opt == o,
            need == (exists|j: int| 0 <= j < i && newly(#[trigger] cs[j], o) && cs[j].skip()),
            forall|j: int| 0 <= j < i && newly(cs[j], o) ==> (#[trigger] cs[j]).ok_for(o),
        decreases n - i,
    {
        proof { lemma_fold_step(cs, i as int, o, o.value@); }
        let ghost ci = ctxs@[i as int];
        let c = &mut ctxs[i];
        assert(*c == ci);
        if !c.is_matched() {
            if c.match_opt(opt) {
                let ghost before = *opt;
                let res = c.process(opt);
                match res {
                    Ok(_) => {},
                    Err(e) => {
                        proof {
                            assert(ci == cs[i as int]);
                            assert(cs[i as int].matches(before) == cs[i as int].matches(o));
                            assert(cs[i as int].ok_for(before) == cs[i as int].ok_for(o));
                            assert(newly(cs[i as int], o));
                            assert(!(ci.ok_for(before) && before.kind != OptKind::Path));
                            assert(before.kind == o.kind);
                            if all_ok(cs, o) {
                                assert(cs[i as int].ok_for(o));
                                assert(o.kind == OptKind::Path);
                            }
                            if n == 1 {
                                assert(ctxs@ =~= ctxs_after(cs, o));
                            }
                            if !is_opt_kind(o.kind) {
                                crate::parser::forward::lemma_fold_nonopt(cs.take(i as int), o, o.value@);
                            }

                        }
                        return Err(e);
                    },
                }
                need = need || c.is_need_argument();
                matched = true;
            }
        }
        i = i + 1;
    }
    proof {
        assert(cs.take(n as int) =~= cs);
        assert(ctxs@ =~= ctxs_after(cs, o));
    }
    Ok((matched, need))
}

/// A proc that matches each of its contexts against the options in turn.
#[derive(Debug)]
pub struct SequenceProc {
    pub id: Identifier,
    pub contexts: Vec<Ctx>,
    pub need_argument: bool,
    pub matched_index: Option<u64>,
}

impl SequenceProc {
    pub fn new(id: Identifier) -> (r: Self)
        ensures
            r.id == id,
            r.contexts@.len() == 0,
            !r.need_argument,
            r.matched_index is None,
    {
        SequenceProc { id, contexts: Vec::new(), need_argument: false, matched_index: None }
    }

    fn all_contexts_matched(&self) -> (r: bool)
        ensures
            r == all_matched(self.contexts@),
    {
        let mut i: usize = 0;
        while i < self.contexts.len()
            invariant
                i <= self.contexts@.len(),
                forall|j: int| 0 <= j < i ==> (#[trigger] self.contexts@[j]).matched(),
            decreases self.contexts@.len() - i,
        {
            if !self.contexts[i].is_matched() {
                return false;
            }
            i = i + 1;
        }
        true
    }
}

impl Proc for SequenceProc {
    open spec fn spec_id(&self) -> Identifier {
        self.id
    }

    open spec fn spec_ctxs(&self) -> Seq<Ctx> {
        self.contexts@
    }

    open spec fn spec_need_argument(&self) -> bool {
        self.need_argument
    }

    open spec fn spec_matched_index(&self) -> Option<u64> {
        self.matched_index
    }

    open spec fn spec_ready(&self) -> bool {
        true
    }

    fn id(&self) -> (r: Identifier) {
        self.id
    }

    fn app_ctx(&mut self, ctx: Ctx)
        ensures
            final(self).contexts@ == old(self).contexts@.push(ctx),
            final(self).need_argument == old(self).need_argument,
            final(self).matched_index == old(self).matched_index,
    {
        self.contexts.push(ctx);
    }

    fn get_ctx(&self, index: usize) -> (r: Option<&Ctx>) {
        if index < self.contexts.len() {
            Some(&self.contexts[index])
        } else {
            None
        }
    }

    /// Every context answers with position 0 once it matched.
    fn process(&mut self, opt: &mut CommonOpt) -> (r: Result<Option<u64>>)
        ensures
            !all_matched(old(self).spec_ctxs()) && r is Ok ==> final(self).matched_index == (if any_newly(
                old(self).contexts@,
                *old(opt),
            ) {
                Some(0u64)
            } else {
                None
            }),
    {
        if self.all_contexts_matched() {
            return Ok(self.matched_index);
        }
        self.matched_index = None;
        self.need_argument = false;
        let (matched, need) = process_all(&mut self.contexts, opt)?;
        self.need_argument = need;
        if matched {
            self.matched_index = Some(0);
        }
        Ok(self.matched_index)
    }

    fn is_need_argument(&self) -> (r: bool) {
        self.need_argument
    }

    fn is_matched(&self) -> (r: bool) {
        self.all_contexts_matched()
    }

    fn len(&self) -> (r: usize) {
        self.contexts.len()
    }
}

/// A proc with a single context.
#[derive(Debug)]
pub struct SingleCtxProc {
    pub id: Identifier,
    pub context: Option<Ctx>,
    pub need_argument: bool,
    pub matched_index: Option<u64>,
}

/// The contexts of a single context proc.
pub open spec fn single_ctxs(c: Option<Ctx>) -> Seq<Ctx> {
    match c {
        Some(x) => seq![x],
        None => Seq::empty(),
    }
}

impl SingleCtxProc {
    pub fn new(id: Identifier) -> (r: Self)
        ensures
            r.id == id,
            r.context is None,
            !r.need_argument,
            r.matched_index is None,
    {
        SingleCtxProc { id, context: None, need_argument: false, matched_index: None }
    }
}

impl Proc for SingleCtxProc {
    open spec fn spec_id(&self) -> Identifier {
        self.id
    }

    open spec fn spec_ctxs(&self) -> Seq<Ctx> {
        single_ctxs(self.context)
    }

    open spec fn spec_need_argument(&self) -> bool {
        self.need_argument
    }

    open spec fn spec_matched_index(&self) -> Option<u64> {
        self.matched_index
    }

    open spec fn spec_ready(&self) -> bool {
        self.context is Some
    }

    fn id(&self) -> (r: Identifier) {
        self.id
    }

    /// The context takes the place of the one before.
    fn app_ctx(&mut self, ctx: Ctx)
        ensures
            final(self).context == Some(ctx),
            final(self).need_argument == old(self).need_argument,
            final(self).matched_index == old(self).matched_index,
    {
        self.context = Some(ctx);
    }

    fn get_ctx(&self, index: usize) -> (r: Option<&Ctx>) {
        if index == 0 {
            match &self.context {
                Some(c) => Some(c),
                None => None,
            }
        } else {
            None
        }
    }

    /// The proc answers with the position of its context once it matched.
    fn process(&mut self, opt: &mut CommonOpt) -> (r: Result<Option<u64>>)
        ensures
            !all_matched(old(self).spec_ctxs()) && r is Ok ==> final(self).matched_index == (if any_newly(
                old(self).spec_ctxs(),
                *old(opt),
            ) {
                Some(old(self).context->0.position())
            } else {
                None
            }),
    {
        let ghost cs = single_ctxs(self.context);
        if self.is_matched() {
            return Ok(self.matched_index);
        }
        self.need_argument = false;
        self.matched_index = None;
        let ghost o = *opt;
        match &mut self.context {
            Some(c) => {
                proof { lemma_fold_step(cs, 0, o, o.value@); assert(cs.take(1) =~= cs); assert(cs.take(0) =~= Seq::<Ctx>::empty()); }
                if c.match_opt(opt) {
                    c.process(opt)?;
                    self.need_argument = c.is_need_argument();
                    self.matched_index = Some(match c {
                        Ctx::NonOpt(n) => n.current,
                        _ => 0,
                    });
                }
            },
            None => {},
        }
        proof {
            assert(single_ctxs(self.context) =~= ctxs_after(cs, o));
        }
        Ok(self.matched_index)
    }

    fn is_need_argument(&self) -> (r: bool) {
        self.need_argument
    }

    fn is_matched(&self) -> (r: bool) {
        match &self.context {
            Some(c) => {
                proof { assert(single_ctxs(self.context)[0] == self.context->0); }
                c.is_matched()
            },
            None => true,
        }
    }

    fn len(&self) -> (r: usize) {
        if self.context.is_some() {
            1
        } else {
            0
        }
    }
}

} // verus!
