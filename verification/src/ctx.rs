use vstd::prelude::*;

use crate::error::{Error, Result};
use crate::id::Identifier;
use crate::opt::{Alias, Callback, Index, Name, OptValueView, Style, Type, Value};
use crate::opt::common::{
    CommonOpt, OptKind, kind_accepts_style, kind_callback, parse_outcome, same_static,
    value_after_set, value_fits,
};

verus! {

/// An option with style `style` answers to `prefix` and `name`: by its own name and
/// prefix, or by one of its aliases.
pub open spec fn opt_ctx_matches(prefix: Seq<char>, name: Seq<char>, style: Style, o: CommonOpt) -> bool {
    &&& kind_accepts_style(o.kind, style)
    &&& ((o.spec_match_name(name) && o.spec_prefix() == prefix) || o.spec_match_alias(prefix, name))
}

/// A non-option with style `style` answers to the argument `name` at position
/// `current` of `total`.
pub open spec fn nonopt_ctx_matches(name: Seq<char>, style: Style, total: u64, current: u64, o: CommonOpt) -> bool {
    &&& kind_accepts_style(o.kind, style)
    &&& o.spec_match_index(total, current)
    &&& o.spec_match_name(name)
}

/// The option `p` is `o` after a successful match that set its value from `v`
/// (when `v` is some) and marked its callback as due.
pub open spec fn processed(o: CommonOpt, p: CommonOpt, v: Option<OptValueView>) -> bool {
    &&& same_static(p, o)
    &&& p.value@ == (match v {
        Some(x) => value_after_set(o.kind, o.value@, x),
        None => o.value@,
    })
    &&& p.callback == kind_callback(o.kind)
}

/// The outcome of a match that parses `s` for the option `o` and sets the value.
/// Only a `path` option can fail on a value that parses: when the path is missing.
pub open spec fn set_outcome(o: CommonOpt, p: CommonOpt, s: Seq<char>, r: Result<bool>) -> bool {
    match o.spec_parse_value(s) {
        Some(v) => {
            ||| (r == Ok::<bool, Error>(true) && processed(o, p, Some(v)))
            ||| (o.kind == OptKind::Path && p == o && (r matches Err(Error::InvaldOptionValue(m, _))
                && m@ == s))
        },
        None => p == o && (r matches Err(Error::InvaldOptionValue(m, _)) && m@ == s),
    }
}

/// What the contexts have in common.
pub trait Context {
    /// The context matched an option.
    spec fn spec_matched(&self) -> bool;

    /// The context answers to the option.
    spec fn spec_matches(&self, opt: CommonOpt) -> bool;

    /// Get context identifier inside the proc
    fn id(&self) -> &Identifier;

    /// Check if the opt is matched with current context
    fn match_opt(&self, opt: &CommonOpt) -> (r: bool)
        ensures
            r == self.spec_matches(*opt),
    ;

    /// Process the option if matched successful
    fn process(&mut self, opt: &mut CommonOpt) -> (r: Result<bool>)
        requires
            value_fits(*old(opt)),
        ensures
            final(self).spec_matched(),
            value_fits(*final(opt)),
            same_static(*final(opt), *old(opt)),
    ;

    /// Return matched index if the context already matched successful
    fn get_matched_index(&self) -> Option<u64>;

    /// Return true if the matched option need an argument
    fn is_need_argument(&self) -> bool;

    /// Return true if context matched any option
    fn is_matched(&self) -> (r: bool)
        ensures
            r == self.spec_matched(),
    ;

    /// Return the style of current context
    fn get_style(&self) -> Style;

    /// Return next argument
    fn get_next_argument(&self) -> Option<&String>;
}

/// Set the value of `opt` from the argument `s`.
fn set_from(opt: &mut CommonOpt, s: &str) -> (r: Result<bool>)
    requires
        value_fits(*old(opt)),
    ensures
        set_outcome(*old(opt), *final(opt), s@, r),
        value_fits(*final(opt)),
{
    let v = opt.parse_value(s)?;
    opt.set_value(v);
    opt.set_need_invoke(true);
    Ok(true)
}

/// Context of an option argument, such as `-o value`: it matches the option by
/// prefix, name, style or alias, and sets its value.
#[derive(Debug)]
pub struct OptContext {
    pub id: Identifier,
    pub opt_prefix: String,
    pub opt_name: String,
    pub next_argument: Option<String>,
    pub style: Style,
    pub skip_next_arg: bool,
    pub matched_index: Option<u64>,
}

/// The argument that a matched option context hands to the option.
pub open spec fn argument_of(next: Option<String>) -> Seq<char> {
    match next {
        Some(s) => s@,
        None => Seq::empty(),
    }
}

impl OptContext {
    pub fn new(prefix: String, name: String, arg: Option<String>, style: Style, skip_next_arg: bool) -> (r: Self)
        ensures
            r.id == Identifier(0),
            r.opt_prefix == prefix,
            r.opt_name == name,
            r.next_argument == arg,
            r.style == style,
            r.skip_next_arg == skip_next_arg,
            r.matched_index is None,
    {
        OptContext {
            id: Identifier::new(0),
            opt_prefix: prefix,
            opt_name: name,
            next_argument: arg,
            style,
            skip_next_arg,
            matched_index: None,
        }
    }

    pub fn set_prefix(&mut self, prefix: String) -> (r: &mut Self)
        ensures
            *r == (OptContext { opt_prefix: prefix, ..*old(self) }),
            *final(self) == *final(r),
    {
        self.opt_prefix = prefix;
        self
    }

    pub fn set_name(&mut self, name: String) -> (r: &mut Self)
        ensures
            *r == (OptContext { opt_name: name, ..*old(self) }),
            *final(self) == *final(r),
    {
        self.opt_name = name;
        self
    }

    pub fn set_next_argument(&mut self, arg: Option<String>) -> (r: &mut Self)
        ensures
            *r == (OptContext { next_argument: arg, ..*old(self) }),
            *final(self) == *final(r),
    {
        self.next_argument = arg;
        self
    }

    pub fn set_style(&mut self, style: Style) -> (r: &mut Self)
        ensures
            *r == (OptContext { style, ..*old(self) }),
            *final(self) == *final(r),
    {
        self.style = style;
        self
    }

    pub fn set_skip_next_arg(&mut self, b: bool) -> (r: &mut Self)
        ensures
            *r == (OptContext { skip_next_arg: b, ..*old(self) }),
            *final(self) == *final(r),
    {
        self.skip_next_arg = b;
        self
    }
}

/// Matching an option that takes an argument needs one.
fn argument_required(opt: &CommonOpt) -> (r: Error)
    ensures
        r matches Error::ArgumentRequired(m) && m@ == opt.spec_prefix() + opt.name@,
{
    let mut m = opt.prefix_str().to_owned();
    m.append(opt.name.as_str());
    Error::ArgumentRequired(m)
}

impl Context for OptContext {
    open spec fn spec_matched(&self) -> bool {
        self.matched_index is Some
    }

    open spec fn spec_matches(&self, opt: CommonOpt) -> bool {
        opt_ctx_matches(self.opt_prefix@, self.opt_name@, self.style, opt)
    }

    fn id(&self) -> (r: &Identifier)
        ensures
            *r == self.id,
    {
        &self.id
    }

    fn match_opt(&self, opt: &CommonOpt) -> (r: bool) {
        opt.is_style(self.style) && ((opt.match_name(self.opt_name.as_str()) && opt.match_prefix(
            self.opt_prefix.as_str(),
        )) || opt.match_alias(self.opt_prefix.as_str(), self.opt_name.as_str()))
    }

    /// An option that takes an argument needs the next argument; every option
    /// parses what it is handed (nothing, for a boolean) and takes the value.
    fn process(&mut self, opt: &mut CommonOpt) -> (r: Result<bool>)
        ensures
            *final(self) == (OptContext { matched_index: Some(0), ..*old(self) }),
            kind_accepts_style(old(opt).kind, Style::Argument) && old(self).next_argument is None
                ==> *final(opt) == *old(opt) && (r matches Err(Error::ArgumentRequired(m)) && m@
                == old(opt).spec_prefix() + old(opt).name@),
            !(kind_accepts_style(old(opt).kind, Style::Argument) && old(self).next_argument is None)
                ==> set_outcome(*old(opt), *final(opt), argument_of(old(self).next_argument), r),
    {
        self.matched_index = Some(0);
        if opt.is_style(Style::Argument) && self.next_argument.is_none() {
            return Err(argument_required(opt));
        }
        match &self.next_argument {
            Some(v) => set_from(opt, v.as_str()),
            None => {
                proof { reveal_strlit(""); }
                assert(""@ =~= Seq::<char>::empty());
                set_from(opt, "")
            },
        }
    }

    fn get_matched_index(&self) -> (r: Option<u64>)
        ensures
            r == self.matched_index,
    {
        self.matched_index
    }

    fn is_need_argument(&self) -> (r: bool)
        ensures
            r == self.skip_next_arg,
    {
        self.skip_next_arg
    }

    fn is_matched(&self) -> (r: bool) {
        self.matched_index.is_some()
    }

    fn get_style(&self) -> (r: Style)
        ensures
            r == self.style,
    {
        self.style
    }

    fn get_next_argument(&self) -> (r: Option<&String>)
        ensures
            r is None <==> self.next_argument is None,
            r matches Some(x) ==> self.next_argument == Some(*x),
    {
        self.next_argument.as_ref()
    }
}

/// Context of a non-option argument: it matches the non-option by name, index and
/// style, and marks its callback as due.
#[derive(Debug)]
pub struct NonOptContext {
    pub id: Identifier,
    pub opt_name: String,
    pub style: Style,
    pub total: u64,
    pub current: u64,
    pub matched_index: Option<u64>,
}

impl NonOptContext {
    pub fn new(opt_name: String, style: Style, total: u64, current: u64) -> (r: Self)
        ensures
            r.id == Identifier(0),
            r.opt_name == opt_name,
            r.style == style,
            r.total == total,
            r.current == current,
            r.matched_index is None,
    {
        NonOptContext { id: Identifier::new(0), opt_name, style, total, current, matched_index: None }
    }

    pub fn id(&self) -> (r: &Identifier)
        ensures
            *r == self.id,
    {
        &self.id
    }

    pub fn set_name(&mut self, name: String) -> (r: &mut Self)
        ensures
            *r == (NonOptContext { opt_name: name, ..*old(self) }),
            *final(self) == *final(r),
    {
        self.opt_name = name;
        self
    }

    pub fn set_style(&mut self, style: Style) -> (r: &mut Self)
        ensures
            *r == (NonOptContext { style, ..*old(self) }),
            *final(self) == *final(r),
    {
        self.style = style;
        self
    }

    pub fn set_total(&mut self, total: u64) -> (r: &mut Self)
        ensures
            *r == (NonOptContext { total, ..*old(self) }),
            *final(self) == *final(r),
    {
        self.total = total;
        self
    }

    pub fn set_current(&mut self, current: u64) -> (r: &mut Self)
        ensures
            *r == (NonOptContext { current, ..*old(self) }),
            *final(self) == *final(r),
    {
        self.current = current;
        self
    }
}

impl Context for NonOptContext {
    open spec fn spec_matched(&self) -> bool {
        self.matched_index is Some
    }

    open spec fn spec_matches(&self, opt: CommonOpt) -> bool {
        nonopt_ctx_matches(self.opt_name@, self.style, self.total, self.current, opt)
    }

    fn id(&self) -> (r: &Identifier)
        ensures
            *r == self.id,
    {
        &self.id
    }

    fn match_opt(&self, opt: &CommonOpt) -> (r: bool) {
        opt.is_style(self.style) && opt.match_index(self.total, self.current) && opt.match_name(
            self.opt_name.as_str(),
        )
    }

    /// The non-option parses the argument and takes the value.
    fn process(&mut self, opt: &mut CommonOpt) -> (r: Result<bool>)
        ensures
            *final(self) == (NonOptContext { matched_index: Some(old(self).current), ..*old(self) }),
            set_outcome(*old(opt), *final(opt), old(self).opt_name@, r),
    {
        self.matched_index = Some(self.current);
        set_from(opt, self.opt_name.as_str())
    }

    fn get_matched_index(&self) -> (r: Option<u64>)
        ensures
            r == self.matched_index,
    {
        self.matched_index
    }

    fn is_need_argument(&self) -> (r: bool)
        ensures
            !r,
    {
        false
    }

    fn is_matched(&self) -> (r: bool) {
        self.matched_index.is_some()
    }

    fn get_style(&self) -> (r: Style)
        ensures
            r == self.style,
    {
        self.style
    }

    fn get_next_argument(&self) -> (r: Option<&String>)
        ensures
            r is None,
    {
        None
    }
}

/// Context of an option argument whose value is set later: it matches like an
/// [`OptContext`] and only marks the callback as due.
#[derive(Debug)]
pub struct DelayContext {
    pub id: Identifier,
    pub opt_prefix: String,
    pub opt_name: String,
    pub next_argument: Option<String>,
    pub style: Style,
    pub skip_next_arg: bool,
    pub matched_index: Option<u64>,
}

impl DelayContext {
    pub fn new(prefix: String, name: String, arg: Option<String>, style: Style, skip_next_arg: bool) -> (r: Self)
        ensures
            r.id == Identifier(0),
            r.opt_prefix == prefix,
            r.opt_name == name,
            r.next_argument == arg,
            r.style == style,
            r.skip_next_arg == skip_next_arg,
            r.matched_index is None,
    {
        DelayContext {
            id: Identifier::new(0),
            opt_prefix: prefix,
            opt_name: name,
            next_argument: arg,
            style,
            skip_next_arg,
            matched_index: None,
        }
    }

    pub fn set_prefix(&mut self, prefix: String) -> (r: &mut Self)
        ensures
            *r == (DelayContext { opt_prefix: prefix, ..*old(self) }),
            *final(self) == *final(r),
    {
        self.opt_prefix = prefix;
        self
    }

    pub fn set_name(&mut self, name: String) -> (r: &mut Self)
        ensures
            *r == (DelayContext { opt_name: name, ..*old(self) }),
            *final(self) == *final(r),
    {
        self.opt_name = name;
        self
    }

    pub fn set_next_argument(&mut self, arg: Option<String>) -> (r: &mut Self)
        ensures
            *r == (DelayContext { next_argument: arg, ..*old(self) }),
            *final(self) == *final(r),
    {
        self.next_argument = arg;
        self
    }

    pub fn set_style(&mut self, style: Style) -> (r: &mut Self)
        ensures
            *r == (DelayContext { style, ..*old(self) }),
            *final(self) == *final(r),
    {
        self.style = style;
        self
    }

    pub fn set_skip_next_arg(&mut self, b: bool) -> (r: &mut Self)
        ensures
            *r == (DelayContext { skip_next_arg: b, ..*old(self) }),
            *final(self) == *final(r),
    {
        self.skip_next_arg = b;
        self
    }
}

impl Context for DelayContext {
    open spec fn spec_matched(&self) -> bool {
        self.matched_index is Some
    }

    open spec fn spec_matches(&self, opt: CommonOpt) -> bool {
        opt_ctx_matches(self.opt_prefix@, self.opt_name@, self.style, opt)
    }

    fn id(&self) -> (r: &Identifier)
        ensures
            *r == self.id,
    {
        &self.id
    }

    fn match_opt(&self, opt: &CommonOpt) -> (r: bool) {
        opt.is_style(self.style) && ((opt.match_name(self.opt_name.as_str()) && opt.match_prefix(
            self.opt_prefix.as_str(),
        )) || opt.match_alias(self.opt_prefix.as_str(), self.opt_name.as_str()))
    }

    /// An option that takes an argument needs the next argument; the value is left
    /// as it is, and only the callback is marked as due.
    fn process(&mut self, opt: &mut CommonOpt) -> (r: Result<bool>)
        ensures
            *final(self) == (DelayContext { matched_index: Some(0), ..*old(self) }),
            kind_accepts_style(old(opt).kind, Style::Argument) && old(self).next_argument is None
                ==> *final(opt) == *old(opt) && (r matches Err(Error::ArgumentRequired(m)) && m@
                == old(opt).spec_prefix() + old(opt).name@),
            !(kind_accepts_style(old(opt).kind, Style::Argument) && old(self).next_argument is None)
                ==> r == Ok::<bool, Error>(true) && processed(*old(opt), *final(opt), None),
    {
        self.matched_index = Some(0);
        if opt.is_style(Style::Argument) && self.next_argument.is_none() {
            return Err(argument_required(opt));
        }
        opt.set_need_invoke(true);
        Ok(true)
    }

    fn get_matched_index(&self) -> (r: Option<u64>)
        ensures
            r == self.matched_index,
    {
        self.matched_index
    }

    fn is_need_argument(&self) -> (r: bool)
        ensures
            r == self.skip_next_arg,
    {
        self.skip_next_arg
    }

    fn is_matched(&self) -> (r: bool) {
        self.matched_index.is_some()
    }

    fn get_style(&self) -> (r: Style)
        ensures
            r == self.style,
    {
        self.style
    }

    fn get_next_argument(&self) -> (r: Option<&String>)
        ensures
            r is None <==> self.next_argument is None,
            r matches Some(x) ==> self.next_argument == Some(*x),
    {
        self.next_argument.as_ref()
    }
}

} // verus!
