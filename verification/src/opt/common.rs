use vstd::prelude::*;

use crate::error::{Error, Result};
use crate::id::Identifier as IIdentifier;
use crate::callback::CallbackType;
use crate::text::{spec_parse_i64, spec_parse_u64, str_eq};
use crate::arg::strings_view;
use crate::utils::{alias_view, find_alias, remove_alias, remove_first_alias, first_alias_index};
use super::{
    Alias, Callback, Identifier, Index, Name, NonOptIndex, NonOptIndexView, Opt, OptValue,
    OptValueView, Optional, Style, Type, Value, spec_calc_index,
};

verus! {

/// The kinds of options and non-options.
#[derive(Debug, Clone, Copy, PartialEq, Eq, Structural)]
pub enum OptKind {
    /// `str`: takes a string argument.
    Str,
    /// `bool`: takes no argument, may be deactivated with `-/o`.
    Bool,
    /// `array`: collects the arguments of every occurrence.
    Array,
    /// `int`: takes a signed integer argument.
    Int,
    /// `uint`: takes an unsigned integer argument.
    Uint,
    /// `path`: takes the path of something that exists.
    Path,
    /// `pos`: a non-option argument at a given position.
    Pos,
    /// `cmd`: the first non-option argument, naming a sub command.
    Cmd,
    /// `main`: stands for all non-option arguments.
    Main,
}

/// The kinds that are options, as opposed to non-options.
pub open spec fn is_opt_kind(k: OptKind) -> bool {
    k == OptKind::Str || k == OptKind::Bool || k == OptKind::Array || k == OptKind::Int || k
        == OptKind::Uint || k == OptKind::Path
}

/// The type name of each kind.
pub open spec fn kind_type_name(k: OptKind) -> Seq<char> {
    match k {
        OptKind::Str => "str"@,
        OptKind::Bool => "bool"@,
        OptKind::Array => "array"@,
        OptKind::Int => "int"@,
        OptKind::Uint => "uint"@,
        OptKind::Path => "path"@,
        OptKind::Pos => "pos"@,
        OptKind::Cmd => "cmd"@,
        OptKind::Main => "main"@,
    }
}

/// The styles that each kind accepts.
pub open spec fn kind_accepts_style(k: OptKind, style: Style) -> bool {
    match k {
        OptKind::Bool => style == Style::Boolean || style == Style::Multiple,
        OptKind::Pos => style == Style::Pos,
        OptKind::Cmd => style == Style::Cmd,
        OptKind::Main => style == Style::Main,
        _ => style == Style::Argument,
    }
}

/// The callback type that each kind invokes.
pub open spec fn kind_callback(k: OptKind) -> CallbackType {
    match k {
        OptKind::Pos => CallbackType::Index,
        OptKind::Cmd | OptKind::Main => CallbackType::Main,
        _ => CallbackType::Value,
    }
}

pub open spec fn opt_bool(v: OptValueView) -> Option<bool> {
    match v {
        OptValueView::Bool(b) => Some(b),
        _ => None,
    }
}

/// The value of an option of `kind` whose value is `cur`, after `v` is set: an
/// `array` option appends an array to its value and ignores other values; every
/// other kind takes `v`.
pub open spec fn value_after_set(kind: OptKind, cur: OptValueView, v: OptValueView) -> OptValueView {
    if kind == OptKind::Array {
        match v {
            OptValueView::Array(add) => match cur {
                OptValueView::Array(c) => OptValueView::Array(c + add),
                _ => OptValueView::Array(add),
            },
            _ => cur,
        }
    } else {
        v
    }
}

/// The value of the option can take an array: an `array` option holds an array or
/// nothing.
pub open spec fn value_fits(o: CommonOpt) -> bool {
    o.kind == OptKind::Array ==> (o.value@ is Array || o.value@ is Null)
}

/// The two options agree on everything but their value and their callback flag.
pub open spec fn same_static(o: CommonOpt, p: CommonOpt) -> bool {
    &&& o.id == p.id
    &&& o.kind == p.kind
    &&& o.name@ == p.name@
    &&& o.prefix@ == p.prefix@
    &&& o.optional == p.optional
    &&& o.default_value@ == p.default_value@
    &&& o.deactivate_style == p.deactivate_style
    &&& alias_view(o.alias@) == alias_view(p.alias@)
    &&& o.index@ == p.index@
}

/// What parsing `s` for the option gives, where `found` says whether the file
/// system holds the path `s` (only `path` options ask).
pub open spec fn parse_outcome(o: CommonOpt, s: Seq<char>, found: bool, r: Result<OptValue>) -> bool {
    if o.kind == OptKind::Path && !found {
        r matches Err(Error::InvaldOptionValue(m, _)) && m@ == s
    } else {
        match o.spec_parse_value(s) {
            Some(v) => r matches Ok(x) && x@ == v,
            None => r matches Err(Error::InvaldOptionValue(m, _)) && m@ == s,
        }
    }
}

/// An option or non-option of any kind.
#[derive(Debug)]
pub struct CommonOpt {
    pub id: IIdentifier,
    pub kind: OptKind,
    pub name: String,
    pub prefix: String,
    pub optional: bool,
    pub value: OptValue,
    pub default_value: OptValue,
    pub deactivate_style: bool,
    pub alias: Vec<(String, String)>,
    pub callback: CallbackType,
    pub index: NonOptIndex,
}

/// The option `o` is `p` with its value replaced by `v`.
pub open spec fn same_but_value(o: CommonOpt, p: CommonOpt) -> bool {
    &&& o.id == p.id
    &&& o.kind == p.kind
    &&& o.name@ == p.name@
    &&& o.prefix@ == p.prefix@
    &&& o.optional == p.optional
    &&& o.default_value@ == p.default_value@
    &&& o.deactivate_style == p.deactivate_style
    &&& alias_view(o.alias@) == alias_view(p.alias@)
    &&& o.callback == p.callback
    &&& o.index@ == p.index@
}

impl CommonOpt {
    /// The prefix that the option answers to; non-options have none.
    pub open spec fn spec_prefix(&self) -> Seq<char> {
        if is_opt_kind(self.kind) { self.prefix@ } else { Seq::empty() }
    }

    pub open spec fn spec_match_name(&self, s: Seq<char>) -> bool {
        if self.kind == OptKind::Pos || self.kind == OptKind::Main { true } else { self.name@ == s }
    }

    pub open spec fn spec_match_alias(&self, p: Seq<char>, n: Seq<char>) -> bool {
        is_opt_kind(self.kind) && alias_view(self.alias@).contains((p, n))
    }

    pub open spec fn spec_match_index(&self, total: u64, current: u64) -> bool {
        if self.kind == OptKind::Pos || self.kind == OptKind::Cmd {
            spec_calc_index(self.index@, total, current) == Some(current)
        } else {
            true
        }
    }

    pub open spec fn spec_has_value(&self) -> bool {
        match self.kind {
            OptKind::Str | OptKind::Path => self.value@ is Str,
            OptKind::Bool => opt_bool(self.value@) != opt_bool(self.default_value@),
            OptKind::Array => self.value@ is Array,
            OptKind::Int => self.value@ is Int,
            OptKind::Uint => self.value@ is Uint,
            _ => self.value@ is Bool,
        }
    }

    /// The value after `set_value(v)`.
    pub open spec fn spec_after_set(&self, v: OptValueView) -> OptValueView {
        value_after_set(self.kind, self.value@, v)
    }

    /// The value after `reset_value()`.
    pub open spec fn spec_after_reset(&self) -> OptValueView {
        match self.kind {
            OptKind::Bool => OptValueView::Bool(
                match self.default_value@ {
                    OptValueView::Bool(b) => b,
                    _ => self.deactivate_style,
                },
            ),
            OptKind::Array => match self.default_value@ {
                OptValueView::Array(d) => OptValueView::Array(d),
                _ => OptValueView::Null,
            },
            _ => self.default_value@,
        }
    }

    /// What `parse_value(s)` gives, when it does not depend on the file system.
    pub open spec fn spec_parse_value(&self, s: Seq<char>) -> Option<OptValueView> {
        match self.kind {
            OptKind::Str => Some(OptValueView::Str(s)),
            OptKind::Bool => Some(OptValueView::Bool(!self.deactivate_style)),
            OptKind::Array => Some(OptValueView::Array(seq![s])),
            OptKind::Int => match spec_parse_i64(s) {
                Some(v) => Some(OptValueView::Int(v)),
                None => None,
            },
            OptKind::Uint => match spec_parse_u64(s) {
                Some(v) => Some(OptValueView::Uint(v)),
                None => None,
            },
            OptKind::Path => Some(OptValueView::Str(s)),
            _ => Some(OptValueView::Bool(true)),
        }
    }

    fn new_opt(
        kind: OptKind,
        id: IIdentifier,
        name: String,
        prefix: String,
        optional: bool,
        default_value: OptValue,
        deactivate_style: bool,
        index: NonOptIndex,
    ) -> (r: Self)
        ensures
            r.kind == kind,
            r.id == id,
            r.name == name,
            r.prefix == prefix,
            r.optional == optional,
            r.value@ == default_value@,
            r.default_value == default_value,
            r.deactivate_style == deactivate_style,
            r.alias@.len() == 0,
            r.callback == CallbackType::Null,
            r.index == index,
    {
        CommonOpt {
            id,
            kind,
            name,
            prefix,
            optional,
            value: default_value.clone_or(),
            default_value,
            deactivate_style,
            alias: Vec::new(),
            callback: CallbackType::Null,
            index,
        }
    }

    /// An option of type `str`.
    pub fn new_str(id: IIdentifier, name: String, prefix: String, optional: bool, default_value: OptValue) -> (r: Self)
        ensures
            r.kind == OptKind::Str,
            r.id == id,
            r.name == name,
            r.prefix == prefix,
            r.optional == optional,
            r.value@ == default_value@,
            r.default_value == default_value,
            !r.deactivate_style,
            r.alias@.len() == 0,
            r.callback == CallbackType::Null,
            r.index@ == NonOptIndexView::Null,
    {
        Self::new_opt(OptKind::Str, id, name, prefix, optional, default_value, false, NonOptIndex::Null)
    }

    /// An option of type `bool`, whose value starts as `true` when it is deactivate style.
    pub fn new_bool(id: IIdentifier, name: String, prefix: String, optional: bool, deactivate_style: bool) -> (r: Self)
        ensures
            r.kind == OptKind::Bool,
            r.id == id,
            r.name == name,
            r.prefix == prefix,
            r.optional == optional,
            r.value@ == OptValueView::Bool(deactivate_style),
            r.default_value@ == OptValueView::Bool(deactivate_style),
            r.deactivate_style == deactivate_style,
            r.alias@.len() == 0,
            r.callback == CallbackType::Null,
            r.index@ == NonOptIndexView::Null,
    {
        let default_value = OptValue::from_bool(deactivate_style);
        Self::new_opt(OptKind::Bool, id, name, prefix, optional, default_value, deactivate_style, NonOptIndex::Null)
    }

    /// An option of type `array`.
    pub fn new_array(id: IIdentifier, name: String, prefix: String, optional: bool, default_value: OptValue) -> (r: Self)
        ensures
            r.kind == OptKind::Array,
            r.id == id,
            r.name == name,
            r.prefix == prefix,
            r.optional == optional,
            r.value@ == default_value@,
            r.default_value == default_value,
            !r.deactivate_style,
            r.alias@.len() == 0,
            r.callback == CallbackType::Null,
            r.index@ == NonOptIndexView::Null,
    {
        Self::new_opt(OptKind::Array, id, name, prefix, optional, default_value, false, NonOptIndex::Null)
    }

    /// An option of type `int`.
    pub fn new_int(id: IIdentifier, name: String, prefix: String, optional: bool, default_value: OptValue) -> (r: Self)
        ensures
            r.kind == OptKind::Int,
            r.id == id,
            r.name == name,
            r.prefix == prefix,
            r.optional == optional,
            r.value@ == default_value@,
            r.default_value == default_value,
            !r.deactivate_style,
            r.alias@.len() == 0,
            r.callback == CallbackType::Null,
            r.index@ == NonOptIndexView::Null,
    {
        Self::new_opt(OptKind::Int, id, name, prefix, optional, default_value, false, NonOptIndex::Null)
    }

    /// An option of type `uint`.
    pub fn new_uint(id: IIdentifier, name: String, prefix: String, optional: bool, default_value: OptValue) -> (r: Self)
        ensures
            r.kind == OptKind::Uint,
            r.id == id,
            r.name == name,
            r.prefix == prefix,
            r.optional == optional,
            r.value@ == default_value@,
            r.default_value == default_value,
            !r.deactivate_style,
            r.alias@.len() == 0,
            r.callback == CallbackType::Null,
            r.index@ == NonOptIndexView::Null,
    {
        Self::new_opt(OptKind::Uint, id, name, prefix, optional, default_value, false, NonOptIndex::Null)
    }

    /// An option of type `path`.
    pub fn new_path(id: IIdentifier, name: String, prefix: String, optional: bool, default_value: OptValue) -> (r: Self)
        ensures
            r.kind == OptKind::Path,
            r.id == id,
            r.name == name,
            r.prefix == prefix,
            r.optional == optional,
            r.value@ == default_value@,
            r.default_value == default_value,
            !r.deactivate_style,
            r.alias@.len() == 0,
            r.callback == CallbackType::Null,
            r.index@ == NonOptIndexView::Null,
    {
        Self::new_opt(OptKind::Path, id, name, prefix, optional, default_value, false, NonOptIndex::Null)
    }

    /// A non-option of type `pos` at `index`.
    pub fn new_pos(id: IIdentifier, name: String, optional: bool, index: NonOptIndex) -> (r: Self)
        ensures
            r.kind == OptKind::Pos,
            r.id == id,
            r.name == name,
            r.prefix@.len() == 0,
            r.optional == optional,
            r.value@ == OptValueView::Null,
            r.default_value@ == OptValueView::Null,
            !r.deactivate_style,
            r.alias@.len() == 0,
            r.callback == CallbackType::Null,
            r.index == index,
    {
        Self::new_opt(OptKind::Pos, id, name, String::new(), optional, OptValue::Null, false, index)
    }

    /// A non-option of type `cmd`: always the first non-option, always force required.
    pub fn new_cmd(id: IIdentifier, name: String) -> (r: Self)
        ensures
            r.kind == OptKind::Cmd,
            r.id == id,
            r.name == name,
            r.prefix@.len() == 0,
            !r.optional,
            r.value@ == OptValueView::Null,
            r.default_value@ == OptValueView::Null,
            !r.deactivate_style,
            r.alias@.len() == 0,
            r.callback == CallbackType::Null,
            r.index@ == NonOptIndexView::Forward(1),
    {
        Self::new_opt(OptKind::Cmd, id, name, String::new(), false, OptValue::Null, false, NonOptIndex::new(1))
    }

    /// A non-option of type `main`: always optional.
    pub fn new_main(id: IIdentifier, name: String) -> (r: Self)
        ensures
            r.kind == OptKind::Main,
            r.id == id,
            r.name == name,
            r.prefix@.len() == 0,
            r.optional,
            r.value@ == OptValueView::Null,
            r.default_value@ == OptValueView::Null,
            !r.deactivate_style,
            r.alias@.len() == 0,
            r.callback == CallbackType::Null,
            r.index@ == NonOptIndexView::Null,
    {
        Self::new_opt(OptKind::Main, id, name, String::new(), true, OptValue::Null, false, NonOptIndex::Null)
    }

    /// The kind of this option.
    pub fn get_kind(&self) -> (r: OptKind)
        ensures
            r == self.kind,
    {
        self.kind
    }

    fn present(&self) -> (r: bool)
        ensures
            r == self.spec_has_value(),
    {
        match self.kind {
            OptKind::Str | OptKind::Path => self.value.is_str(),
            OptKind::Bool => {
                let a = match self.value {
                    OptValue::Bool(b) => Some(b),
                    _ => None,
                };
                let d = match self.default_value {
                    OptValue::Bool(b) => Some(b),
                    _ => None,
                };
                a != d
            },
            OptKind::Array => self.value.is_array(),
            OptKind::Int => self.value.is_int(),
            OptKind::Uint => self.value.is_uint(),
            _ => self.value.is_bool(),
        }
    }


    /// Parse an argument into a value of the option's type, where `found` says
    /// whether the file system holds the path `s`.
    pub fn parse_value_found(&self, s: &str, found: bool) -> (r: Result<OptValue>)
        ensures
            parse_outcome(*self, s@, found, r),
    {
        match self.kind {
            OptKind::Str => Ok(OptValue::from_str(s.to_owned())),
            OptKind::Bool => Ok(OptValue::from_bool(!self.deactivate_style)),
            OptKind::Array => {
                let empty: Vec<String> = Vec::new();
                assert(strings_view(empty@) =~= Seq::<Seq<char>>::empty());
                let mut realv = OptValue::from_vec(empty);
                realv.app_value(s.to_owned());
                assert(seq![s@] =~= Seq::<Seq<char>>::empty().push(s@));
                Ok(realv)
            },
            OptKind::Int => OptValue::parse_int(s),
            OptKind::Uint => OptValue::parse_uint(s),
            OptKind::Path => {
                if !found {
                    return Err(Error::InvaldOptionValue(s.to_owned(), "the path is not eixst".to_owned()));
                }
                Ok(OptValue::from_str(s.to_owned()))
            },
            _ => Ok(OptValue::from_bool(true)),
        }
    }

    /// The prefix the option answers to; non-options have none.
    pub fn prefix_str(&self) -> (r: &str)
        ensures
            r@ == self.spec_prefix(),
    {
        if self.is_opt() {
            self.prefix.as_str()
        } else {
            proof { reveal_strlit(""); }
            ""
        }
    }

    /// The option invokes callbacks of type `t`.
    pub fn accept_callback_type(&self, t: CallbackType) -> (r: bool)
        ensures
            r == (kind_callback(self.kind) == t),
    {
        let own = match self.kind {
            OptKind::Pos => CallbackType::Index,
            OptKind::Cmd | OptKind::Main => CallbackType::Main,
            _ => CallbackType::Value,
        };
        own == t
    }

    /// The option is an option, as opposed to a non-option.
    pub fn is_opt(&self) -> (r: bool)
        ensures
            r == is_opt_kind(self.kind),
    {
        match self.kind {
            OptKind::Pos | OptKind::Cmd | OptKind::Main => false,
            _ => true,
        }
    }
}

/// The file system holds something at `path`.
///
/// Calls `std::path::Path::exists`, whose answer depends on the file system at the
/// time of the call; nothing is claimed of it.
#[verifier::external_body]
fn path_exists(path: &str) -> bool {
    std::path::Path::new(path).exists()
}

impl Type for CommonOpt {
    fn get_type_name(&self) -> (r: &str)
        ensures
            r@ == kind_type_name(self.kind),
    {
        match self.kind {
            OptKind::Str => "str",
            OptKind::Bool => "bool",
            OptKind::Array => "array",
            OptKind::Int => "int",
            OptKind::Uint => "uint",
            OptKind::Path => "path",
            OptKind::Pos => "pos",
            OptKind::Cmd => "cmd",
            OptKind::Main => "main",
        }
    }

    fn is_deactivate_style(&self) -> (r: bool)
        ensures
            r == (self.kind == OptKind::Bool && self.deactivate_style),
    {
        match self.kind {
            OptKind::Bool => self.deactivate_style,
            _ => false,
        }
    }

    fn is_style(&self, style: Style) -> (r: bool)
        ensures
            r == kind_accepts_style(self.kind, style),
    {
        match self.kind {
            OptKind::Bool => style == Style::Boolean || style == Style::Multiple,
            OptKind::Pos => style == Style::Pos,
            OptKind::Cmd => style == Style::Cmd,
            OptKind::Main => style == Style::Main,
            _ => style == Style::Argument,
        }
    }

    /// An option that is not optional needs a value.
    fn check(&self) -> (r: Result<bool>)
        ensures
            !self.optional && !self.spec_has_value() ==> (r matches Err(Error::OptionForceRequired(m))
                && m@ == self.spec_prefix() + self.name@),
            self.optional || self.spec_has_value() ==> r == Ok::<bool, Error>(true),
    {
        if !self.optional && !self.present() {
            let mut m = self.prefix_str().to_owned();
            m.append(self.name.as_str());
            return Err(Error::OptionForceRequired(m));
        }
        Ok(true)
    }
}

impl Identifier for CommonOpt {
    fn id(&self) -> (r: IIdentifier)
        ensures
            r == self.id,
    {
        self.id
    }

    fn set_id(&mut self, id: IIdentifier)
        ensures
            *final(self) == (CommonOpt { id, ..*old(self) }),
    {
        self.id = id;
    }
}

impl Callback for CommonOpt {
    fn callback_type(&self) -> (r: CallbackType)
        ensures
            r == self.callback,
    {
        self.callback
    }

    fn set_callback_type(&mut self, callback_type: CallbackType)
        ensures
            *final(self) == (CommonOpt { callback: callback_type, ..*old(self) }),
    {
        self.callback = callback_type;
    }

    fn is_need_invoke(&self) -> (r: bool)
        ensures
            r == (self.callback != CallbackType::Null),
    {
        !self.callback.is_null()
    }

    /// Mark the callback of the option as due (with the callback type of the kind)
    /// or as done.
    fn set_need_invoke(&mut self, invoke: bool)
        ensures
            *final(self) == (CommonOpt {
                callback: if invoke { kind_callback(old(self).kind) } else { CallbackType::Null },
                ..*old(self)
            }),
    {
        if invoke {
            self.callback = match self.kind {
                OptKind::Pos => CallbackType::Index,
                OptKind::Cmd | OptKind::Main => CallbackType::Main,
                _ => CallbackType::Value,
            };
        } else {
            self.callback = CallbackType::Null;
        }
    }
}

impl Name for CommonOpt {
    fn name(&self) -> (r: &str)
        ensures
            r@ == self.name@,
    {
        self.name.as_str()
    }

    /// Non-options have no prefix.
    fn prefix(&self) -> (r: &str)
        ensures
            r@ == self.spec_prefix(),
    {
        self.prefix_str()
    }

    fn set_name(&mut self, s: &str)
        ensures
            final(self).name@ == s@,
            *final(self) == (CommonOpt { name: final(self).name, ..*old(self) }),
    {
        self.name = s.to_owned();
    }

    /// Non-options ignore the prefix.
    fn set_prefix(&mut self, s: &str)
        ensures
            is_opt_kind(old(self).kind) ==> final(self).prefix@ == s@,
            !is_opt_kind(old(self).kind) ==> final(self).prefix == old(self).prefix,
            *final(self) == (CommonOpt { prefix: final(self).prefix, ..*old(self) }),
    {
        if self.is_opt() {
            self.prefix = s.to_owned();
        }
    }

    /// `pos` and `main` match any name.
    fn match_name(&self, s: &str) -> (r: bool)
        ensures
            r == self.spec_match_name(s@),
    {
        match self.kind {
            OptKind::Pos | OptKind::Main => true,
            _ => str_eq(self.name.as_str(), s),
        }
    }

    fn match_prefix(&self, s: &str) -> (r: bool)
        ensures
            r == (self.spec_prefix() == s@),
    {
        str_eq(self.prefix_str(), s)
    }
}

impl Alias for CommonOpt {
    /// Non-options have no alias.
    fn alias(&self) -> (r: Option<&Vec<(String, String)>>)
        ensures
            is_opt_kind(self.kind) ==> r == Some(&self.alias),
            !is_opt_kind(self.kind) ==> r is None,
    {
        if self.is_opt() {
            Some(&self.alias)
        } else {
            None
        }
    }

    fn add_alias(&mut self, prefix: &str, name: &str)
        ensures
            is_opt_kind(old(self).kind) ==> alias_view(final(self).alias@) == alias_view(old(self).alias@).push((prefix@, name@)),
            !is_opt_kind(old(self).kind) ==> final(self).alias == old(self).alias,
            *final(self) == (CommonOpt { alias: final(self).alias, ..*old(self) }),
    {
        if self.is_opt() {
            let ghost before = self.alias@;
            self.alias.push((prefix.to_owned(), name.to_owned()));
            assert(alias_view(self.alias@) =~= alias_view(before).push((prefix@, name@)));
        }
    }

    /// Remove the first alias `(prefix, name)`, unless its name is the option's
    /// name or its prefix is the option's prefix.
    fn rem_alias(&mut self, prefix: &str, name: &str) -> (r: bool)
        ensures
            ({
                let can = is_opt_kind(old(self).kind) && name@ != old(self).name@ && old(self).prefix@ != prefix@;
                &&& can ==> alias_view(final(self).alias@) == remove_first_alias(alias_view(old(self).alias@), prefix@, name@)
                &&& can ==> r == (first_alias_index(alias_view(old(self).alias@), prefix@, name@) < old(self).alias@.len())
                &&& !can ==> !r && final(self).alias == old(self).alias
            }),
            *final(self) == (CommonOpt { alias: final(self).alias, ..*old(self) }),
    {
        if self.is_opt() && !str_eq(name, self.name.as_str()) && !str_eq(self.prefix.as_str(), prefix) {
            remove_alias(&mut self.alias, prefix, name)
        } else {
            false
        }
    }

    fn match_alias(&self, prefix: &str, name: &str) -> (r: bool)
        ensures
            r == self.spec_match_alias(prefix@, name@),
    {
        if self.is_opt() {
            let k = find_alias(&self.alias, prefix, name);
            k < self.alias.len()
        } else {
            false
        }
    }
}

impl Optional for CommonOpt {
    fn optional(&self) -> (r: bool)
        ensures
            r == self.optional,
    {
        self.optional
    }

    /// `cmd` and `main` keep their optional flag.
    fn set_optional(&mut self, b: bool)
        ensures
            *final(self) == (CommonOpt {
                optional: if old(self).kind == OptKind::Cmd || old(self).kind == OptKind::Main { old(self).optional } else { b },
                ..*old(self)
            }),
    {
        match self.kind {
            OptKind::Cmd | OptKind::Main => {},
            _ => {
                self.optional = b;
            },
        }
    }

    fn match_optional(&self, b: bool) -> (r: bool)
        ensures
            r == (self.optional == b),
    {
        self.optional == b
    }
}

impl Value for CommonOpt {
    /// An array value is appended to the current value, which must then be an array
    /// or nothing.
    open spec fn spec_set_value_ok(&self, v: OptValueView) -> bool {
        self.kind == OptKind::Array && v is Array ==> (self.value@ is Array || self.value@ is Null)
    }

    fn value(&self) -> (r: &OptValue)
        ensures
            *r == self.value,
    {
        &self.value
    }

    fn default_value(&self) -> (r: &OptValue)
        ensures
            *r == self.default_value,
    {
        &self.default_value
    }

    /// Set the value; an `array` option appends an array value to its value and
    /// ignores other values.
    fn set_value(&mut self, v: OptValue)
        ensures
            final(self).value@ == old(self).spec_after_set(v@),
            same_but_value(*final(self), *old(self)),
    {
        match self.kind {
            OptKind::Array => {
                match v {
                    OptValue::Array(add) => {
                        let mut old_value = OptValue::Null;
                        std::mem::swap(&mut old_value, &mut self.value);
                        let mut cur = match old_value {
                            OptValue::Array(c) => c,
                            _ => Vec::new(),
                        };
                        let ghost before = cur@;
                        let mut i: usize = 0;
                        while i < add.len()
                            invariant
                                i <= add.len(),
                                strings_view(cur@) == strings_view(before) + strings_view(add@.subrange(0, i as int)),
                            decreases add.len() - i,
                        {
                            let ghost cur_before = cur@;
                            cur.push(add[i].clone());
                            proof {
                                assert(strings_view(cur@) =~= strings_view(cur_before).push(add@[i as int]@));
                                assert(strings_view(add@.subrange(0, i + 1)) =~= strings_view(add@.subrange(0, i as int)).push(add@[i as int]@));
                                assert(strings_view(cur@) =~= strings_view(before) + strings_view(add@.subrange(0, i + 1)));
                            }
                            i = i + 1;
                        }
                        assert(add@.subrange(0, add@.len() as int) =~= add@);
                        self.value = OptValue::Array(cur);
                    },
                    _ => {},
                }
            },
            _ => {
                self.value = v;
            },
        }
    }

    /// Non-options keep their default value.
    fn set_default_value(&mut self, v: OptValue)
        ensures
            is_opt_kind(old(self).kind) ==> final(self).default_value == v,
            !is_opt_kind(old(self).kind) ==> final(self).default_value == old(self).default_value,
            *final(self) == (CommonOpt { default_value: final(self).default_value, ..*old(self) }),
    {
        if self.is_opt() {
            self.default_value = v;
        }
    }

    /// Parse an argument into a value of the option's type; a `path` option asks
    /// the file system whether the path exists.
    fn parse_value(&self, s: &str) -> (r: Result<OptValue>)
        ensures
            exists|found: bool| parse_outcome(*self, s@, found, r),
            self.kind != OptKind::Path ==> parse_outcome(*self, s@, true, r),
    {
        let found = if self.kind == OptKind::Path { path_exists(s) } else { true };
        self.parse_value_found(s, found)
    }

    fn has_value(&self) -> (r: bool)
        ensures
            r == self.spec_has_value(),
    {
        self.present()
    }

    /// Set the value back to the default value.
    fn reset_value(&mut self)
        ensures
            final(self).value@ == old(self).spec_after_reset(),
            same_but_value(*final(self), *old(self)),
    {
        match self.kind {
            OptKind::Bool => {
                let b = match self.default_value {
                    OptValue::Bool(b) => b,
                    _ => self.deactivate_style,
                };
                self.value = OptValue::from_bool(b);
            },
            OptKind::Array => {
                self.value = OptValue::Null;
                let d = self.default_value.clone();
                self.set_value(d);
            },
            _ => {
                self.value = self.default_value.clone();
            },
        }
    }
}

impl Index for CommonOpt {
    fn index(&self) -> (r: &NonOptIndex)
        ensures
            *r == self.index,
    {
        &self.index
    }

    /// Only `pos` takes a new index.
    fn set_index(&mut self, index: NonOptIndex)
        ensures
            old(self).kind == OptKind::Pos ==> final(self).index == index,
            old(self).kind != OptKind::Pos ==> final(self).index == old(self).index,
            *final(self) == (CommonOpt { index: final(self).index, ..*old(self) }),
    {
        if self.kind == OptKind::Pos {
            self.index = index;
        }
    }

    /// Options and `main` match every position; `pos` and `cmd` match the position
    /// that their index stands for.
    fn match_index(&self, total: u64, current: u64) -> (r: bool)
        ensures
            r == self.spec_match_index(total, current),
    {
        match self.kind {
            OptKind::Pos | OptKind::Cmd => {
                match self.index.calc_index(total, current) {
                    Some(realindex) => realindex == current,
                    None => false,
                }
            },
            _ => true,
        }
    }
}

impl Opt for CommonOpt {

}

/// An alias that was added to an option is one that the option answers to.
pub proof fn law_added_alias_matches(before: CommonOpt, after: CommonOpt, p: Seq<char>, n: Seq<char>)
    requires
        is_opt_kind(before.kind),
        after.kind == before.kind,
        alias_view(after.alias@) == alias_view(before.alias@).push((p, n)),
    ensures
        after.spec_match_alias(p, n),
{
    let v = alias_view(after.alias@);
    assert(v[v.len() - 1] == (p, n));
}

/// The value that a reset gives does not depend on the value the option held:
/// setting any value and then resetting gives what a reset alone gives.
pub proof fn law_reset_ignores_value(o: CommonOpt, p: CommonOpt)
    requires
        same_but_value(p, o),
    ensures
        p.spec_after_reset() == o.spec_after_reset(),
{
}

/// Resetting twice is resetting once.
pub proof fn law_reset_idempotent(o: CommonOpt, after: CommonOpt)
    requires
        same_but_value(after, o),
        after.value@ == o.spec_after_reset(),
    ensures
        after.spec_after_reset() == after.value@,
{
}

/// An option other than a `bool` one that takes a value parsed for it has a value,
/// and so passes the check of required options.
pub proof fn law_parsed_value_present(o: CommonOpt, s: Seq<char>, found: bool, r: Result<OptValue>, after: CommonOpt)
    requires
        is_opt_kind(o.kind),
        o.kind != OptKind::Bool,
        parse_outcome(o, s, found, r),
        r is Ok,
        same_but_value(after, o),
        after.value@ == o.spec_after_set(r->Ok_0@),
    ensures
        after.spec_has_value(),
{
}

} // verus!
