use vstd::prelude::*;

use crate::error::Result;
use crate::opt::{NonOptIndex, NonOptIndexView};
use crate::opt::common::{CommonOpt, is_opt_kind, kind_type_name};
use crate::pattern::{PatternOutcome, spec_parse_pattern};
use crate::arg::{opt_str_view, strings_view};
use crate::text::str_eq;
use super::{parse_opt_string, pattern_error, pattern_wf};
use super::create::type_name_of;

verus! {

/// What an option is looked up by; each part that is set must match.
#[derive(Debug)]
pub struct FilterInfo {
    pub deactivate: Option<bool>,
    pub optional: Option<bool>,
    pub opt_type: Option<String>,
    pub opt_name: Option<String>,
    pub opt_prefix: Option<String>,
    pub opt_index: NonOptIndex,
}

/// Some alias of the option has the prefix `p`.
pub open spec fn alias_has_prefix(o: CommonOpt, p: Seq<char>) -> bool {
    exists|j: int| 0 <= j < o.alias@.len() && (#[trigger] o.alias@[j]).0@ == p
}

/// Some alias of the option has the name `n`.
pub open spec fn alias_has_name(o: CommonOpt, n: Seq<char>) -> bool {
    exists|j: int| 0 <= j < o.alias@.len() && (#[trigger] o.alias@[j]).1@ == n
}

/// The option `o` passes the filter: its type, its prefix (or the prefix of one of
/// its aliases), its name (or the name of one of its aliases) and its index, as far
/// as the filter sets them.
pub open spec fn filter_matches(fi: FilterInfo, o: CommonOpt) -> bool {
    &&& (fi.opt_type matches Some(t) ==> t@ == kind_type_name(o.kind))
    &&& (fi.opt_prefix matches Some(p) ==> (p@ == o.spec_prefix() || (is_opt_kind(o.kind)
        && alias_has_prefix(o, p@))))
    &&& (fi.opt_name matches Some(n) ==> (n@ == o.name@ || (is_opt_kind(o.kind) && alias_has_name(
        o,
        n@,
    ))))
    &&& (!(fi.opt_index@ is Null) ==> fi.opt_index@ == o.index@)
}

fn find_alias_prefix(alias: &Vec<(String, String)>, p: &str) -> (r: bool)
    ensures
        r == exists|j: int| 0 <= j < alias@.len() && (#[trigger] alias@[j]).0@ == p@,
{
    let mut i: usize = 0;
    while i < alias.len()
        invariant
            i <= alias.len(),
            forall|j: int| 0 <= j < i ==> (#[trigger] alias@[j]).0@ != p@,
        decreases alias.len() - i,
    {
        if str_eq(alias[i].0.as_str(), p) {
            return true;
        }
        i = i + 1;
    }
    false
}

fn find_alias_name(alias: &Vec<(String, String)>, n: &str) -> (r: bool)
    ensures
        r == exists|j: int| 0 <= j < alias@.len() && (#[trigger] alias@[j]).1@ == n@,
{
    let mut i: usize = 0;
    while i < alias.len()
        invariant
            i <= alias.len(),
            forall|j: int| 0 <= j < i ==> (#[trigger] alias@[j]).1@ != n@,
        decreases alias.len() - i,
    {
        if str_eq(alias[i].1.as_str(), n) {
            return true;
        }
        i = i + 1;
    }
    false
}

impl FilterInfo {
    /// A filter that every option passes.
    pub fn new() -> (r: Self)
        ensures
            r.deactivate is None,
            r.optional is None,
            r.opt_type is None,
            r.opt_name is None,
            r.opt_prefix is None,
            r.opt_index@ == NonOptIndexView::Null,
    {
        FilterInfo {
            deactivate: None,
            optional: None,
            opt_type: None,
            opt_name: None,
            opt_prefix: None,
            opt_index: NonOptIndex::Null,
        }
    }

    /// A filter from a pattern such as `-o=str`; any part may be left out.
    pub fn parse(opt: &str, prefixs: &Vec<String>) -> (r: Result<Self>)
        requires
            pattern_wf(opt@, prefixs@),
        ensures
            match spec_parse_pattern(opt@, strings_view(prefixs@)) {
                PatternOutcome::Parsed(parts) => r matches Ok(fi) && opt_str_view(fi.opt_type) == parts.opt_type
                    && opt_str_view(fi.opt_name) == parts.name && opt_str_view(fi.opt_prefix) == parts.prefix
                    && fi.deactivate == Some(parts.deactivate) && fi.optional == Some(!parts.force)
                    && fi.opt_index@ == parts.index,
                _ => r matches Err(e) && pattern_error(opt@, prefixs@, e),
            },
    {
        let pr = parse_opt_string(opt, prefixs)?;
        Ok(FilterInfo {
            deactivate: pr.deactivate,
            optional: pr.optional,
            opt_type: pr.opt_type,
            opt_name: pr.opt_name,
            opt_prefix: pr.opt_prefix,
            opt_index: pr.opt_index,
        })
    }

    /// Return true if filter has deactivate style
    pub fn has_deactivate_style(&self) -> (r: bool)
        ensures
            r == self.deactivate is Some,
    {
        self.deactivate.is_some()
    }

    /// Return true if filter has optional
    pub fn has_optional(&self) -> (r: bool)
        ensures
            r == self.optional is Some,
    {
        self.optional.is_some()
    }

    /// Return true if filter has option type name
    pub fn has_type_name(&self) -> (r: bool)
        ensures
            r == self.opt_type is Some,
    {
        self.opt_type.is_some()
    }

    /// Return true if filter has option name
    pub fn has_name(&self) -> (r: bool)
        ensures
            r == self.opt_name is Some,
    {
        self.opt_name.is_some()
    }

    /// Return true if filter has prefix
    pub fn has_prefix(&self) -> (r: bool)
        ensures
            r == self.opt_prefix is Some,
    {
        self.opt_prefix.is_some()
    }

    /// Return true if filter has index
    pub fn has_index(&self) -> (r: bool)
        ensures
            r == !(self.opt_index@ is Null),
    {
        !self.opt_index.is_null()
    }

    /// The deactivate style of the filter, which must be set.
    pub fn is_deactivate_style(&self) -> (r: bool)
        requires
            self.deactivate is Some,
        ensures
            Some(r) == self.deactivate,
    {
        self.deactivate.unwrap()
    }

    /// The optional flag of the filter, which must be set.
    pub fn is_optional(&self) -> (r: bool)
        requires
            self.optional is Some,
        ensures
            Some(r) == self.optional,
    {
        self.optional.unwrap()
    }

    /// The option type name of the filter, which must be set.
    pub fn get_type_name(&self) -> (r: &str)
        requires
            self.opt_type is Some,
        ensures
            r@ == self.opt_type->0@,
    {
        self.opt_type.as_ref().unwrap().as_str()
    }

    /// The option name of the filter, which must be set.
    pub fn get_name(&self) -> (r: &str)
        requires
            self.opt_name is Some,
        ensures
            r@ == self.opt_name->0@,
    {
        self.opt_name.as_ref().unwrap().as_str()
    }

    /// The option prefix of the filter, which must be set.
    pub fn get_prefix(&self) -> (r: &str)
        requires
            self.opt_prefix is Some,
        ensures
            r@ == self.opt_prefix->0@,
    {
        self.opt_prefix.as_ref().unwrap().as_str()
    }

    /// Return the option index
    pub fn get_index(&self) -> (r: &NonOptIndex)
        ensures
            *r == self.opt_index,
    {
        &self.opt_index
    }

    pub fn set_deactivate_style(&mut self, deactivate: bool)
        ensures
            *final(self) == (FilterInfo { deactivate: Some(deactivate), ..*old(self) }),
    {
        self.deactivate = Some(deactivate);
    }

    pub fn set_optional(&mut self, optional: bool)
        ensures
            *final(self) == (FilterInfo { optional: Some(optional), ..*old(self) }),
    {
        self.optional = Some(optional);
    }

    pub fn set_type_name(&mut self, opt_type: String)
        ensures
            *final(self) == (FilterInfo { opt_type: Some(opt_type), ..*old(self) }),
    {
        self.opt_type = Some(opt_type);
    }

    pub fn set_name(&mut self, opt_name: String)
        ensures
            *final(self) == (FilterInfo { opt_name: Some(opt_name), ..*old(self) }),
    {
        self.opt_name = Some(opt_name);
    }

    pub fn set_prefix(&mut self, prefix: String)
        ensures
            *final(self) == (FilterInfo { opt_prefix: Some(prefix), ..*old(self) }),
    {
        self.opt_prefix = Some(prefix);
    }

    pub fn set_index(&mut self, index: NonOptIndex)
        ensures
            *final(self) == (FilterInfo { opt_index: index, ..*old(self) }),
    {
        self.opt_index = index;
    }

    /// The option passes the filter.
    pub fn match_opt(&self, opt: &CommonOpt) -> (r: bool)
        ensures
            r == filter_matches(*self, *opt),
    {
        if let Some(t) = &self.opt_type {
            if !str_eq(t.as_str(), type_name_of(opt.kind)) {
                return false;
            }
        }
        let is_opt = opt.is_opt();
        if let Some(p) = &self.opt_prefix {
            if !str_eq(p.as_str(), opt.prefix_str()) {
                if !(is_opt && find_alias_prefix(&opt.alias, p.as_str())) {
                    return false;
                }
            }
        }
        if let Some(n) = &self.opt_name {
            if !str_eq(n.as_str(), opt.name.as_str()) {
                if !(is_opt && find_alias_name(&opt.alias, n.as_str())) {
                    return false;
                }
            }
        }
        if !self.opt_index.is_null() {
            return self.opt_index.equals(&opt.index);
        }
        true
    }
}

} // verus!
