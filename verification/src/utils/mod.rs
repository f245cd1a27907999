use vstd::prelude::*;

pub mod opt_parser;
pub mod create;
pub mod filter;

use crate::error::{Error, Result};
use crate::opt::{NonOptIndex, NonOptIndexView, OptValue, OptValueView};
use crate::callback::CallbackType;
use crate::pattern::{PatternOutcome, PatternParts, spec_parse_pattern};
use crate::arg::{opt_str_view, strings_view};
use crate::text::str_eq;
pub use self::create::{Utils, create_opt};
pub use self::filter::FilterInfo;
use self::opt_parser::{State, ParserPattern, DataKeeper, parse_answers, parse_result_ok};

verus! {

/// What a pattern holds, as [`parse_opt_string`] hands it back.
#[derive(Debug)]
pub struct ParseResult {
    pub opt_type: Option<String>,
    pub opt_name: Option<String>,
    pub opt_prefix: Option<String>,
    pub deactivate: Option<bool>,
    pub optional: Option<bool>,
    pub opt_index: NonOptIndex,
}

/// The parse result holds the parts of a pattern.
pub open spec fn result_holds(pr: ParseResult, parts: PatternParts) -> bool {
    &&& opt_str_view(pr.opt_type) == parts.opt_type
    &&& opt_str_view(pr.opt_name) == parts.name
    &&& opt_str_view(pr.opt_prefix) == parts.prefix
    &&& pr.deactivate == Some(parts.deactivate)
    &&& pr.optional == Some(!parts.force)
    &&& pr.opt_index@ == parts.index
}

/// The pattern can be parsed without running into an index list that is too short
/// to hold its brackets (`@[`, `@+[` or `@-[` at the end of a pattern).
pub open spec fn pattern_wf(s: Seq<char>, prefixs: Seq<String>) -> bool {
    !(spec_parse_pattern(s, strings_view(prefixs)) is Aborts)
}

/// The errors of a pattern that does not parse.
pub open spec fn pattern_error(s: Seq<char>, prefixs: Seq<String>, e: Error) -> bool {
    match spec_parse_pattern(s, strings_view(prefixs)) {
        PatternOutcome::InvalidStr => e matches Error::InvalidOptionStr(m) && m@ == s,
        PatternOutcome::InvalidIndex => e is InavlidNonOptionIndex,
        _ => false,
    }
}

/// Parse the pattern `<prefix>|<name>=<type>[!][/]@<index>`,
/// such as `-|o=a!`, the force required option `o` with prefix "-" and type `a`;
/// the `|` between prefix and name may be left out.
/// `!` means the option is force required, `/` means the option supports the
/// deactivate style.
pub fn parse_opt_string(pattern: &str, prefix: &Vec<String>) -> (r: Result<ParseResult>)
    requires
        pattern_wf(pattern@, prefix@),
    ensures
        match spec_parse_pattern(pattern@, strings_view(prefix@)) {
            PatternOutcome::Parsed(parts) => r matches Ok(pr) && result_holds(pr, parts),
            _ => r matches Err(e) && pattern_error(pattern@, prefix@, e),
        },
{
    let mut pp = ParserPattern::new(pattern, prefix);
    let mut dk = DataKeeper::new();
    let res = State::new().parse(&mut pp, &mut dk);
    match res {
        Err(e) => Err(e),
        Ok(_) => {
            let opt_index = if dk.forward_index.is_some() {
                NonOptIndex::forward(dk.forward_index.unwrap())
            } else if dk.backward_index.is_some() {
                NonOptIndex::backward(dk.backward_index.unwrap())
            } else if dk.anywhere.unwrap_or(false) {
                NonOptIndex::anywhere()
            } else if dk.list.len() > 0 {
                NonOptIndex::list(dk.list)
            } else if dk.except.len() > 0 {
                NonOptIndex::except(dk.except)
            } else {
                NonOptIndex::null()
            };
            Ok(ParseResult {
                opt_type: dk.opt_type,
                opt_name: dk.name,
                opt_prefix: dk.prefix,
                deactivate: Some(dk.deactivate),
                optional: Some(!dk.optional),
                opt_index,
            })
        },
    }
}

pub open spec fn alias_view(v: Seq<(String, String)>) -> Seq<(Seq<char>, Seq<char>)> {
    v.map_values(|a: (String, String)| (a.0@, a.1@))
}

/// The first position of the alias `(p, n)` in `v`, or the length of `v`.
pub open spec fn first_alias_index(v: Seq<(Seq<char>, Seq<char>)>, p: Seq<char>, n: Seq<char>) -> int
    decreases v.len(),
{
    if v.len() == 0 {
        0
    } else if v[0] == (p, n) {
        0
    } else {
        1 + first_alias_index(v.drop_first(), p, n)
    }
}

pub proof fn lemma_first_alias_index(v: Seq<(Seq<char>, Seq<char>)>, p: Seq<char>, n: Seq<char>, k: int)
    requires
        0 <= k <= v.len(),
        forall|j: int| 0 <= j < k ==> v[j] != (p, n),
        k == v.len() || v[k] == (p, n),
    ensures
        first_alias_index(v, p, n) == k,
    decreases v.len(),
{
    if v.len() > 0 && k > 0 {
        assert forall|j: int| 0 <= j < k - 1 implies v.drop_first()[j] != (p, n) by {
            assert(v.drop_first()[j] == v[j + 1]);
        }
        lemma_first_alias_index(v.drop_first(), p, n, k - 1);
    }
}

/// The first position of an alias is a position of `v`, exactly when `v` holds it.
pub proof fn lemma_first_alias_contains(v: Seq<(Seq<char>, Seq<char>)>, p: Seq<char>, n: Seq<char>)
    ensures
        0 <= first_alias_index(v, p, n) <= v.len(),
        (first_alias_index(v, p, n) < v.len()) <==> v.contains((p, n)),
        first_alias_index(v, p, n) < v.len() ==> v[first_alias_index(v, p, n)] == (p, n),
    decreases v.len(),
{
    if v.len() > 0 && v[0] != (p, n) {
        let rest = v.drop_first();
        lemma_first_alias_contains(rest, p, n);
        if v.contains((p, n)) {
            let j = choose|j: int| 0 <= j < v.len() && v[j] == (p, n);
            assert(rest[j - 1] == v[j]);
        }
        if rest.contains((p, n)) {
            let j = choose|j: int| 0 <= j < rest.len() && rest[j] == (p, n);
            assert(v[j + 1] == rest[j]);
        }
    } else if v.len() > 0 {
        assert(v[0] == (p, n));
    }
}

/// `v` with its first alias `(p, n)` removed, if it has one.
pub open spec fn remove_first_alias(v: Seq<(Seq<char>, Seq<char>)>, p: Seq<char>, n: Seq<char>) -> Seq<(Seq<char>, Seq<char>)> {
    let k = first_alias_index(v, p, n);
    if k < v.len() { v.remove(k) } else { v }
}

/// Adding an alias that was not there and then removing it gives back the aliases
/// as they were.
pub proof fn law_alias_add_rem(v: Seq<(Seq<char>, Seq<char>)>, p: Seq<char>, n: Seq<char>)
    requires
        !v.contains((p, n)),
    ensures
        remove_first_alias(v.push((p, n)), p, n) == v,
{
    let w = v.push((p, n));
    assert forall|j: int| 0 <= j < v.len() implies w[j] != (p, n) by {
        assert(w[j] == v[j]);
    }
    lemma_first_alias_index(w, p, n, v.len() as int);
    assert(w.remove(v.len() as int) =~= v);
}

/// The position of the first alias `(prefix, name)` in `alias`, or its length.
pub fn find_alias(alias: &Vec<(String, String)>, prefix: &str, name: &str) -> (r: usize)
    ensures
        r == first_alias_index(alias_view(alias@), prefix@, name@),
        r <= alias@.len(),
        (r < alias@.len()) <==> alias_view(alias@).contains((prefix@, name@)),
{
    proof { lemma_first_alias_contains(alias_view(alias@), prefix@, name@); }
    let ghost av = alias_view(alias@);
    let mut i: usize = 0;
    while i < alias.len()
        invariant
            i <= alias.len(),
            av == alias_view(alias@),
            forall|j: int| 0 <= j < i ==> av[j] != (prefix@, name@),
        decreases alias.len() - i,
    {
        let a = &alias[i];
        assert(av[i as int] == (a.0@, a.1@));
        if str_eq(a.0.as_str(), prefix) && str_eq(a.1.as_str(), name) {
            proof { lemma_first_alias_index(av, prefix@, name@, i as int); }
            return i;
        }
        i = i + 1;
    }
    proof { lemma_first_alias_index(av, prefix@, name@, i as int); }
    i
}

/// Remove the first alias `(prefix, name)` from `alias`; true if there was one.
pub fn remove_alias(alias: &mut Vec<(String, String)>, prefix: &str, name: &str) -> (r: bool)
    ensures
        alias_view(final(alias)@) == remove_first_alias(alias_view(old(alias)@), prefix@, name@),
        r == (first_alias_index(alias_view(old(alias)@), prefix@, name@) < old(alias)@.len()),
{
    let k = find_alias(alias, prefix, name);
    if k < alias.len() {
        let ghost before = alias@;
        alias.remove(k);
        proof {
            assert(alias_view(alias@) =~= alias_view(before).remove(k as int));
        }
        true
    } else {
        false
    }
}

/// The information that an option is created from.
#[derive(Debug)]
pub struct CreateInfo {
    pub deactivate: bool,
    pub optional: bool,
    pub opt_type: String,
    pub opt_name: String,
    pub opt_prefix: String,
    pub opt_index: NonOptIndex,
    pub opt_alias: Vec<(String, String)>,
    pub opt_value: OptValue,
    pub opt_callback_type: CallbackType,
}

impl CreateInfo {
    pub fn new(
        opt_type: String,
        name: String,
        prefix: String,
        index: NonOptIndex,
        deactivate_style: bool,
        optional: bool,
        deafult_value: OptValue,
        opt_callback_type: CallbackType,
    ) -> (r: Self)
        ensures
            r.opt_type == opt_type,
            r.opt_name == name,
            r.opt_prefix == prefix,
            r.opt_index == index,
            r.deactivate == deactivate_style,
            r.optional == optional,
            r.opt_alias@.len() == 0,
            r.opt_value == deafult_value,
            r.opt_callback_type == opt_callback_type,
    {
        Self {
            opt_type,
            opt_name: name,
            opt_prefix: prefix,
            opt_index: index,
            deactivate: deactivate_style,
            optional,
            opt_alias: Vec::new(),
            opt_value: deafult_value,
            opt_callback_type,
        }
    }

    /// Create the information from a pattern such as `--name=str!`.
    ///
    /// The pattern needs a type and a name; it has no prefix when it starts with
    /// none of `prefixs`. Without a `!` the option is optional.
    pub fn parse(s: &str, prefixs: &Vec<String>) -> (r: Result<Self>)
        requires
            pattern_wf(s@, prefixs@),
        ensures
            match spec_parse_pattern(s@, strings_view(prefixs@)) {
                PatternOutcome::Parsed(parts) => if parts.opt_type is None {
                    r matches Err(Error::NullOptionType)
                } else if parts.name is None {
                    r matches Err(Error::NullOptionName)
                } else {
                    r matches Ok(ci) && ci.opt_type@ == parts.opt_type->0 && ci.opt_name@ == parts.name->0
                        && ci.opt_prefix@ == (match parts.prefix {
                        Some(p) => p,
                        None => Seq::<char>::empty(),
                    }) && ci.opt_index@ == parts.index && ci.deactivate == parts.deactivate
                        && ci.optional == !parts.force && ci.opt_alias@.len() == 0
                        && ci.opt_value@ == OptValueView::Null && ci.opt_callback_type == CallbackType::Null
                },
                _ => r matches Err(e) && pattern_error(s@, prefixs@, e),
            },
    {
        let pr = parse_opt_string(s, prefixs)?;
        let opt_type = match pr.opt_type {
            Some(t) => t,
            None => {
                return Err(Error::NullOptionType);
            },
        };
        let opt_name = match pr.opt_name {
            Some(n) => n,
            None => {
                return Err(Error::NullOptionName);
            },
        };
        Ok(Self {
            opt_type,
            opt_name,
            opt_prefix: match pr.opt_prefix {
                Some(p) => p,
                None => String::new(),
            },
            opt_index: pr.opt_index,
            deactivate: pr.deactivate.unwrap_or(false),
            optional: pr.optional.unwrap_or(true),
            opt_alias: Vec::new(),
            opt_value: OptValue::Null,
            opt_callback_type: CallbackType::Null,
        })
    }

    /// Check that the information names a type and an option.
    pub fn check(&self) -> (r: Result<bool>)
        ensures
            self.opt_type@.len() == 0 ==> r matches Err(Error::NullOptionType),
            self.opt_type@.len() != 0 && self.opt_name@.len() == 0 ==> r matches Err(Error::NullOptionName),
            self.opt_type@.len() != 0 && self.opt_name@.len() != 0 ==> r == Ok::<bool, Error>(true),
    {
        if self.opt_type.as_str().unicode_len() == 0 {
            Err(Error::NullOptionType)
        } else if self.opt_name.as_str().unicode_len() == 0 {
            Err(Error::NullOptionName)
        } else {
            Ok(true)
        }
    }

    /// Return true if the option support `-/a` style disable the option
    pub fn is_deactivate_style(&self) -> (r: bool)
        ensures
            r == self.deactivate,
    {
        self.deactivate
    }

    /// Return true if the option is optional
    pub fn is_optional(&self) -> (r: bool)
        ensures
            r == self.optional,
    {
        self.optional
    }

    /// Return the option type name
    pub fn get_type_name(&self) -> (r: &str)
        ensures
            r@ == self.opt_type@,
    {
        self.opt_type.as_str()
    }

    /// Return the option name
    pub fn get_name(&self) -> (r: &str)
        ensures
            r@ == self.opt_name@,
    {
        self.opt_name.as_str()
    }

    /// Return the option prefix
    pub fn get_prefix(&self) -> (r: &str)
        ensures
            r@ == self.opt_prefix@,
    {
        self.opt_prefix.as_str()
    }

    /// Return the option index
    pub fn get_index(&self) -> (r: &NonOptIndex)
        ensures
            *r == self.opt_index,
    {
        &self.opt_index
    }

    /// Return the option alias
    pub fn get_alias(&self) -> (r: &Vec<(String, String)>)
        ensures
            *r == self.opt_alias,
    {
        &self.opt_alias
    }

    pub fn get_default_value(&self) -> (r: &OptValue)
        ensures
            *r == self.opt_value,
    {
        &self.opt_value
    }

    pub fn get_callback_type(&self) -> (r: &CallbackType)
        ensures
            *r == self.opt_callback_type,
    {
        &self.opt_callback_type
    }

    pub fn set_deactivate_style(&mut self, deactivate: bool)
        ensures
            *final(self) == (CreateInfo { deactivate, ..*old(self) }),
    {
        self.deactivate = deactivate;
    }

    pub fn set_optional(&mut self, optional: bool)
        ensures
            *final(self) == (CreateInfo { optional, ..*old(self) }),
    {
        self.optional = optional;
    }

    pub fn set_type_name(&mut self, opt_type: &str)
        ensures
            final(self).opt_type@ == opt_type@,
            final(self).opt_name == old(self).opt_name,
            final(self).opt_prefix == old(self).opt_prefix,
            final(self).opt_index == old(self).opt_index,
            final(self).opt_alias == old(self).opt_alias,
            final(self).deactivate == old(self).deactivate,
            final(self).optional == old(self).optional,
            final(self).opt_value == old(self).opt_value,
            final(self).opt_callback_type == old(self).opt_callback_type,
    {
        self.opt_type = opt_type.to_owned();
    }

    pub fn set_name(&mut self, opt_name: &str)
        ensures
            final(self).opt_name@ == opt_name@,
            final(self).opt_type == old(self).opt_type,
            final(self).opt_prefix == old(self).opt_prefix,
            final(self).opt_index == old(self).opt_index,
            final(self).opt_alias == old(self).opt_alias,
            final(self).deactivate == old(self).deactivate,
            final(self).optional == old(self).optional,
            final(self).opt_value == old(self).opt_value,
            final(self).opt_callback_type == old(self).opt_callback_type,
    {
        self.opt_name = opt_name.to_owned();
    }

    pub fn set_prefix(&mut self, prefix: &str)
        ensures
            final(self).opt_prefix@ == prefix@,
            final(self).opt_type == old(self).opt_type,
            final(self).opt_name == old(self).opt_name,
            final(self).opt_index == old(self).opt_index,
            final(self).opt_alias == old(self).opt_alias,
            final(self).deactivate == old(self).deactivate,
            final(self).optional == old(self).optional,
            final(self).opt_value == old(self).opt_value,
            final(self).opt_callback_type == old(self).opt_callback_type,
    {
        self.opt_prefix = prefix.to_owned();
    }

    pub fn set_index(&mut self, index: NonOptIndex)
        ensures
            *final(self) == (CreateInfo { opt_index: index, ..*old(self) }),
    {
        self.opt_index = index;
    }

    pub fn set_deafult_value(&mut self, value: OptValue)
        ensures
            *final(self) == (CreateInfo { opt_value: value, ..*old(self) }),
    {
        self.opt_value = value;
    }

    pub fn set_callback_type(&mut self, callback_type: CallbackType)
        ensures
            *final(self) == (CreateInfo { opt_callback_type: callback_type, ..*old(self) }),
    {
        self.opt_callback_type = callback_type;
    }

    pub fn add_alias(&mut self, prefix: &str, name: &str)
        ensures
            alias_view(final(self).opt_alias@) == alias_view(old(self).opt_alias@).push((prefix@, name@)),
            final(self).opt_type == old(self).opt_type,
            final(self).opt_name == old(self).opt_name,
            final(self).opt_prefix == old(self).opt_prefix,
            final(self).opt_index == old(self).opt_index,
            final(self).deactivate == old(self).deactivate,
            final(self).optional == old(self).optional,
            final(self).opt_value == old(self).opt_value,
            final(self).opt_callback_type == old(self).opt_callback_type,
    {
        let ghost before = self.opt_alias@;
        self.opt_alias.push((prefix.to_owned(), name.to_owned()));
        assert(alias_view(self.opt_alias@) =~= alias_view(before).push((prefix@, name@)));
    }

    /// Remove the first alias `(prefix, name)`, if there is one.
    pub fn rem_alias(&mut self, prefix: &str, name: &str)
        ensures
            alias_view(final(self).opt_alias@) == remove_first_alias(alias_view(old(self).opt_alias@), prefix@, name@),
            final(self).opt_type == old(self).opt_type,
            final(self).opt_name == old(self).opt_name,
            final(self).opt_prefix == old(self).opt_prefix,
            final(self).opt_index == old(self).opt_index,
            final(self).deactivate == old(self).deactivate,
            final(self).optional == old(self).optional,
            final(self).opt_value == old(self).opt_value,
            final(self).opt_callback_type == old(self).opt_callback_type,
    {
        remove_alias(&mut self.opt_alias, prefix, name);
    }

    pub fn clr_alias(&mut self)
        ensures
            final(self).opt_alias@.len() == 0,
            final(self).opt_type == old(self).opt_type,
            final(self).opt_name == old(self).opt_name,
            final(self).opt_prefix == old(self).opt_prefix,
            final(self).opt_index == old(self).opt_index,
            final(self).deactivate == old(self).deactivate,
            final(self).optional == old(self).optional,
            final(self).opt_value == old(self).opt_value,
            final(self).opt_callback_type == old(self).opt_callback_type,
    {
        self.opt_alias.clear();
    }
}

} // verus!
