use vstd::prelude::*;

use crate::error::{Error, Result};
use crate::id::Identifier;
use crate::opt::{NonOptIndex, OptValue, OptionInfo, Type, Value};
use crate::opt::common::{CommonOpt, OptKind, kind_type_name, same_but_value};
use crate::pattern::{PatternOutcome, spec_parse_pattern};
use crate::arg::strings_view;
use crate::text::str_eq;
use crate::utils::{CreateInfo, FilterInfo, Utils, create_opt, pattern_error, pattern_wf};
use crate::utils::create::{create_outcome, kind_from_name, kind_of_name, type_name_of};
use crate::utils::filter::filter_matches;

verus! {

/// Something that receives the information of the options of a set.
pub trait Publisher {
    /// The information kept, in the order it came.
    spec fn spec_infos(&self) -> Seq<OptionInfo>;

    /// Keep the information of an option.
    fn reg_subscriber(&mut self, info: OptionInfo)
        ensures
            final(self).spec_infos() == old(self).spec_infos().push(info),
    ;

    /// Forget the information of every option.
    fn clean(&mut self)
        ensures
            final(self).spec_infos().len() == 0,
    ;
}

/// Something that hands the information of its options to a publisher.
pub trait Subscriber {
    /// The information handed out, in order.
    spec fn spec_subscribed(&self) -> Seq<OptionInfo>;

    /// The subscriber is in a state to hand out its information.
    spec fn spec_can_subscribe(&self) -> bool;

    fn subscribe_from<P: Publisher>(&self, publisher: &mut P)
        requires
            self.spec_can_subscribe(),
        ensures
            final(publisher).spec_infos() == old(publisher).spec_infos() + self.spec_subscribed(),
    ;
}

/// The information of the options, in order.
pub open spec fn infos_of(opts: Seq<CommonOpt>) -> Seq<OptionInfo> {
    opts.map_values(|o: CommonOpt| OptionInfo { id: o.id })
}

/// The options, the option types that can be created, and the prefixes that
/// arguments are split by.
#[derive(Debug)]
pub struct DefaultSet {
    pub opts: Vec<CommonOpt>,
    pub utils: Vec<OptKind>,
    pub prefixs: Vec<String>,
}

/// The options of `s` whose type can be created are those of `kinds`.
pub open spec fn kinds_cover(opts: Seq<CommonOpt>, kinds: Seq<OptKind>) -> bool {
    forall|i: int| 0 <= i < opts.len() ==> kinds.contains(#[trigger] opts[i].kind)
}

/// The options of `a` and `b` differ in their values at most.
pub open spec fn same_but_values(a: Seq<CommonOpt>, b: Seq<CommonOpt>) -> bool {
    &&& a.len() == b.len()
    &&& forall|i: int| 0 <= i < a.len() ==> same_but_value(#[trigger] a[i], b[i])
}

/// Every option sits at the position that its identifier names, so that
/// `get_opt(id)` finds the option whose identifier is `id`.
pub open spec fn ids_in_place(opts: Seq<CommonOpt>) -> bool {
    forall|i: int| 0 <= i < opts.len() ==> (#[trigger] opts[i]).id == Identifier(i as u64)
}

/// An option added with the next identifier keeps every option at the position its
/// identifier names, and is found under its identifier.
pub proof fn law_added_option_in_place(before: Seq<CommonOpt>, after: Seq<CommonOpt>, id: Identifier)
    requires
        ids_in_place(before),
        id == Identifier(before.len() as u64),
        before.len() < u64::MAX,
        after.len() == before.len() + 1,
        after.drop_last() == before,
        after.last().id == id,
    ensures
        ids_in_place(after),
        after[id.0 as int] == after.last(),
{
    assert forall|i: int| 0 <= i < after.len() implies (#[trigger] after[i]).id == Identifier(i as u64) by {
        if i < before.len() {
            assert(after[i] == after.drop_last()[i]);
        }
    }
}

/// Resetting the values keeps every option at the position its identifier names.
pub proof fn law_reset_keeps_ids(before: Seq<CommonOpt>, after: Seq<CommonOpt>)
    requires
        ids_in_place(before),
        same_but_values(after, before),
    ensures
        ids_in_place(after),
{
    assert forall|i: int| 0 <= i < after.len() implies (#[trigger] after[i]).id == Identifier(i as u64) by {
        assert(same_but_value(after[i], before[i]));
    }
}

/// `i` is the position of the first option of `opts` that passes the filter.
pub open spec fn first_passing(opts: Seq<CommonOpt>, fi: FilterInfo, i: int) -> bool {
    &&& 0 <= i < opts.len()
    &&& filter_matches(fi, opts[i])
    &&& forall|j: int| 0 <= j < i ==> !filter_matches(fi, #[trigger] opts[j])
}

/// The options that pass the filter, in order.
pub open spec fn filtered(opts: Seq<CommonOpt>, fi: FilterInfo) -> Seq<CommonOpt> {
    opts.filter(|o: CommonOpt| filter_matches(fi, o))
}

/// Every prefix that an option of `opts` answers to, by itself or by an alias.
pub open spec fn answers_prefix(opts: Seq<CommonOpt>, p: Seq<char>) -> bool {
    exists|i: int| 0 <= i < opts.len() && {
        ||| (#[trigger] opts[i]).spec_prefix() == p
        ||| (crate::opt::common::is_opt_kind(opts[i].kind) && some_alias_prefix(opts[i].alias@, p))
    }
}

fn index_of_kind(kinds: &Vec<OptKind>, k: OptKind) -> (r: usize)
    ensures
        r <= kinds@.len(),
        r < kinds@.len() ==> kinds@[r as int] == k,
        r == kinds@.len() <==> !kinds@.contains(k),
        forall|j: int| 0 <= j < r ==> kinds@[j] != k,
{
    let mut i: usize = 0;
    while i < kinds.len()
        invariant
            i <= kinds@.len(),
            forall|j: int| 0 <= j < i ==> kinds@[j] != k,
        decreases kinds@.len() - i,
    {
        if kinds[i] == k {
            return i;
        }
        i = i + 1;
    }
    i
}

fn has_string(v: &Vec<String>, s: &str) -> (r: bool)
    ensures
        r == strings_view(v@).contains(s@),
{
    let mut i: usize = 0;
    while i < v.len()
        invariant
            i <= v@.len(),
            forall|j: int| 0 <= j < i ==> v@[j]@ != s@,
        decreases v@.len() - i,
    {
        if str_eq(v[i].as_str(), s) {
            assert(strings_view(v@)[i as int] == s@);
            return true;
        }
        i = i + 1;
    }
    proof {
        if strings_view(v@).contains(s@) {
            let j = choose|j: int| 0 <= j < strings_view(v@).len() && strings_view(v@)[j] == s@;
            assert(v@[j]@ == s@);
        }
    }
    false
}

/// No string occurs twice in `v`.
pub open spec fn distinct_strings(v: Seq<String>) -> bool {
    forall|a: int, b: int| 0 <= a < b < v.len() ==> (#[trigger] v[a])@ != (#[trigger] v[b])@
}

/// Add `s` to `v` unless it is there already.
fn push_unique(v: &mut Vec<String>, s: &str)
    requires
        distinct_strings(old(v)@),
    ensures
        distinct_strings(final(v)@),
        forall|p: Seq<char>| strings_view(final(v)@).contains(p) <==> (strings_view(old(v)@).contains(p) || p == s@),
{
    let ghost before = v@;
    let found = has_string(v, s);
    if !found {
        v.push(s.to_owned());
        proof {
            assert(strings_view(v@) =~= strings_view(before).push(s@));
            assert forall|a: int, b: int| 0 <= a < b < v@.len() implies (#[trigger] v@[a])@ != (#[trigger] v@[b])@ by {
                if b == before.len() {
                    assert(strings_view(before)[a] == v@[a]@);
                }
            }
        }
    }
    proof {
        assert forall|p: Seq<char>| strings_view(v@).contains(p) <==> (strings_view(before).contains(p) || p == s@) by {
            if strings_view(v@).contains(p) {
                let k = choose|k: int| 0 <= k < strings_view(v@).len() && strings_view(v@)[k] == p;
                if k < before.len() {
                    assert(strings_view(before)[k] == p);
                }
            }
            if strings_view(before).contains(p) {
                let k = choose|k: int| 0 <= k < strings_view(before).len() && strings_view(before)[k] == p;
                assert(strings_view(v@)[k] == p);
            }
            if p == s@ && !found {
                assert(strings_view(v@)[before.len() as int] == p);
            }
        }
    }
}

/// Some alias of `alias` has the prefix `p`.
pub open spec fn some_alias_prefix(alias: Seq<(String, String)>, p: Seq<char>) -> bool {
    exists|k: int| 0 <= k < alias.len() && (#[trigger] alias[k]).0@ == p
}

/// Add the prefix of every alias to `v`, unless it is there already.
fn push_alias_prefixes(v: &mut Vec<String>, alias: &Vec<(String, String)>)
    requires
        distinct_strings(old(v)@),
    ensures
        distinct_strings(final(v)@),
        forall|p: Seq<char>| #![trigger strings_view(final(v)@).contains(p)] strings_view(final(v)@).contains(p) <==> (strings_view(old(v)@).contains(p)
            || some_alias_prefix(alias@, p)),
{
    let ghost start = v@;
    let mut j: usize = 0;
    while j < alias.len()
        invariant
            j <= alias@.len(),
            start == old(v)@,
            forall|p: Seq<char>| strings_view(v@).contains(p) <==> (strings_view(start).contains(p)
                || some_alias_prefix(alias@.take(j as int), p)),
            distinct_strings(v@),
        decreases alias@.len() - j,
    {
        let ghost inner = v@;
        assert(forall|p: Seq<char>| strings_view(inner).contains(p) <==> (strings_view(start).contains(p)
                || some_alias_prefix(alias@.take(j as int), p)));
        let a = alias[j].0.as_str();
        assert(a@ == alias@[j as int].0@);
        push_unique(v, a);
        proof {
            let t = alias@.take(j as int);
            let t1 = alias@.take(j + 1);
            assert(t1 =~= t.push(alias@[j as int]));
            assert forall|p: Seq<char>| some_alias_prefix(t1, p) <==> (some_alias_prefix(t, p) || p == alias@[j as int].0@) by {
                if some_alias_prefix(t1, p) {
                    let k = choose|k: int| 0 <= k < t1.len() && (#[trigger] t1[k]).0@ == p;
                    if k < j {
                        assert(t[k] == t1[k]);
                    }
                }
                if some_alias_prefix(t, p) {
                    let k = choose|k: int| 0 <= k < t.len() && (#[trigger] t[k]).0@ == p;
                    assert(t1[k] == t[k]);
                }
                if p == alias@[j as int].0@ {
                    assert(t1[j as int] == alias@[j as int]);
                }
            }
            assert forall|p: Seq<char>| strings_view(v@).contains(p) <==> (strings_view(start).contains(p)
                || some_alias_prefix(t1, p)) by {
                assert(strings_view(v@).contains(p) <==> (strings_view(inner).contains(p) || p == a@));
                assert(strings_view(inner).contains(p) <==> (strings_view(start).contains(p) || some_alias_prefix(t, p)));
                assert(some_alias_prefix(t1, p) <==> (some_alias_prefix(t, p) || p == alias@[j as int].0@));
            }
        }
        j = j + 1;
    }
    assert(alias@.take(alias@.len() as int) =~= alias@);
}

/// The kinds that the set knows by default: all of them.
pub open spec fn all_kinds() -> Seq<OptKind> {
    seq![
        OptKind::Str,
        OptKind::Bool,
        OptKind::Array,
        OptKind::Int,
        OptKind::Uint,
        OptKind::Path,
        OptKind::Pos,
        OptKind::Cmd,
        OptKind::Main,
    ]
}

impl DefaultSet {
    pub fn new() -> (r: Self)
        ensures
            r.opts@.len() == 0,
            r.utils@.len() == 0,
            r.prefixs@.len() == 0,
    {
        DefaultSet { opts: Vec::new(), utils: Vec::new(), prefixs: Vec::new() }
    }

    /// Make every option type known to the set.
    pub fn initialize_utils(&mut self)
        ensures
            final(self).utils@ == all_kinds(),
            final(self).opts == old(self).opts,
            final(self).prefixs == old(self).prefixs,
    {
        let mut v: Vec<OptKind> = Vec::new();
        v.push(OptKind::Str);
        v.push(OptKind::Bool);
        v.push(OptKind::Array);
        v.push(OptKind::Int);
        v.push(OptKind::Uint);
        v.push(OptKind::Path);
        v.push(OptKind::Pos);
        v.push(OptKind::Cmd);
        v.push(OptKind::Main);
        assert(v@ =~= all_kinds());
        self.utils = v;
    }

    /// Split arguments by the prefixes `--` and `-`, tried in that order.
    pub fn initialize_prefixs(&mut self)
        ensures
            strings_view(final(self).prefixs@) == seq!["--"@, "-"@],
            final(self).opts == old(self).opts,
            final(self).utils == old(self).utils,
    {
        let mut v: Vec<String> = Vec::new();
        v.push("--".to_owned());
        v.push("-".to_owned());
        assert(strings_view(v@) =~= seq!["--"@, "-"@]);
        self.prefixs = v;
    }

    /// Add a prefix, tried after those before it.
    pub fn app_prefix(&mut self, prefix: String)
        ensures
            final(self).prefixs@ == old(self).prefixs@.push(prefix),
            final(self).opts == old(self).opts,
            final(self).utils == old(self).utils,
    {
        self.prefixs.push(prefix);
    }

    /// The prefixes that arguments are split by.
    pub fn get_prefix(&self) -> (r: &Vec<String>)
        ensures
            *r == self.prefixs,
    {
        &self.prefixs
    }

    /// Make the option type of `utils` known; a type is known once.
    pub fn add_utils<U: Utils>(&mut self, utils: U) -> (r: Result<bool>)
        ensures
            old(self).utils@.contains(utils.spec_kind()) ==> (r matches Err(Error::DuplicateOptionType(m))
                && m@ == kind_type_name(utils.spec_kind())) && final(self).utils == old(self).utils,
            !old(self).utils@.contains(utils.spec_kind()) ==> r == Ok::<bool, Error>(true)
                && final(self).utils@ == old(self).utils@.push(utils.spec_kind()),
            final(self).opts == old(self).opts,
            final(self).prefixs == old(self).prefixs,
    {
        let kind = utils_kind(&utils);
        if index_of_kind(&self.utils, kind) < self.utils.len() {
            Err(Error::DuplicateOptionType(utils.get_type_name().to_owned()))
        } else {
            self.utils.push(kind);
            Ok(true)
        }
    }

    /// Forget the option type named `tname`.
    pub fn rem_utils(&mut self, tname: &str) -> (r: Result<bool>)
        ensures
            match kind_of_name(tname@) {
                Some(kk) => if old(self).utils@.contains(kk) {
                    r == Ok::<bool, Error>(true) && final(self).utils@ == old(self).utils@.remove(
                        old(self).utils@.index_of_first(kk)->0,
                    )
                } else {
                    (r matches Err(Error::InvalidOptionType(m)) && m@ == tname@) && final(self).utils
                        == old(self).utils
                },
                None => (r matches Err(Error::InvalidOptionType(m)) && m@ == tname@) && final(self).utils
                    == old(self).utils,
            },
            final(self).opts == old(self).opts,
            final(self).prefixs == old(self).prefixs,
    {
        match kind_from_name(tname) {
            Some(kind) => {
                let i = index_of_kind(&self.utils, kind);
                if i < self.utils.len() {
                    proof {
                        lemma_first_index(self.utils@, kind, i as int);
                    }
                    self.utils.remove(i);
                    Ok(true)
                } else {
                    Err(Error::InvalidOptionType(tname.to_owned()))
                }
            },
            None => Err(Error::InvalidOptionType(tname.to_owned())),
        }
    }

    /// The option type named `tname`, if the set knows it.
    pub fn get_utils(&self, tname: &str) -> (r: Option<OptKind>)
        ensures
            r == (match kind_of_name(tname@) {
                Some(k) => if self.utils@.contains(k) { Some(k) } else { None },
                None => None,
            }),
    {
        match kind_from_name(tname) {
            Some(kind) => {
                if index_of_kind(&self.utils, kind) < self.utils.len() {
                    Some(kind)
                } else {
                    None
                }
            },
            None => None,
        }
    }

    /// Start adding the option described by the pattern `opt`.
    pub fn add_opt(&mut self, opt: &str) -> (r: Result<Commit<'_>>)
        requires
            pattern_wf(opt@, old(self).prefixs@),
        ensures
            match spec_parse_pattern(opt@, strings_view(old(self).prefixs@)) {
                PatternOutcome::Parsed(parts) => if parts.opt_type is None {
                    r matches Err(Error::NullOptionType)
                } else if parts.name is None {
                    r matches Err(Error::NullOptionName)
                } else {
                    r matches Ok(c) && c.create_info.opt_type@ == parts.opt_type->0
                        && c.create_info.opt_name@ == parts.name->0
                },
                _ => r matches Err(e) && pattern_error(opt@, old(self).prefixs@, e),
            },
    {
        let ci = CreateInfo::parse(opt, &self.prefixs)?;
        Ok(Commit::new(self, ci))
    }

    /// Add the option described by `ci`, with the next identifier.
    pub fn add_opt_ci(&mut self, ci: &CreateInfo) -> (r: Result<Identifier>)
        requires
            old(self).opts@.len() < u64::MAX,
        ensures
            ({
                let id = Identifier(old(self).opts@.len() as u64);
                match kind_of_name(ci.opt_type@) {
                    Some(k) => if old(self).utils@.contains(k) {
                        match r {
                            Ok(i) => i == id && final(self).opts@.len() == old(self).opts@.len() + 1
                                && final(self).opts@.drop_last() == old(self).opts@
                                && create_outcome(k, id, *ci, Ok(final(self).opts@.last())),
                            Err(e) => final(self).opts == old(self).opts && create_outcome(k, id, *ci, Err(e)),
                        }
                    } else {
                        (r matches Err(Error::InvalidOptionType(m)) && m@ == ci.opt_type@)
                            && final(self).opts == old(self).opts
                    },
                    None => (r matches Err(Error::InvalidOptionType(m)) && m@ == ci.opt_type@)
                        && final(self).opts == old(self).opts,
                }
            }),
            final(self).utils == old(self).utils,
            final(self).prefixs == old(self).prefixs,
    {
        let id = Identifier::new(self.opts.len() as u64);
        match self.get_utils(ci.opt_type.as_str()) {
            Some(kind) => {
                let opt = create_opt(kind, id, ci)?;
                let ghost before = self.opts@;
                self.opts.push(opt);
                assert(self.opts@.drop_last() =~= before);
                Ok(id)
            },
            None => Err(Error::InvalidOptionType(ci.opt_type.clone())),
        }
    }

    /// Add the option as it is, with the next identifier.
    pub fn add_opt_raw(&mut self, opt: CommonOpt) -> (r: Result<Identifier>)
        requires
            old(self).opts@.len() < u64::MAX,
        ensures
            r == Ok::<Identifier, Error>(Identifier(old(self).opts@.len() as u64)),
            final(self).opts@ == old(self).opts@.push(CommonOpt { id: Identifier(old(self).opts@.len() as u64), ..opt }),
            final(self).utils == old(self).utils,
            final(self).prefixs == old(self).prefixs,
    {
        let mut opt = opt;
        let id = Identifier::new(self.opts.len() as u64);
        opt.id = id;
        self.opts.push(opt);
        Ok(id)
    }

    /// The option at position `id`.
    pub fn get_opt(&self, id: Identifier) -> (r: Option<&CommonOpt>)
        ensures
            r is Some <==> id.0 < self.opts@.len(),
            r matches Some(o) ==> *o == self.opts@[id.0 as int],
    {
        if id.0 < self.opts.len() as u64 {
            Some(&self.opts[id.0 as usize])
        } else {
            None
        }
    }

    /// The option at position `id`, to change in place.
    pub fn get_opt_mut(&mut self, id: Identifier) -> (r: Option<&mut CommonOpt>)
        ensures
            r is Some <==> id.0 < old(self).opts@.len(),
            r matches Some(o) ==> *o == old(self).opts@[id.0 as int]
                && final(self).opts@ == old(self).opts@.update(id.0 as int, *final(o)),
            final(self).utils == old(self).utils,
            final(self).prefixs == old(self).prefixs,
            r is None ==> final(self).opts == old(self).opts,
    {
        if id.0 < self.opts.len() as u64 {
            Some(&mut self.opts[id.0 as usize])
        } else {
            None
        }
    }

    /// The option at position `index`, to change in place.
    pub fn get_opt_mut_i(&mut self, index: usize) -> (r: Option<&mut CommonOpt>)
        ensures
            r is Some <==> index < old(self).opts@.len(),
            r matches Some(o) ==> *o == old(self).opts@[index as int]
                && final(self).opts@ == old(self).opts@.update(index as int, *final(o)),
            final(self).utils == old(self).utils,
            final(self).prefixs == old(self).prefixs,
            r is None ==> final(self).opts == old(self).opts,
    {
        if index < self.opts.len() {
            Some(&mut self.opts[index])
        } else {
            None
        }
    }

    /// The option at position `index`.
    pub fn get_opt_i(&self, index: usize) -> (r: Option<&CommonOpt>)
        ensures
            r is Some <==> index < self.opts@.len(),
            r matches Some(o) ==> *o == self.opts@[index as int],
    {
        if index < self.opts.len() {
            Some(&self.opts[index])
        } else {
            None
        }
    }

    pub fn len(&self) -> (r: usize)
        ensures
            r == self.opts@.len(),
    {
        self.opts.len()
    }

    /// Look up the options that pass the filter given as a pattern.
    pub fn filter(&self, opt: &str) -> (r: Result<Filter<'_>>)
        requires
            pattern_wf(opt@, self.prefixs@),
        ensures
            r matches Ok(f) ==> f.set == self,
            spec_parse_pattern(opt@, strings_view(self.prefixs@)) is Parsed <==> r is Ok,
            r matches Err(e) ==> pattern_error(opt@, self.prefixs@, e),
    {
        let fi = FilterInfo::parse(opt, &self.prefixs)?;
        Ok(Filter::new(self, fi))
    }

    /// The first option that passes the filter.
    pub fn find(&self, fi: &FilterInfo) -> (r: Option<&CommonOpt>)
        ensures
            match r {
                Some(o) => exists|i: int| 0 <= i < self.opts@.len() && self.opts@[i] == *o && filter_matches(
                    *fi,
                    *o,
                ) && forall|j: int| 0 <= j < i ==> !filter_matches(*fi, #[trigger] self.opts@[j]),
                None => forall|j: int| 0 <= j < self.opts@.len() ==> !filter_matches(*fi, #[trigger] self.opts@[j]),
            },
    {
        let mut i: usize = 0;
        while i < self.opts.len()
            invariant
                i <= self.opts@.len(),
                forall|j: int| 0 <= j < i ==> !filter_matches(*fi, #[trigger] self.opts@[j]),
            decreases self.opts@.len() - i,
        {
            if fi.match_opt(&self.opts[i]) {
                return Some(&self.opts[i]);
            }
            i = i + 1;
        }
        None
    }

    /// The position of the first option that passes the filter.
    fn find_index(&self, fi: &FilterInfo) -> (r: Option<usize>)
        ensures
            match r {
                Some(i) => first_passing(self.opts@, *fi, i as int),
                None => forall|j: int| 0 <= j < self.opts@.len() ==> !filter_matches(*fi, #[trigger] self.opts@[j]),
            },
    {
        let mut i: usize = 0;
        while i < self.opts.len()
            invariant
                i <= self.opts@.len(),
                forall|j: int| 0 <= j < i ==> !filter_matches(*fi, #[trigger] self.opts@[j]),
            decreases self.opts@.len() - i,
        {
            if fi.match_opt(&self.opts[i]) {
                return Some(i);
            }
            i = i + 1;
        }
        None
    }

    /// The first option that passes the filter, to change in place.
    pub fn find_mut(&mut self, fi: &FilterInfo) -> (r: Option<&mut CommonOpt>)
        ensures
            match r {
                Some(o) => exists|i: int| first_passing(old(self).opts@, *fi, i) && *o == old(self).opts@[i]
                    && final(self).opts@ == old(self).opts@.update(i, *final(o)),
                None => forall|j: int| 0 <= j < old(self).opts@.len() ==> !filter_matches(
                    *fi,
                    #[trigger] old(self).opts@[j],
                ),
            },
            r is None ==> final(self).opts == old(self).opts,
            final(self).utils == old(self).utils,
            final(self).prefixs == old(self).prefixs,
    {
        match self.find_index(fi) {
            Some(i) => self.get_opt_mut_i(i),
            None => None,
        }
    }

    /// Look up, to change in place, the options that pass the filter given as a pattern.
    pub fn filter_mut(&mut self, opt: &str) -> (r: Result<FilterMut<'_>>)
        requires
            pattern_wf(opt@, old(self).prefixs@),
        ensures
            r matches Ok(f) ==> *f.set == *old(self) && *final(self) == *final(f.set),
            r is Err ==> *final(self) == *old(self),
            spec_parse_pattern(opt@, strings_view(old(self).prefixs@)) is Parsed <==> r is Ok,
            r matches Err(e) ==> pattern_error(opt@, old(self).prefixs@, e),
    {
        let fi = FilterInfo::parse(opt, &self.prefixs)?;
        Ok(FilterMut::new(self, fi))
    }

    /// The options that pass the filter, in order.
    pub fn find_all(&self, fi: &FilterInfo) -> (r: Vec<&CommonOpt>)
        ensures
            r@.map_values(|o: &CommonOpt| *o) == filtered(self.opts@, *fi),
    {
        let mut r: Vec<&CommonOpt> = Vec::new();
        let mut i: usize = 0;
        while i < self.opts.len()
            invariant
                i <= self.opts@.len(),
                r@.map_values(|o: &CommonOpt| *o) == filtered(self.opts@.take(i as int), *fi),
            decreases self.opts@.len() - i,
        {
            let ghost pred = |o: CommonOpt| filter_matches(*fi, o);
            proof {
                assert(self.opts@.take(i + 1) =~= self.opts@.take(i as int).push(self.opts@[i as int]));
                self.opts@.take(i as int).lemma_filter_push(self.opts@[i as int], pred);
            }
            let ghost before = r@;
            if fi.match_opt(&self.opts[i]) {
                r.push(&self.opts[i]);
                assert(r@.map_values(|o: &CommonOpt| *o) =~= before.map_values(|o: &CommonOpt| *o).push(self.opts@[i as int]));
            }
            i = i + 1;
        }
        assert(self.opts@.take(self.opts@.len() as int) =~= self.opts@);
        r
    }

    /// Every prefix that the options answer to, each once, in the order in which
    /// they first occur: an option's own prefix, then those of its aliases.
    pub fn get_all_prefixs(&self) -> (r: Vec<String>)
        ensures
            forall|p: Seq<char>| strings_view(r@).contains(p) <==> answers_prefix(self.opts@, p),
            distinct_strings(r@),
    {
        let mut ret: Vec<String> = Vec::new();
        let mut i: usize = 0;
        while i < self.opts.len()
            invariant
                i <= self.opts@.len(),
                forall|p: Seq<char>| strings_view(ret@).contains(p) <==> answers_prefix(self.opts@.take(i as int), p),
                distinct_strings(ret@),
            decreases self.opts@.len() - i,
        {
            let opt = &self.opts[i];
            let ghost before = ret@;
            push_unique(&mut ret, opt.prefix_str());
            let ghost mid = ret@;
            if opt.is_opt() {
                push_alias_prefixes(&mut ret, &opt.alias);
                assert(forall|p: Seq<char>| strings_view(ret@).contains(p) <==> (strings_view(mid).contains(p)
                    || some_alias_prefix(opt.alias@, p)));
            }
            let ghost fin = ret@;
            assert forall|p: Seq<char>| strings_view(ret@).contains(p) <==> (answers_prefix(self.opts@.take(i as int), p)
                || p == opt.spec_prefix() || (crate::opt::common::is_opt_kind(opt.kind) && some_alias_prefix(opt.alias@, p))) by {
                assert(strings_view(mid).contains(p) <==> (strings_view(before).contains(p) || p == opt.spec_prefix()));
                assert(strings_view(before).contains(p) <==> answers_prefix(self.opts@.take(i as int), p));
                if !crate::opt::common::is_opt_kind(opt.kind) {
                    assert(fin == mid);
                } else {
                    assert(strings_view(fin).contains(p) <==> (strings_view(mid).contains(p) || some_alias_prefix(opt.alias@, p)));
                }
            }
            proof {
                let t = self.opts@.take(i as int);
                let t1 = self.opts@.take(i + 1);
                assert(t1 =~= t.push(*opt));
                assert forall|p: Seq<char>| answers_prefix(t1, p) <==> (answers_prefix(t, p) || p == opt.spec_prefix()
                    || (crate::opt::common::is_opt_kind(opt.kind) && some_alias_prefix(opt.alias@, p))) by {
                    if answers_prefix(t1, p) {
                        let x = choose|x: int| 0 <= x < t1.len() && {
                            ||| (#[trigger] t1[x]).spec_prefix() == p
                            ||| (crate::opt::common::is_opt_kind(t1[x].kind) && some_alias_prefix(t1[x].alias@, p))
                        };
                        if x < t.len() {
                            assert(t1[x] == t[x]);
                        }
                    }
                    if answers_prefix(t, p) {
                        let x = choose|x: int| 0 <= x < t.len() && {
                            ||| (#[trigger] t[x]).spec_prefix() == p
                            ||| (crate::opt::common::is_opt_kind(t[x].kind) && some_alias_prefix(t[x].alias@, p))
                        };
                        assert(t1[x] == t[x]);
                    }
                    assert(t1[i as int] == *opt);
                }
            }
            i = i + 1;
        }
        assert(self.opts@.take(self.opts@.len() as int) =~= self.opts@);
        ret
    }

    /// Check every option in turn; the first that fails gives the error.
    pub fn check(&self) -> (r: Result<bool>)
        ensures
            r is Ok <==> forall|i: int| 0 <= i < self.opts@.len() ==> (#[trigger] self.opts@[i]).optional
                || self.opts@[i].spec_has_value(),
            r is Ok ==> r == Ok::<bool, Error>(true),
            r matches Err(e) ==> exists|i: int| 0 <= i < self.opts@.len() && !(#[trigger] self.opts@[i]).optional
                && !self.opts@[i].spec_has_value() && (e matches Error::OptionForceRequired(m) && m@
                == self.opts@[i].spec_prefix() + self.opts@[i].name@) && forall|j: int| 0 <= j < i
                ==> (#[trigger] self.opts@[j]).optional || self.opts@[j].spec_has_value(),
    {
        let mut i: usize = 0;
        while i < self.opts.len()
            invariant
                i <= self.opts@.len(),
                forall|j: int| 0 <= j < i ==> (#[trigger] self.opts@[j]).optional || self.opts@[j].spec_has_value(),
            decreases self.opts@.len() - i,
        {
            match self.opts[i].check() {
                Ok(_) => {},
                Err(e) => {
                    return Err(e);
                },
            }
            i = i + 1;
        }
        Ok(true)
    }

    /// Set every option back to its default value.
    pub fn reset(&mut self)
        ensures
            same_but_values(final(self).opts@, old(self).opts@),
            forall|i: int| 0 <= i < final(self).opts@.len() ==> (#[trigger] final(self).opts@[i]).value@
                == old(self).opts@[i].spec_after_reset(),
            final(self).utils == old(self).utils,
            final(self).prefixs == old(self).prefixs,
    {
        let mut i: usize = 0;
        let ghost start = self.opts@;
        while i < self.opts.len()
            invariant
                i <= self.opts@.len(),
                self.opts@.len() == start.len(),
                self.utils == old(self).utils,
                self.prefixs == old(self).prefixs,
                start == old(self).opts@,
                forall|j: int| 0 <= j < i ==> same_but_value(#[trigger] self.opts@[j], start[j])
                    && self.opts@[j].value@ == start[j].spec_after_reset(),
                forall|j: int| i <= j < self.opts@.len() ==> #[trigger] self.opts@[j] == start[j],
            decreases self.opts@.len() - i,
        {
            reset_at(&mut self.opts, i);
            i = i + 1;
        }
    }

    /// Hand the information of every option to the publisher, in order.
    pub fn subscribe_from<P: Publisher>(&self, publisher: &mut P)
        requires
            kinds_cover(self.opts@, self.utils@),
        ensures
            final(publisher).spec_infos() == old(publisher).spec_infos() + infos_of(self.opts@),
    {
        let mut i: usize = 0;
        while i < self.opts.len()
            invariant
                i <= self.opts@.len(),
                publisher.spec_infos() == old(publisher).spec_infos() + infos_of(self.opts@.take(i as int)),
            decreases self.opts@.len() - i,
        {
            let opt = &self.opts[i];
            publisher.reg_subscriber(OptionInfo::new(opt.id));
            proof {
                assert(infos_of(self.opts@.take(i + 1)) =~= infos_of(self.opts@.take(i as int)).push(OptionInfo { id: self.opts@[i as int].id }));
            }
            i = i + 1;
        }
        assert(self.opts@.take(self.opts@.len() as int) =~= self.opts@);
    }
}

impl Subscriber for DefaultSet {
    open spec fn spec_subscribed(&self) -> Seq<OptionInfo> {
        infos_of(self.opts@)
    }

    open spec fn spec_can_subscribe(&self) -> bool {
        kinds_cover(self.opts@, self.utils@)
    }

    fn subscribe_from<P: Publisher>(&self, publisher: &mut P) {
        DefaultSet::subscribe_from(self, publisher)
    }
}

fn reset_at(opts: &mut Vec<CommonOpt>, i: usize)
    requires
        i < old(opts)@.len(),
    ensures
        final(opts)@.len() == old(opts)@.len(),
        same_but_value(final(opts)@[i as int], old(opts)@[i as int]),
        final(opts)@[i as int].value@ == old(opts)@[i as int].spec_after_reset(),
        forall|j: int| 0 <= j < old(opts)@.len() && j != i ==> #[trigger] final(opts)@[j] == old(opts)@[j],
{
    let o = &mut opts[i];
    o.reset_value();
}

proof fn lemma_first_index(s: Seq<OptKind>, k: OptKind, i: int)
    requires
        0 <= i < s.len(),
        s[i] == k,
        forall|j: int| 0 <= j < i ==> s[j] != k,
    ensures
        s.index_of_first(k) == Some(i),
{
    s.index_of_first_ensures(k);
    assert(s.contains(k));
    let x = s.index_of_first(k)->0;
    if x < i {
        assert(s[x] == k);
    }
    if i < x {
        assert(s[i] != k);
    }
}

/// The kind of option that `utils` creates.
fn utils_kind<U: Utils>(utils: &U) -> (r: OptKind)
    ensures
        r == utils.spec_kind(),
{
    let k = kind_from_name(utils.get_type_name());
    proof { lemma_kind_of_type_name(utils.spec_kind()); }
    k.unwrap()
}

/// Each kind is found again by its type name.
pub proof fn lemma_kind_of_type_name(k: OptKind)
    ensures
        kind_of_name(kind_type_name(k)) == Some(k),
{
    reveal_strlit("str");
    reveal_strlit("bool");
    reveal_strlit("array");
    reveal_strlit("int");
    reveal_strlit("uint");
    reveal_strlit("path");
    reveal_strlit("pos");
    reveal_strlit("cmd");
    reveal_strlit("main");
    assert("str"@.len() == 3 && "str"@[0] == 's');
    assert("bool"@.len() == 4 && "bool"@[0] == 'b');
    assert("array"@.len() == 5 && "array"@[0] == 'a');
    assert("int"@.len() == 3 && "int"@[0] == 'i');
    assert("uint"@.len() == 4 && "uint"@[0] == 'u');
    assert("path"@.len() == 4 && "path"@[0] == 'p');
    assert("pos"@.len() == 3 && "pos"@[0] == 'p');
    assert("cmd"@.len() == 3 && "cmd"@[0] == 'c');
    assert("main"@.len() == 4 && "main"@[0] == 'm');
}

/// An option being built from a pattern, added to the set on [`Commit::commit`].
#[derive(Debug)]
pub struct Commit<'a> {
    pub set: &'a mut DefaultSet,
    pub create_info: CreateInfo,
}

impl<'a> Commit<'a> {
    pub fn new(set: &'a mut DefaultSet, ci: CreateInfo) -> (r: Self)
        ensures
            r.create_info == ci,
    {
        Commit { set, create_info: ci }
    }

    pub fn set_deactivate_style(&mut self, deactivate: bool)
        ensures
            final(self).create_info == (CreateInfo { deactivate, ..old(self).create_info }),
    {
        self.create_info.set_deactivate_style(deactivate);
    }

    pub fn set_optional(&mut self, optional: bool)
        ensures
            final(self).create_info == (CreateInfo { optional, ..old(self).create_info }),
    {
        self.create_info.set_optional(optional);
    }

    pub fn set_type_name(&mut self, opt_type: &str)
        ensures
            final(self).create_info.opt_type@ == opt_type@,
            final(self).create_info.opt_name == old(self).create_info.opt_name,
    {
        self.create_info.set_type_name(opt_type);
    }

    pub fn set_name(&mut self, opt_name: &str)
        ensures
            final(self).create_info.opt_name@ == opt_name@,
            final(self).create_info.opt_type == old(self).create_info.opt_type,
    {
        self.create_info.set_name(opt_name);
    }

    pub fn set_prefix(&mut self, prefix: &str)
        ensures
            final(self).create_info.opt_prefix@ == prefix@,
            final(self).create_info.opt_type == old(self).create_info.opt_type,
            final(self).create_info.opt_name == old(self).create_info.opt_name,
    {
        self.create_info.set_prefix(prefix);
    }

    pub fn set_index(&mut self, index: NonOptIndex)
        ensures
            final(self).create_info == (CreateInfo { opt_index: index, ..old(self).create_info }),
    {
        self.create_info.set_index(index);
    }

    pub fn add_alias(&mut self, prefix: &str, name: &str)
        ensures
            crate::utils::alias_view(final(self).create_info.opt_alias@) == crate::utils::alias_view(
                old(self).create_info.opt_alias@,
            ).push((prefix@, name@)),
            final(self).create_info.opt_type == old(self).create_info.opt_type,
            final(self).create_info.opt_name == old(self).create_info.opt_name,
    {
        self.create_info.add_alias(prefix, name);
    }

    pub fn rem_alias(&mut self, prefix: &str, name: &str)
        ensures
            crate::utils::alias_view(final(self).create_info.opt_alias@) == crate::utils::remove_first_alias(
                crate::utils::alias_view(old(self).create_info.opt_alias@),
                prefix@,
                name@,
            ),
            final(self).create_info.opt_type == old(self).create_info.opt_type,
            final(self).create_info.opt_name == old(self).create_info.opt_name,
    {
        self.create_info.rem_alias(prefix, name);
    }

    pub fn clr_alias(&mut self)
        ensures
            final(self).create_info.opt_alias@.len() == 0,
            final(self).create_info.opt_type == old(self).create_info.opt_type,
            final(self).create_info.opt_name == old(self).create_info.opt_name,
    {
        self.create_info.clr_alias();
    }

    pub fn set_deafult_value(&mut self, value: OptValue)
        ensures
            final(self).create_info == (CreateInfo { opt_value: value, ..old(self).create_info }),
    {
        self.create_info.set_deafult_value(value);
    }

    /// Add the option to the set.
    pub fn commit(&mut self) -> (r: Result<Identifier>)
        requires
            old(self).set.opts@.len() < u64::MAX,
        ensures
            ({
                let id = Identifier(old(self).set.opts@.len() as u64);
                let ci = old(self).create_info;
                match kind_of_name(ci.opt_type@) {
                    Some(k) => if old(self).set.utils@.contains(k) {
                        match r {
                            Ok(i) => i == id && final(self).set.opts@.len() == old(self).set.opts@.len() + 1
                                && final(self).set.opts@.drop_last() == old(self).set.opts@
                                && create_outcome(k, id, ci, Ok(final(self).set.opts@.last())),
                            Err(e) => final(self).set.opts == old(self).set.opts && create_outcome(k, id, ci, Err(e)),
                        }
                    } else {
                        (r matches Err(Error::InvalidOptionType(m)) && m@ == ci.opt_type@)
                            && final(self).set.opts == old(self).set.opts
                    },
                    None => (r matches Err(Error::InvalidOptionType(m)) && m@ == ci.opt_type@)
                        && final(self).set.opts == old(self).set.opts,
                }
            }),
            final(self).set.utils == old(self).set.utils,
            final(self).set.prefixs == old(self).set.prefixs,
            final(self).create_info == old(self).create_info,
    {
        self.set.add_opt_ci(&self.create_info)
    }
}

/// A filter over the options of a set.
#[derive(Debug)]
pub struct Filter<'a> {
    pub set: &'a DefaultSet,
    pub filter_info: FilterInfo,
}

impl<'a> Filter<'a> {
    pub fn new(set: &'a DefaultSet, fi: FilterInfo) -> (r: Self)
        ensures
            r.set == set,
            r.filter_info == fi,
    {
        Filter { set, filter_info: fi }
    }

    pub fn set_deactivate_style(&mut self, deactivate: bool)
        ensures
            final(self).filter_info == (FilterInfo { deactivate: Some(deactivate), ..old(self).filter_info }),
            final(self).set == old(self).set,
    {
        self.filter_info.set_deactivate_style(deactivate);
    }

    pub fn set_optional(&mut self, optional: bool)
        ensures
            final(self).filter_info == (FilterInfo { optional: Some(optional), ..old(self).filter_info }),
            final(self).set == old(self).set,
    {
        self.filter_info.set_optional(optional);
    }

    pub fn set_type_name(&mut self, opt_type: String)
        ensures
            final(self).filter_info == (FilterInfo { opt_type: Some(opt_type), ..old(self).filter_info }),
            final(self).set == old(self).set,
    {
        self.filter_info.set_type_name(opt_type);
    }

    pub fn set_name(&mut self, opt_name: String)
        ensures
            final(self).filter_info == (FilterInfo { opt_name: Some(opt_name), ..old(self).filter_info }),
            final(self).set == old(self).set,
    {
        self.filter_info.set_name(opt_name);
    }

    pub fn set_prefix(&mut self, prefix: String)
        ensures
            final(self).filter_info == (FilterInfo { opt_prefix: Some(prefix), ..old(self).filter_info }),
            final(self).set == old(self).set,
    {
        self.filter_info.set_prefix(prefix);
    }

    pub fn set_index(&mut self, index: NonOptIndex)
        ensures
            final(self).filter_info == (FilterInfo { opt_index: index, ..old(self).filter_info }),
            final(self).set == old(self).set,
    {
        self.filter_info.set_index(index);
    }

    /// The first option of the set that passes the filter.
    pub fn find(&self) -> (r: Option<&CommonOpt>)
        ensures
            match r {
                Some(o) => exists|i: int| 0 <= i < self.set.opts@.len() && self.set.opts@[i] == *o
                    && filter_matches(self.filter_info, *o)
                    && forall|j: int| 0 <= j < i ==> !filter_matches(self.filter_info, #[trigger] self.set.opts@[j]),
                None => forall|j: int| 0 <= j < self.set.opts@.len() ==> !filter_matches(
                    self.filter_info,
                    #[trigger] self.set.opts@[j],
                ),
            },
    {
        self.set.find(&self.filter_info)
    }

    /// The options of the set that pass the filter, in order.
    pub fn find_all(&self) -> (r: Vec<&CommonOpt>)
        ensures
            r@.map_values(|o: &CommonOpt| *o) == filtered(self.set.opts@, self.filter_info),
    {
        self.set.find_all(&self.filter_info)
    }
}


/// A filter over the options of a set, that hands out the option it finds to be
/// changed in place.
#[derive(Debug)]
pub struct FilterMut<'a> {
    pub set: &'a mut DefaultSet,
    pub filter_info: FilterInfo,
}

impl<'a> FilterMut<'a> {
    pub fn new(set: &'a mut DefaultSet, fi: FilterInfo) -> (r: Self)
        ensures
            *r.set == *old(set),
            *final(r.set) == *final(set),
            r.filter_info == fi,
    {
        FilterMut { set, filter_info: fi }
    }

    pub fn set_deactivate_style(&mut self, deactivate: bool)
        ensures
            final(self).filter_info == (FilterInfo { deactivate: Some(deactivate), ..old(self).filter_info }),
            final(self).set == old(self).set,
    {
        self.filter_info.set_deactivate_style(deactivate);
    }

    pub fn set_optional(&mut self, optional: bool)
        ensures
            final(self).filter_info == (FilterInfo { optional: Some(optional), ..old(self).filter_info }),
            final(self).set == old(self).set,
    {
        self.filter_info.set_optional(optional);
    }

    pub fn set_type_name(&mut self, opt_type: String)
        ensures
            final(self).filter_info == (FilterInfo { opt_type: Some(opt_type), ..old(self).filter_info }),
            final(self).set == old(self).set,
    {
        self.filter_info.set_type_name(opt_type);
    }

    pub fn set_name(&mut self, opt_name: String)
        ensures
            final(self).filter_info == (FilterInfo { opt_name: Some(opt_name), ..old(self).filter_info }),
            final(self).set == old(self).set,
    {
        self.filter_info.set_name(opt_name);
    }

    pub fn set_prefix(&mut self, prefix: String)
        ensures
            final(self).filter_info == (FilterInfo { opt_prefix: Some(prefix), ..old(self).filter_info }),
            final(self).set == old(self).set,
    {
        self.filter_info.set_prefix(prefix);
    }

    pub fn set_index(&mut self, index: NonOptIndex)
        ensures
            final(self).filter_info == (FilterInfo { opt_index: index, ..old(self).filter_info }),
            final(self).set == old(self).set,
    {
        self.filter_info.set_index(index);
    }

    /// The first option of the set that passes the filter, to change in place.
    pub fn find(&mut self) -> (r: Option<&mut CommonOpt>)
        ensures
            match r {
                Some(o) => exists|i: int| first_passing(old(self).set.opts@, old(self).filter_info, i)
                    && *o == old(self).set.opts@[i]
                    && final(self).set.opts@ == old(self).set.opts@.update(i, *final(o)),
                None => forall|j: int| 0 <= j < old(self).set.opts@.len() ==> !filter_matches(
                    old(self).filter_info,
                    #[trigger] old(self).set.opts@[j],
                ),
            },
            r is None ==> final(self).set.opts == old(self).set.opts,
            final(self).set.utils == old(self).set.utils,
            final(self).set.prefixs == old(self).set.prefixs,
            final(self).filter_info == old(self).filter_info,
    {
        self.set.find_mut(&self.filter_info)
    }
}

} // verus!
