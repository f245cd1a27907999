use vstd::prelude::*;

use crate::error::{Error, Result};
use crate::text::{spec_starts_with, starts_with, substring};

verus! {

/// A command line argument split into prefix, name and value: `--name=value`.
#[derive(Debug)]
pub struct Argument {
    pub prefix: Option<String>,
    pub name: Option<String>,
    pub value: Option<String>,
}

impl Argument {
    pub fn new(prefix: Option<String>, name: Option<String>, value: Option<String>) -> (r: Self)
        ensures
            r.prefix == prefix,
            r.name == name,
            r.value == value,
    {
        Self { prefix, name, value }
    }

    pub fn get_name(&self) -> (r: Option<&String>)
        ensures
            r is None <==> self.name is None,
            r matches Some(x) ==> self.name == Some(*x),
    {
        self.name.as_ref()
    }

    pub fn get_prefix(&self) -> (r: Option<&String>)
        ensures
            r is None <==> self.prefix is None,
            r matches Some(x) ==> self.prefix == Some(*x),
    {
        self.prefix.as_ref()
    }

    pub fn get_value(&self) -> (r: Option<&String>)
        ensures
            r is None <==> self.value is None,
            r matches Some(x) ==> self.value == Some(*x),
    {
        self.value.as_ref()
    }
}

impl Clone for Argument {
    fn clone(&self) -> (r: Self)
        ensures
            r == *self,
    {
        Argument { prefix: self.prefix.clone(), name: self.name.clone(), value: self.value.clone() }
    }
}

/// The first position of `c` in `s`, or the length of `s` when `c` does not occur.
pub open spec fn first_index_of(s: Seq<char>, c: char) -> int
    decreases s.len(),
{
    if s.len() == 0 {
        0
    } else if s[0] == c {
        0
    } else {
        1 + first_index_of(s.drop_first(), c)
    }
}

pub proof fn lemma_first_index_of(s: Seq<char>, c: char, k: int)
    requires
        0 <= k <= s.len(),
        forall|j: int| 0 <= j < k ==> s[j] != c,
        k == s.len() || s[k] == c,
    ensures
        first_index_of(s, c) == k,
    decreases s.len(),
{
    if s.len() > 0 && k > 0 {
        assert forall|j: int| 0 <= j < k - 1 implies s.drop_first()[j] != c by {
            assert(s.drop_first()[j] == s[j + 1]);
        }
        lemma_first_index_of(s.drop_first(), c, k - 1);
    }
}

/// The position of the first prefix in `prefixs`, from `i` on, with which `s` starts and
/// which leaves at least one character.
pub open spec fn first_arg_prefix(s: Seq<char>, prefixs: Seq<Seq<char>>, i: int) -> Option<int>
    decreases prefixs.len() - i,
{
    if i < 0 || i >= prefixs.len() {
        None
    } else if spec_starts_with(s, prefixs[i]) && s.len() > prefixs[i].len() {
        Some(i)
    } else {
        first_arg_prefix(s, prefixs, i + 1)
    }
}

/// The name part of an argument without its prefix: everything before the first `=`.
pub open spec fn arg_name_part(left: Seq<char>) -> Seq<char> {
    left.subrange(0, first_index_of(left, '='))
}

/// The value part of an argument without its prefix: everything after the first `=`.
pub open spec fn arg_value_part(left: Seq<char>) -> Option<Seq<char>> {
    let k = first_index_of(left, '=');
    if k < left.len() {
        Some(left.subrange(k + 1, left.len() as int))
    } else {
        None
    }
}

proof fn lemma_first_index_of_bounds(s: Seq<char>, c: char)
    ensures
        0 <= first_index_of(s, c) <= s.len(),
        first_index_of(s, c) < s.len() ==> s[first_index_of(s, c)] == c,
        forall|j: int| 0 <= j < first_index_of(s, c) ==> s[j] != c,
    decreases s.len(),
{
    if s.len() > 0 && s[0] != c {
        let t = s.drop_first();
        lemma_first_index_of_bounds(t, c);
        assert forall|j: int| 0 <= j < first_index_of(s, c) implies s[j] != c by {
            if j > 0 {
                assert(s[j] == t[j - 1]);
            }
        }
    }
}

proof fn lemma_first_arg_prefix(s: Seq<char>, prefixs: Seq<Seq<char>>, i: int)
    ensures
        first_arg_prefix(s, prefixs, i) matches Some(k) ==> i <= k < prefixs.len()
            && spec_starts_with(s, prefixs[k]) && s.len() > prefixs[k].len(),
    decreases prefixs.len() - i,
{
    if 0 <= i < prefixs.len() && !(spec_starts_with(s, prefixs[i]) && s.len() > prefixs[i].len()) {
        lemma_first_arg_prefix(s, prefixs, i + 1);
    }
}

/// An argument that splits is its prefix, then its name, then `=` and its value
/// when it has one; the name holds no `=`.
pub proof fn law_argument_rebuilds(s: Seq<char>, prefixs: Seq<Seq<char>>)
    ensures
        spec_parse_argument(s, prefixs) matches Some((p, n, v)) ==> {
            &&& s == p + n + match v {
                Some(x) => seq!['='] + x,
                None => Seq::<char>::empty(),
            }
            &&& !n.contains('=')
            &&& p.len() < s.len()
        },
{
    lemma_first_arg_prefix(s, prefixs, 0);
    if let Some(k) = first_arg_prefix(s, prefixs, 0) {
        let p = prefixs[k];
        let left = s.subrange(p.len() as int, s.len() as int);
        lemma_first_index_of_bounds(left, '=');
        let e = first_index_of(left, '=');
        let n = arg_name_part(left);
        assert(s =~= p + left);
        if e < left.len() {
            assert(left =~= n + (seq!['='] + left.subrange(e + 1, left.len() as int)));
        } else {
            assert(left =~= n + Seq::<char>::empty());
        }
        assert(!n.contains('=')) by {
            if n.contains('=') {
                let j = choose|j: int| 0 <= j < n.len() && n[j] == '=';
                assert(left[j] == n[j]);
            }
        }
    }
}

pub open spec fn opt_str_view(o: Option<String>) -> Option<Seq<char>> {
    match o {
        Some(s) => Some(s@),
        None => None,
    }
}

/// The parsing that `parse_argument` performs, on success: the prefix that matched,
/// the name and the value.
pub open spec fn spec_parse_argument(s: Seq<char>, prefixs: Seq<Seq<char>>) -> Option<(Seq<char>, Seq<char>, Option<Seq<char>>)> {
    match first_arg_prefix(s, prefixs, 0) {
        Some(i) => {
            let left = s.subrange(prefixs[i].len() as int, s.len() as int);
            Some((prefixs[i], arg_name_part(left), arg_value_part(left)))
        },
        None => None,
    }
}

pub open spec fn strings_view(v: Seq<String>) -> Seq<Seq<char>> {
    v.map_values(|s: String| s@)
}

/// Split the string `s` into an [`Argument`], trying the prefixes in order.
///
/// The argument takes the first prefix with which `s` starts and that leaves a
/// non-empty rest; the rest splits at its first `=` into name and value.
pub fn parse_argument(s: &Option<String>, prefixs: &Vec<String>) -> (r: Result<Argument>)
    ensures
        s is None ==> r matches Err(Error::InvalidNextArgument),
        s matches Some(s) ==> match spec_parse_argument(s@, strings_view(prefixs@)) {
            Some((p, n, v)) => r matches Ok(a) && opt_str_view(a.prefix) == Some(p)
                && opt_str_view(a.name) == Some(n) && opt_str_view(a.value) == v,
            None => r matches Err(Error::InvalidOptionStr(m)) && m@ == s@,
        },
{
    parse_argument_impl(s, prefixs)
}

fn split_name_value(left: &str) -> (r: (String, Option<String>))
    ensures
        r.0@ == arg_name_part(left@),
        opt_str_view(r.1) == arg_value_part(left@),
{
    let n = left.unicode_len();
    let mut k: usize = 0;
    while k < n && left.get_char(k) != '='
        invariant
            n == left@.len(),
            k <= n,
            forall|j: int| 0 <= j < k ==> left@[j] != '=',
        decreases n - k,
    {
        k = k + 1;
    }
    proof {
        lemma_first_index_of(left@, '=', k as int);
    }
    let name = substring(left, 0, k);
    if k < n {
        (name, Some(substring(left, k + 1, n)))
    } else {
        (name, None)
    }
}

fn parse_argument_impl(s: &Option<String>, prefixs: &Vec<String>) -> (r: Result<Argument>)
    ensures
        s is None ==> r matches Err(Error::InvalidNextArgument),
        s matches Some(s) ==> match spec_parse_argument(s@, strings_view(prefixs@)) {
            Some((p, n, v)) => r matches Ok(a) && opt_str_view(a.prefix) == Some(p)
                && opt_str_view(a.name) == Some(n) && opt_str_view(a.value) == v,
            None => r matches Err(Error::InvalidOptionStr(m)) && m@ == s@,
        },
{
    match s {
        Some(st) => {
            let ghost ps = strings_view(prefixs@);
            let mut i: usize = 0;
            while i < prefixs.len()
                invariant
                    i <= prefixs.len(),
                    ps == strings_view(prefixs@),
                    *s == Some(*st),
                    first_arg_prefix(st@, ps, 0) == first_arg_prefix(st@, ps, i as int),
                decreases prefixs.len() - i,
            {
                let prefix = &prefixs[i];
                assert(ps[i as int] == prefix@);
                let plen = prefix.as_str().unicode_len();
                let slen = st.as_str().unicode_len();
                if starts_with(st.as_str(), prefix.as_str()) && slen > plen {
                    let left = st.as_str().substring_char(plen, slen);
                    let (name, value) = split_name_value(left);
                    let r = Argument::new(Some(prefix.clone()), Some(name), value);
                    assert(spec_parse_argument(st@, ps) == Some((prefix@, name@, opt_str_view(value))));
                    return Ok(r);
                }
                i = i + 1;
            }
            Err(Error::InvalidOptionStr(st.clone()))
        },
        None => Err(Error::InvalidNextArgument),
    }
}

/// What an [`ArgIterator`] holds, as mathematical values.
pub ghost struct ArgIteratorView {
    pub args: Seq<Seq<char>>,
    pub index: int,
    pub arg: Option<Seq<char>>,
    pub next_arg: Option<Seq<char>>,
}

/// Iterate the arguments by index.
/// It can access [`current`](IndexIterator::current) and [`next`](IndexIterator::next) argument at same time.
pub trait IndexIterator {
    spec fn spec_index(&self) -> int;

    spec fn spec_count(&self) -> int;

    /// Set the arguments.
    fn set_args(&mut self, args: Vec<String>);

    /// Return true if the [`IndexIterator`] is reach end
    fn reach_end(&self) -> (r: bool)
        ensures
            r == (self.spec_index() >= self.spec_count()),
    ;

    /// Read current and next argument if they are available
    fn fill_current_and_next(&mut self)
        requires
            0 <= old(self).spec_index() < old(self).spec_count(),
        ensures
            final(self).spec_index() == old(self).spec_index(),
            final(self).spec_count() == old(self).spec_count(),
    ;

    /// Get current argument
    fn current(&self) -> &Option<String>;

    /// Get current argument's index
    fn current_index(&self) -> (r: usize)
        ensures
            r == self.spec_index(),
    ;

    /// Get total number of arguments
    fn count(&self) -> (r: usize)
        ensures
            r == self.spec_count(),
    ;

    /// Get next argument
    fn next(&self) -> &Option<String>;

    /// Increment the index to next argument
    fn skip(&mut self)
        requires
            old(self).spec_index() < usize::MAX,
        ensures
            final(self).spec_index() == old(self).spec_index() + 1,
            final(self).spec_count() == old(self).spec_count(),
    ;

    /// Parsing current argument to [`Argument`]
    fn parse(&self, prefixs: &Vec<String>) -> Result<Argument>;

    fn reset(&mut self)
        ensures
            final(self).spec_index() == 0,
            final(self).spec_count() == old(self).spec_count(),
    ;
}

/// The default [`IndexIterator`] over a list of arguments.
#[derive(Debug)]
pub struct ArgIterator {
    cache_prefixs: Vec<String>,
    index: usize,
    args: Vec<String>,
    arg: Option<String>,
    next_arg: Option<String>,
}

impl View for ArgIterator {
    type V = ArgIteratorView;

    closed spec fn view(&self) -> ArgIteratorView {
        ArgIteratorView {
            args: strings_view(self.args@),
            index: self.index as int,
            arg: opt_str_view(self.arg),
            next_arg: opt_str_view(self.next_arg),
        }
    }
}

impl ArgIterator {
    pub fn new() -> (r: Self)
        ensures
            r@.args == Seq::<Seq<char>>::empty(),
            r@.index == 0,
            r@.arg is None,
            r@.next_arg is None,
    {
        Self {
            cache_prefixs: Vec::new(),
            index: 0,
            args: Vec::new(),
            arg: None,
            next_arg: None,
        }
    }

    /// An iterator over `args`, positioned at the first one.
    pub fn from_args(args: Vec<String>) -> (r: Self)
        ensures
            r@.args == strings_view(args@),
            r@.index == 0,
            r@.arg is None,
            r@.next_arg is None,
    {
        let mut ret = Self::new();
        ret.set_args(args);
        ret
    }
}

/// The position and the number of arguments, as the iterator's view holds them.
pub proof fn lemma_iter_view(it: &ArgIterator)
    ensures
        it.spec_index() == it@.index,
        it.spec_count() == it@.args.len(),
        it@.index >= 0,
{
}

impl IndexIterator for ArgIterator {
    closed spec fn spec_index(&self) -> int {
        self.index as int
    }

    closed spec fn spec_count(&self) -> int {
        self.args@.len() as int
    }

    fn set_args(&mut self, args: Vec<String>)
        ensures
            final(self)@.args == strings_view(args@),
            final(self)@.index == old(self)@.index,
            final(self)@.arg == old(self)@.arg,
            final(self)@.next_arg == old(self)@.next_arg,
    {
        self.args = args;
    }

    fn reach_end(&self) -> (r: bool)
        ensures
            r == (self@.index >= self@.args.len()),
    {
        self.index >= self.args.len()
    }

    fn fill_current_and_next(&mut self)
        ensures
            final(self)@.args == old(self)@.args,
            final(self)@.index == old(self)@.index,
            final(self)@.arg == Some(old(self)@.args[old(self)@.index]),
            final(self)@.next_arg == (if old(self)@.index + 1 < old(self)@.args.len() {
                Some(old(self)@.args[old(self)@.index + 1])
            } else {
                None::<Seq<char>>
            }),
    {
        let i = self.index;
        self.arg = Some(self.args[i].clone());
        let n = self.args.len();
        self.next_arg = if n - i > 1 {
            Some(self.args[i + 1].clone())
        } else {
            None
        };
    }

    fn current(&self) -> (r: &Option<String>)
        ensures
            opt_str_view(*r) == self@.arg,
    {
        &self.arg
    }

    fn current_index(&self) -> (r: usize)
        ensures
            r == self@.index,
    {
        self.index
    }

    fn count(&self) -> (r: usize)
        ensures
            r == self@.args.len(),
    {
        self.args.len()
    }

    fn next(&self) -> (r: &Option<String>)
        ensures
            opt_str_view(*r) == self@.next_arg,
    {
        &self.next_arg
    }

    fn skip(&mut self)
        ensures
            final(self)@.args == old(self)@.args,
            final(self)@.index == old(self)@.index + 1,
            final(self)@.arg == old(self)@.arg,
            final(self)@.next_arg == old(self)@.next_arg,
    {
        self.index = self.index + 1;
    }

    fn parse(&self, prefixs: &Vec<String>) -> (r: Result<Argument>)
        ensures
            self@.arg is None ==> r matches Err(Error::InvalidNextArgument),
            self@.arg matches Some(s) ==> match spec_parse_argument(s, strings_view(prefixs@)) {
                Some((p, n, v)) => r matches Ok(a) && opt_str_view(a.prefix) == Some(p)
                    && opt_str_view(a.name) == Some(n) && opt_str_view(a.value) == v,
                None => r matches Err(Error::InvalidOptionStr(m)) && m@ == s,
            },
    {
        parse_argument(&self.arg, prefixs)
    }

    fn reset(&mut self)
        ensures
            final(self)@.args == old(self)@.args,
            final(self)@.index == 0,
            final(self)@.arg is None,
            final(self)@.next_arg is None,
    {
        self.index = 0;
        self.arg = None;
        self.next_arg = None;
    }
}

} // verus!
