use vstd::prelude::*;

use crate::error::{Error, Result};
use crate::opt::NonOptIndexView;
use crate::pattern::{is_name_stop, is_type_stop, is_flag, run_end, first_pattern_prefix, prefix_end, pos_prefix, pos_name, has_equal, pos_type_start, pos_type, pos_flags, has_char_in, spec_parse_u64_list, IndexOutcome, spec_index_part, PatternParts, PatternOutcome, sub_opt, spec_parse_pattern};
use crate::text::{parse_u64, spec_parse_u64, starts_with, spec_starts_with, substring, to_chars};
use crate::arg::{first_index_of, lemma_first_index_of, opt_str_view, strings_view};

verus! {

/// The states of the pattern parser.
#[derive(Debug, Clone, Copy, PartialEq, Eq, Structural)]
pub enum State {
    PreCheck,
    Prefix,
    Name,
    Equal,
    Type,
    Deactivate,
    Optional,
    Index,
    FowradIndex,
    BackwardIndex,
    List,
    Except,
    End,
}

/// A pattern being parsed: the pattern, the prefixes it may start with, and the
/// position (in characters) that the parser has reached.
#[derive(Debug)]
pub struct ParserPattern<'a, 'b> {
    pub pattern: &'a str,
    pub support_prefix: &'b Vec<String>,
    pub cur_index: usize,
    pub end_index: usize,
    pub chars: Vec<char>,
}

impl<'a, 'b> ParserPattern<'a, 'b> {
    pub open spec fn wf(&self) -> bool {
        &&& self.chars@ == self.pattern@
        &&& self.end_index == self.chars@.len()
        &&& self.cur_index <= self.end_index
    }

    pub open spec fn spec_prefixes(&self) -> Seq<Seq<char>> {
        strings_view(self.support_prefix@)
    }

    pub fn new(pattern: &'a str, prefix: &'b Vec<String>) -> (r: Self)
        ensures
            r.wf(),
            r.pattern == pattern,
            r.support_prefix == prefix,
            r.cur_index == 0,
    {
        let chars = to_chars(pattern);
        Self { pattern, support_prefix: prefix, end_index: chars.len(), cur_index: 0, chars }
    }

    pub fn is_end(&self) -> (r: bool)
        ensures
            r == (self.cur_index == self.end_index),
    {
        self.cur_index == self.end_index
    }

    pub fn inc_index(&mut self, inc: usize)
        requires
            old(self).cur_index + inc <= usize::MAX,
        ensures
            final(self).cur_index == old(self).cur_index + inc,
            final(self).pattern == old(self).pattern,
            final(self).support_prefix == old(self).support_prefix,
            final(self).end_index == old(self).end_index,
            final(self).chars == old(self).chars,
    {
        self.cur_index = self.cur_index + inc;
    }

    pub fn set_index(&mut self, index: usize)
        ensures
            final(self).cur_index == index,
            final(self).pattern == old(self).pattern,
            final(self).support_prefix == old(self).support_prefix,
            final(self).end_index == old(self).end_index,
            final(self).chars == old(self).chars,
    {
        self.cur_index = index;
    }

    /// The characters that are left to parse.
    pub fn chars(&self) -> (r: Vec<char>)
        requires
            self.wf(),
        ensures
            r@ == self.chars@.subrange(self.cur_index as int, self.end_index as int),
    {
        let mut r: Vec<char> = Vec::new();
        let mut i = self.cur_index;
        while i < self.end_index
            invariant
                self.wf(),
                self.cur_index <= i <= self.end_index,
                r@ == self.chars@.subrange(self.cur_index as int, i as int),
            decreases self.end_index - i,
        {
            r.push(self.chars[i]);
            i = i + 1;
        }
        r
    }
}

/// What the pattern parser has collected so far.
#[derive(Debug)]
pub struct DataKeeper {
    pub prefix: Option<String>,
    pub name: Option<String>,
    pub opt_type: Option<String>,
    pub deactivate: bool,
    pub optional: bool,
    pub forward_index: Option<u64>,
    pub backward_index: Option<u64>,
    pub anywhere: Option<bool>,
    pub list: Vec<u64>,
    pub except: Vec<u64>,
}

impl DataKeeper {
    /// An empty keeper.
    pub fn new() -> (r: Self)
        ensures
            r.is_empty_from_prefix(),
            r.prefix is None,
    {
        DataKeeper {
            prefix: None,
            name: None,
            opt_type: None,
            deactivate: false,
            optional: false,
            forward_index: None,
            backward_index: None,
            anywhere: None,
            list: Vec::new(),
            except: Vec::new(),
        }
    }

    /// The index that the keeper has collected.
    pub open spec fn index_view(&self) -> NonOptIndexView {
        if self.forward_index is Some {
            NonOptIndexView::Forward(self.forward_index->0)
        } else if self.backward_index is Some {
            NonOptIndexView::Backward(self.backward_index->0)
        } else if self.anywhere.unwrap_or(false) {
            NonOptIndexView::AnyWhere
        } else if self.list@.len() > 0 {
            NonOptIndexView::List(self.list@)
        } else if self.except@.len() > 0 {
            NonOptIndexView::Except(self.except@)
        } else {
            NonOptIndexView::Null
        }
    }

    pub open spec fn no_index(&self) -> bool {
        &&& self.forward_index is None
        &&& self.backward_index is None
        &&& self.anywhere is None
        &&& self.list@.len() == 0
        &&& self.except@.len() == 0
    }

    pub open spec fn no_flags(&self) -> bool {
        !self.deactivate && !self.optional
    }

    pub open spec fn is_empty_from_prefix(&self) -> bool {
        &&& self.name is None
        &&& self.opt_type is None
        &&& self.no_flags()
        &&& self.no_index()
    }
}

/// The prefix that a pattern reads with.
pub open spec fn exp_prefix(s: Seq<char>, ps: Seq<Seq<char>>) -> Option<Seq<char>> {
    if s.len() > 0 {
        match first_pattern_prefix(s, ps, 0) {
            Some(i) => Some(ps[i]),
            None => None,
        }
    } else {
        None
    }
}

pub open spec fn exp_name(s: Seq<char>, ps: Seq<Seq<char>>) -> Option<Seq<char>> {
    sub_opt(s, pos_prefix(s, ps), pos_name(s, ps))
}

pub open spec fn exp_type(s: Seq<char>, ps: Seq<Seq<char>>) -> Option<Seq<char>> {
    sub_opt(s, pos_type_start(s, ps), pos_type(s, ps))
}

/// The keeper holds the prefix, name and type that the pattern reads with.
pub open spec fn keeps_parts(dk: DataKeeper, s: Seq<char>, ps: Seq<Seq<char>>) -> bool {
    &&& opt_str_view(dk.prefix) == exp_prefix(s, ps)
    &&& opt_str_view(dk.name) == exp_name(s, ps)
    &&& opt_str_view(dk.opt_type) == exp_type(s, ps)
}

/// The keeper holds the marks of `s[from..to]`.
pub open spec fn keeps_flags(dk: DataKeeper, s: Seq<char>, from: int, to: int) -> bool {
    &&& dk.deactivate == has_char_in(s, from, to, '/')
    &&& dk.optional == has_char_in(s, from, to, '!')
}

/// The parser, in state `st` at position `cur` with keeper `dk`, has read the pattern
/// `s` so far as the grammar says.
pub open spec fn consistent(st: State, s: Seq<char>, ps: Seq<Seq<char>>, cur: int, dk: DataKeeper) -> bool {
    let p0 = pos_prefix(s, ps);
    let p1 = pos_name(s, ps);
    let p3 = pos_type(s, ps);
    let p4 = pos_flags(s, ps);
    match st {
        State::PreCheck => cur == 0 && dk.prefix is None && dk.is_empty_from_prefix(),
        State::Prefix => s.len() > 0 && cur == p0 && opt_str_view(dk.prefix) == exp_prefix(s, ps)
            && dk.is_empty_from_prefix(),
        State::Name => s.len() > 0 && cur == p1 && opt_str_view(dk.prefix) == exp_prefix(s, ps)
            && opt_str_view(dk.name) == exp_name(s, ps) && dk.opt_type is None && dk.no_flags()
            && dk.no_index(),
        State::Equal => s.len() > 0 && has_equal(s, ps) && cur == p1 + 1
            && opt_str_view(dk.prefix) == exp_prefix(s, ps)
            && opt_str_view(dk.name) == exp_name(s, ps) && dk.opt_type is None && dk.no_flags()
            && dk.no_index(),
        State::Type => s.len() > 0 && cur == p3 && keeps_parts(dk, s, ps) && dk.no_flags() && dk.no_index(),
        State::Optional | State::Deactivate => s.len() > 0 && p3 < cur <= p4 && keeps_parts(dk, s, ps)
            && keeps_flags(dk, s, p3, cur) && dk.no_index(),
        State::Index => s.len() > 0 && p4 < s.len() && s[p4] == '@' && cur == p4 + 1 && keeps_parts(dk, s, ps)
            && keeps_flags(dk, s, p3, p4) && dk.no_index(),
        State::FowradIndex | State::BackwardIndex | State::List | State::Except => s.len() > 0
            && p4 < s.len() && s[p4] == '@' && cur == s.len() && keeps_parts(dk, s, ps)
            && keeps_flags(dk, s, p3, p4)
            && spec_index_part(s.subrange(p4 + 1, s.len() as int)) == IndexOutcome::Index(dk.index_view()),
        State::End => false,
    }
}

/// The state that follows `st` when the parser stands at `cur` in `s`.
pub open spec fn spec_transition(st: State, s: Seq<char>, cur: int) -> State {
    let at_end = cur >= s.len();
    match st {
        State::PreCheck => if s.len() == 0 { State::End } else { State::Prefix },
        State::Prefix => if at_end { State::End } else { State::Name },
        State::Name => if at_end { State::End } else if s[cur] == '=' { State::Equal } else { State::Type },
        State::Equal => if at_end { State::End } else { State::Type },
        State::Type | State::Deactivate | State::Optional => if at_end {
            State::End
        } else if s[cur] == '!' {
            State::Optional
        } else if s[cur] == '/' {
            State::Deactivate
        } else if s[cur] == '@' {
            State::Index
        } else {
            State::End
        },
        State::Index => {
            let ip = s.subrange(cur, s.len() as int);
            if at_end {
                State::End
            } else if spec_starts_with(ip, seq!['+', '[']) || spec_starts_with(ip, seq!['[']) {
                State::List
            } else if spec_starts_with(ip, seq!['-', '[']) {
                State::Except
            } else if ip[0] == '-' {
                State::BackwardIndex
            } else {
                State::FowradIndex
            }
        },
        _ => State::End,
    }
}

/// A measure that each step of the parser decreases.
pub open spec fn state_rank(st: State) -> int {
    match st {
        State::PreCheck => 10,
        State::Prefix => 9,
        State::Name => 8,
        State::Equal => 7,
        State::Type => 6,
        State::Deactivate | State::Optional => 5,
        State::Index => 4,
        State::FowradIndex | State::BackwardIndex | State::List | State::Except => 3,
        State::End => 0,
    }
}

pub proof fn lemma_run_end(s: Seq<char>, i: int, kind: int, j: int)
    requires
        0 <= i <= j <= s.len(),
        forall|m: int| i <= m < j ==> !((kind == 0 && is_name_stop(#[trigger] s[m])) || (kind == 1
            && is_type_stop(s[m])) || (kind == 2 && !is_flag(s[m]))),
        j == s.len() || ((kind == 0 && is_name_stop(s[j])) || (kind == 1 && is_type_stop(s[j])) || (
        kind == 2 && !is_flag(s[j]))),
    ensures
        run_end(s, i, kind) == j,
    decreases j - i,
{
    if i < j {
        lemma_run_end(s, i + 1, kind, j);
    }
}

pub proof fn lemma_run_end_bounds(s: Seq<char>, i: int, kind: int)
    requires
        0 <= i <= s.len(),
    ensures
        i <= run_end(s, i, kind) <= s.len(),
        forall|m: int| i <= m < run_end(s, i, kind) ==> !((kind == 0 && is_name_stop(#[trigger] s[m])) || (kind == 1
            && is_type_stop(s[m])) || (kind == 2 && !is_flag(s[m]))),
        run_end(s, i, kind) < s.len() ==> ((kind == 0 && is_name_stop(s[run_end(s, i, kind)])) || (kind == 1
            && is_type_stop(s[run_end(s, i, kind)])) || (kind == 2 && !is_flag(s[run_end(s, i, kind)]))),
    decreases s.len() - i,
{
    if i < s.len() {
        lemma_run_end_bounds(s, i + 1, kind);
    }
}

/// The positions of the grammar come in order.
pub proof fn lemma_positions(s: Seq<char>, ps: Seq<Seq<char>>)
    requires
        s.len() > 0,
    ensures
        0 <= pos_prefix(s, ps) <= pos_name(s, ps) <= pos_type_start(s, ps) <= pos_type(s, ps) <= pos_flags(s, ps) <= s.len(),
        first_pattern_prefix(s, ps, 0) matches Some(i) ==> 0 <= i < ps.len() && spec_starts_with(s, ps[i]),
        pos_name(s, ps) < s.len() && !has_equal(s, ps) ==> is_type_stop(s[pos_name(s, ps)]),
        !has_equal(s, ps) ==> pos_type(s, ps) == pos_name(s, ps),
{
    lemma_first_prefix(s, ps, 0);
    let p0 = pos_prefix(s, ps);
    lemma_run_end_bounds(s, p0, 0);
    let p1 = pos_name(s, ps);
    let p2 = pos_type_start(s, ps);
    lemma_run_end_bounds(s, p2, 1);
    if !has_equal(s, ps) && p1 < s.len() {
        lemma_run_end(s, p2, 1, p2);
    }
    if !has_equal(s, ps) && p1 >= s.len() {
        lemma_run_end(s, p2, 1, p2);
    }
    lemma_run_end_bounds(s, pos_type(s, ps), 2);
}

pub proof fn lemma_first_prefix(s: Seq<char>, ps: Seq<Seq<char>>, i: int)
    requires
        0 <= i,
    ensures
        first_pattern_prefix(s, ps, i) matches Some(j) ==> i <= j < ps.len() && spec_starts_with(s, ps[j]),
    decreases ps.len() - i,
{
    if i < ps.len() && !spec_starts_with(s, ps[i]) {
        lemma_first_prefix(s, ps, i + 1);
    }
}


/// Parse a comma separated list of unsigned integers.
pub fn parse_u64_list(s: &str) -> (r: Option<Vec<u64>>)
    ensures
        match spec_parse_u64_list(s@) {
            Some(l) => r matches Some(v) && v@ == l,
            None => r is None,
        },
    decreases s@.len(),
{
    let n = s.unicode_len();
    let mut k: usize = 0;
    while k < n && s.get_char(k) != ','
        invariant
            n == s@.len(),
            k <= n,
            forall|j: int| 0 <= j < k ==> s@[j] != ',',
        decreases n - k,
    {
        k = k + 1;
    }
    proof {
        lemma_first_index_of(s@, ',', k as int);
    }
    if k >= n {
        match parse_u64(s) {
            Some(v) => {
                let mut r: Vec<u64> = Vec::new();
                r.push(v);
                Some(r)
            },
            None => None,
        }
    } else {
        let head = substring(s, 0, k);
        let rest = substring(s, k + 1, n);
        match parse_u64(head.as_str()) {
            Some(v) => {
                match parse_u64_list(rest.as_str()) {
                    Some(tail) => {
                        let mut r: Vec<u64> = Vec::new();
                        r.push(v);
                        let mut i: usize = 0;
                        while i < tail.len()
                            invariant
                                i <= tail.len(),
                                r@ == seq![v] + tail@.subrange(0, i as int),
                            decreases tail.len() - i,
                        {
                            r.push(tail[i]);
                            proof {
                                assert(tail@.subrange(0, i + 1) =~= tail@.subrange(0, i as int).push(tail@[i as int]));
                            }
                            i = i + 1;
                        }
                        assert(tail@.subrange(0, tail@.len() as int) =~= tail@);
                        Some(r)
                    },
                    None => None,
                }
            },
            None => None,
        }
    }
}

/// The spec of a step result that ends the parse.
pub open spec fn parse_result_ok(s: Seq<char>, ps: Seq<Seq<char>>, dk: DataKeeper) -> bool {
    spec_parse_pattern(s, ps) == PatternOutcome::Parsed(PatternParts {
        prefix: opt_str_view(dk.prefix),
        name: opt_str_view(dk.name),
        opt_type: opt_str_view(dk.opt_type),
        deactivate: dk.deactivate,
        force: dk.optional,
        index: dk.index_view(),
    })
}

/// The outcome that `State::parse` answers for the pattern `s`.
pub open spec fn parse_answers(s: Seq<char>, ps: Seq<Seq<char>>, r: Result<bool>, dk: DataKeeper) -> bool {
    match spec_parse_pattern(s, ps) {
        PatternOutcome::Parsed(_) => r matches Ok(b) && b && parse_result_ok(s, ps, dk),
        PatternOutcome::InvalidStr => r matches Err(Error::InvalidOptionStr(m)) && m@ == s,
        PatternOutcome::InvalidIndex => r matches Err(Error::InavlidNonOptionIndex(_)),
        PatternOutcome::Aborts => false,
    }
}

proof fn lemma_no_chars(s: Seq<char>, from: int, c: char)
    ensures
        !has_char_in(s, from, from, c),
{
}

proof fn lemma_chars_step(s: Seq<char>, from: int, to: int, c: char)
    requires
        from <= to < s.len(),
    ensures
        has_char_in(s, from, to + 1, c) == (has_char_in(s, from, to, c) || s[to] == c),
{
    if has_char_in(s, from, to + 1, c) && s[to] != c {
        let i = choose|i: int| from <= i < to + 1 && s[i] == c;
        assert(from <= i < to && s[i] == c);
    }
}

/// A parser that has reached the end of the pattern in a consistent state has read
/// the pattern as the grammar says.
proof fn lemma_end_ok(st: State, s: Seq<char>, ps: Seq<Seq<char>>, dk: DataKeeper)
    requires
        consistent(st, s, ps, s.len() as int, dk),
    ensures
        parse_result_ok(s, ps, dk),
{
    if s.len() > 0 {
        lemma_positions(s, ps);
    }
    let p0 = pos_prefix(s, ps);
    let p1 = pos_name(s, ps);
    let p3 = pos_type(s, ps);
    let p4 = pos_flags(s, ps);
    let n = s.len() as int;
    match st {
        State::PreCheck => {
            assert(first_pattern_prefix(s, ps, 0) is None ==> prefix_end(s, ps) == 0);
            lemma_run_end(s, 0, 0, 0);
            lemma_run_end(s, 0, 1, 0);
            lemma_run_end(s, 0, 2, 0);
            assert(!has_char_in(s, p3, p4, '/'));
            assert(!has_char_in(s, p3, p4, '!'));
        },
        State::Prefix => {
            lemma_run_end(s, n, 0, n);
            lemma_run_end(s, n, 1, n);
            lemma_run_end(s, n, 2, n);
        },
        State::Name => {
            lemma_run_end(s, n, 1, n);
            lemma_run_end(s, n, 2, n);
        },
        State::Equal => {
            lemma_run_end(s, n, 1, n);
            lemma_run_end(s, n, 2, n);
        },
        State::Type => {
            lemma_run_end(s, n, 2, n);
        },
        _ => {},
    }
}


fn is_run_stop(c: char, kind: u8) -> (r: bool)
    ensures
        r == ((kind == 0 && is_name_stop(c)) || (kind == 1 && is_type_stop(c)) || (kind == 2 && !is_flag(c))),
{
    (kind == 0 && (c == '=' || c == '!' || c == '/' || c == '@')) || (kind == 1 && (c == '!' || c
        == '/' || c == '@')) || (kind == 2 && !(c == '!' || c == '/'))
}

/// The first position from the parser's position on that ends a run of the given
/// kind (see [`run_end`]).
fn scan_run(pattern: &ParserPattern, kind: u8) -> (r: usize)
    requires
        pattern.wf(),
        kind <= 2,
    ensures
        r == run_end(pattern.chars@, pattern.cur_index as int, kind as int),
        pattern.cur_index <= r <= pattern.end_index,
{
    let ghost s = pattern.chars@;
    let mut k = pattern.cur_index;
    while k < pattern.end_index && !is_run_stop(pattern.chars[k], kind)
        invariant
            pattern.wf(),
            s == pattern.chars@,
            pattern.cur_index <= k <= pattern.end_index,
            forall|m: int| pattern.cur_index <= m < k ==> !((kind == 0 && is_name_stop(#[trigger] s[m])) || (kind
                == 1 && is_type_stop(s[m])) || (kind == 2 && !is_flag(s[m]))),
        decreases pattern.end_index - k,
    {
        k = k + 1;
    }
    proof {
        lemma_run_end(s, pattern.cur_index as int, kind as int, k as int);
    }
    k
}

impl State {
    pub fn new() -> (r: Self)
        ensures
            r == State::PreCheck,
    {
        State::PreCheck
    }

    /// The state that follows this one at the parser's position.
    pub fn transition(self, pattern: &ParserPattern) -> (r: Self)
        requires
            pattern.wf(),
        ensures
            r == spec_transition(self, pattern.chars@, pattern.cur_index as int),
    {
        let at_end = pattern.is_end();
        let cur = pattern.cur_index;
        match self {
            State::PreCheck => {
                if pattern.end_index == 0 {
                    State::End
                } else {
                    State::Prefix
                }
            },
            State::Prefix => {
                if at_end {
                    State::End
                } else {
                    State::Name
                }
            },
            State::Name => {
                if at_end {
                    State::End
                } else if pattern.chars[cur] == '=' {
                    State::Equal
                } else {
                    State::Type
                }
            },
            State::Equal => {
                if at_end {
                    State::End
                } else {
                    State::Type
                }
            },
            State::Type | State::Deactivate | State::Optional => {
                if at_end {
                    State::End
                } else {
                    let ch = pattern.chars[cur];
                    if ch == '!' {
                        State::Optional
                    } else if ch == '/' {
                        State::Deactivate
                    } else if ch == '@' {
                        State::Index
                    } else {
                        State::End
                    }
                }
            },
            State::Index => {
                if at_end {
                    State::End
                } else {
                    let ghost ip = pattern.chars@.subrange(cur as int, pattern.end_index as int);
                    let c0 = pattern.chars[cur];
                    let two = pattern.end_index - cur >= 2;
                    let c1 = if two { pattern.chars[cur + 1] } else { ' ' };
                    proof {
                        assert(spec_starts_with(ip, seq!['+', '[']) == (two && c0 == '+' && c1 == '[')) by {
                            if two {
                                assert(ip.subrange(0, 2) =~= seq![c0, c1]);
                            }
                        }
                        assert(spec_starts_with(ip, seq!['-', '[']) == (two && c0 == '-' && c1 == '[')) by {
                            if two {
                                assert(ip.subrange(0, 2) =~= seq![c0, c1]);
                            }
                        }
                        assert(spec_starts_with(ip, seq!['[']) == (c0 == '[')) by {
                            assert(ip.len() >= 1);
                            assert(ip[0] == c0);
                            assert(ip.subrange(0, 1) =~= seq![c0]);
                            assert(seq!['['].len() == 1);
                            if c0 != '[' {
                                assert(ip.subrange(0, 1)[0] != seq!['['][0]);
                            }
                        }
                    }
                    if (two && c0 == '+' && c1 == '[') || c0 == '[' {
                        State::List
                    } else if two && c0 == '-' && c1 == '[' {
                        State::Except
                    } else if c0 == '-' {
                        State::BackwardIndex
                    } else {
                        State::FowradIndex
                    }
                }
            },
            _ => State::End,
        }
    }
}


proof fn lemma_u64_list_nonempty(s: Seq<char>)
    ensures
        spec_parse_u64_list(s) matches Some(l) ==> l.len() > 0,
{
}

/// The position of the first prefix in `prefixs` with which `s` starts.
fn find_pattern_prefix(s: &str, prefixs: &Vec<String>) -> (r: Option<usize>)
    ensures
        r matches Some(i) ==> first_pattern_prefix(s@, strings_view(prefixs@), 0) == Some(i as int),
        r is None ==> first_pattern_prefix(s@, strings_view(prefixs@), 0) is None,
{
    let ghost ps = strings_view(prefixs@);
    let mut i: usize = 0;
    while i < prefixs.len()
        invariant
            i <= prefixs.len(),
            ps == strings_view(prefixs@),
            first_pattern_prefix(s@, ps, 0) == first_pattern_prefix(s@, ps, i as int),
        decreases prefixs.len() - i,
    {
        assert(ps[i as int] == prefixs@[i as int]@);
        if starts_with(s, prefixs[i].as_str()) {
            return Some(i);
        }
        i = i + 1;
    }
    None
}

impl State {
    /// Run the parser from this state to the end of the pattern, collecting what the
    /// pattern holds in `data_keeper`.
    pub fn parse(self, pattern: &mut ParserPattern, data_keeper: &mut DataKeeper) -> (r: Result<bool>)
        requires
            old(pattern).wf(),
            consistent(self, old(pattern).chars@, old(pattern).spec_prefixes(), old(pattern).cur_index as int, *old(data_keeper)),
            !(spec_parse_pattern(old(pattern).chars@, old(pattern).spec_prefixes()) is Aborts),
        ensures
            final(pattern).wf(),
            final(pattern).chars == old(pattern).chars,
            final(pattern).pattern == old(pattern).pattern,
            final(pattern).support_prefix == old(pattern).support_prefix,
            parse_answers(old(pattern).chars@, old(pattern).spec_prefixes(), r, *final(data_keeper)),
        decreases old(pattern).end_index - old(pattern).cur_index, state_rank(self),
    {
        let ghost s = pattern.chars@;
        let ghost ps = pattern.spec_prefixes();
        if !pattern.is_end() && self != State::End {
            proof {
                lemma_positions(s, ps);
                lemma_run_end_bounds(s, pos_prefix(s, ps), 0);
                lemma_run_end_bounds(s, pos_type_start(s, ps), 1);
                lemma_run_end_bounds(s, pos_type(s, ps), 2);
            }
            let ghost p1 = pos_name(s, ps);
            let ghost p3 = pos_type(s, ps);
            let ghost p4 = pos_flags(s, ps);
            let ghost cur0 = pattern.cur_index as int;
            let state = self.transition(pattern);
            let cur = pattern.cur_index;
            match state {
                State::Prefix => {
                    match find_pattern_prefix(pattern.pattern, pattern.support_prefix) {
                        Some(i) => {
                            let prefix = &pattern.support_prefix[i];
                            assert(ps[i as int] == prefix@);
                            assert(first_pattern_prefix(s, ps, 0) == Some(i as int));
                            assert(spec_starts_with(s, ps[i as int]));
                            assert(prefix@.len() <= s.len());
                            data_keeper.prefix = Some(prefix.clone());
                            let plen = prefix.as_str().unicode_len();
                            pattern.inc_index(plen);
                        },
                        None => {},
                    }
                    if pattern.cur_index < pattern.end_index && pattern.chars[pattern.cur_index] == '|' {
                        pattern.inc_index(1);
                    }
                    assert(consistent(state, s, ps, pattern.cur_index as int, *data_keeper));
                },
                State::Name => {
                    let k = scan_run(pattern, 0);
                    if k > cur {
                        data_keeper.name = Some(substring(pattern.pattern, cur, k));
                        pattern.set_index(k);
                    }
                    assert(consistent(state, s, ps, pattern.cur_index as int, *data_keeper));
                },
                State::Equal => {
                    pattern.inc_index(1);
                    assert(consistent(state, s, ps, pattern.cur_index as int, *data_keeper));
                },
                State::Type => {
                    proof {
                        if self == State::Name {
                            lemma_run_end(s, cur as int, 1, cur as int);
                        }
                    }
                    let k = scan_run(pattern, 1);
                    if k > cur {
                        data_keeper.opt_type = Some(substring(pattern.pattern, cur, k));
                        pattern.set_index(k);
                    }
                    assert(consistent(state, s, ps, pattern.cur_index as int, *data_keeper));
                },
                State::Deactivate | State::Optional => {
                    proof {
                        if self == State::Type {
                            assert(p4 > p3);
                            lemma_no_chars(s, p3, '/');
                            lemma_no_chars(s, p3, '!');
                        }
                        lemma_chars_step(s, p3, cur as int, '/');
                        lemma_chars_step(s, p3, cur as int, '!');
                    }
                    if state == State::Deactivate {
                        data_keeper.deactivate = true;
                    } else {
                        data_keeper.optional = true;
                    }
                    pattern.inc_index(1);
                    assert(consistent(state, s, ps, pattern.cur_index as int, *data_keeper));
                },
                State::Index => {
                    proof {
                        if self == State::Type {
                            lemma_run_end(s, p3, 2, p3);
                            lemma_no_chars(s, p3, '/');
                            lemma_no_chars(s, p3, '!');
                        }
                    }
                    pattern.inc_index(1);
                    assert(consistent(state, s, ps, pattern.cur_index as int, *data_keeper));
                },
                State::FowradIndex => {
                    let end = pattern.end_index;
                    let part = substring(pattern.pattern, cur, end);
                    assert(part@ == s.subrange(p4 + 1, s.len() as int));
                    match parse_u64(part.as_str()) {
                        Some(n) => {
                            if n > 0 {
                                data_keeper.forward_index = Some(n);
                            } else {
                                data_keeper.anywhere = Some(true);
                            }
                            pattern.set_index(end);
                        },
                        None => {
                            return Err(Error::InavlidNonOptionIndex(part));
                        },
                    }
                },
                State::BackwardIndex => {
                    let end = pattern.end_index;
                    let part = substring(pattern.pattern, cur + 1, end);
                    assert(part@ == s.subrange(p4 + 1, s.len() as int).drop_first());
                    match parse_u64(part.as_str()) {
                        Some(n) => {
                            if n > 0 {
                                data_keeper.backward_index = Some(n);
                            } else {
                                data_keeper.anywhere = Some(true);
                            }
                            pattern.set_index(end);
                        },
                        None => {
                            return Err(Error::InavlidNonOptionIndex(part));
                        },
                    }
                },
                State::List | State::Except => {
                    let end = pattern.end_index;
                    let plus = end - cur >= 2 && pattern.chars[cur] == '+';
                    let start: usize = if plus || state == State::Except { 2 } else { 1 };
                    let ghost ip = s.subrange(p4 + 1, s.len() as int);
                    proof {
                        if state == State::List {
                            if plus {
                                assert(ip[0] == '+');
                                assert(ip.subrange(0, 1)[0] != seq!['['][0]);
                                assert(!spec_starts_with(ip, seq!['[']));
                            } else {
                                assert(!spec_starts_with(ip, seq!['+', '[']));
                            }
                        }
                    }
                    let part = substring(pattern.pattern, cur + start, end - 1);
                    assert(part@ == ip.subrange(start as int, ip.len() - 1));
                    proof { lemma_u64_list_nonempty(part@); }
                    match parse_u64_list(part.as_str()) {
                        Some(l) => {
                            if state == State::List {
                                data_keeper.list = l;
                            } else {
                                data_keeper.except = l;
                            }
                            pattern.set_index(end);
                        },
                        None => {
                            return Err(Error::InavlidNonOptionIndex(part));
                        },
                    }
                },
                State::End => {
                    proof {
                        if self == State::Optional || self == State::Deactivate {
                            if cur < p4 {
                                assert(is_flag(s[cur as int]));
                            }
                        }
                    }
                    return Err(Error::InvalidOptionStr(pattern.pattern.to_owned()));
                },
                State::PreCheck => {},
            }
            state.parse(pattern, data_keeper)
        } else {
            proof {
                if self != State::End {
                    lemma_end_ok(self, s, ps, *data_keeper);
                }
            }
            Ok(true)
        }
    }
}

} // verus!
