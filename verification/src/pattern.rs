use vstd::prelude::*;

use crate::opt::NonOptIndexView;
use crate::text::{spec_parse_u64, spec_starts_with};
use crate::arg::first_index_of;

verus! {

// The grammar of option patterns `<prefix>[|]<name>[=<type>][!/]*[@<index>]`, stated over
// the characters of the pattern.

/// Characters that end an option name.
pub open spec fn is_name_stop(c: char) -> bool {
    c == '=' || c == '!' || c == '/' || c == '@'
}

/// Characters that end an option type.
pub open spec fn is_type_stop(c: char) -> bool {
    c == '!' || c == '/' || c == '@'
}

/// The marks that follow the type: `!` (force required) and `/` (deactivate style).
pub open spec fn is_flag(c: char) -> bool {
    c == '!' || c == '/'
}

/// The first position from `i` on whose character ends a run of the given kind:
/// 0 for names, 1 for types, 2 for marks; the length of `s` when the run reaches the end.
pub open spec fn run_end(s: Seq<char>, i: int, kind: int) -> int
    decreases s.len() - i,
{
    if i < 0 || i >= s.len() {
        s.len() as int
    } else if (kind == 0 && is_name_stop(s[i])) || (kind == 1 && is_type_stop(s[i])) || (
    kind == 2 && !is_flag(s[i])) {
        i
    } else {
        run_end(s, i + 1, kind)
    }
}

/// The first prefix of `prefixs`, from `i` on, with which `s` starts.
pub open spec fn first_pattern_prefix(s: Seq<char>, prefixs: Seq<Seq<char>>, i: int) -> Option<int>
    decreases prefixs.len() - i,
{
    if i < 0 || i >= prefixs.len() {
        None
    } else if spec_starts_with(s, prefixs[i]) {
        Some(i)
    } else {
        first_pattern_prefix(s, prefixs, i + 1)
    }
}

/// Where the prefix ends.
pub open spec fn prefix_end(s: Seq<char>, ps: Seq<Seq<char>>) -> int {
    match first_pattern_prefix(s, ps, 0) {
        Some(i) => ps[i].len() as int,
        None => 0,
    }
}

/// Where the name starts: after the prefix and the `|` that may part it from the name.
pub open spec fn pos_prefix(s: Seq<char>, ps: Seq<Seq<char>>) -> int {
    let e = prefix_end(s, ps);
    if 0 <= e < s.len() && s[e] == '|' { e + 1 } else { e }
}

/// Where the name ends.
pub open spec fn pos_name(s: Seq<char>, ps: Seq<Seq<char>>) -> int {
    run_end(s, pos_prefix(s, ps), 0)
}

/// The name is followed by `=`.
pub open spec fn has_equal(s: Seq<char>, ps: Seq<Seq<char>>) -> bool {
    pos_name(s, ps) < s.len() && s[pos_name(s, ps)] == '='
}

/// Where the type starts.
pub open spec fn pos_type_start(s: Seq<char>, ps: Seq<Seq<char>>) -> int {
    if has_equal(s, ps) { pos_name(s, ps) + 1 } else { pos_name(s, ps) }
}

/// Where the type ends.
pub open spec fn pos_type(s: Seq<char>, ps: Seq<Seq<char>>) -> int {
    run_end(s, pos_type_start(s, ps), 1)
}

/// Where the marks end.
pub open spec fn pos_flags(s: Seq<char>, ps: Seq<Seq<char>>) -> int {
    run_end(s, pos_type(s, ps), 2)
}

/// `c` occurs in `s[from..to]`.
pub open spec fn has_char_in(s: Seq<char>, from: int, to: int, c: char) -> bool {
    exists|i: int| from <= i < to && s[i] == c
}

/// The values of a comma separated list of unsigned integers.
pub open spec fn spec_parse_u64_list(s: Seq<char>) -> Option<Seq<u64>>
    decreases s.len(),
{
    let k = first_index_of(s, ',');
    if k >= s.len() || k < 0 {
        match spec_parse_u64(s) {
            Some(v) => Some(seq![v]),
            None => None,
        }
    } else {
        match (spec_parse_u64(s.subrange(0, k)), spec_parse_u64_list(s.subrange(k + 1, s.len() as int))) {
            (Some(v), Some(rest)) => Some(seq![v] + rest),
            _ => None,
        }
    }
}

/// How the index part (after `@`) of a pattern reads.
pub ghost enum IndexOutcome {
    Index(NonOptIndexView),
    /// A number in it does not parse.
    Invalid,
    /// A list that is too short to hold its brackets.
    Aborts,
}

pub open spec fn spec_index_part(ip: Seq<char>) -> IndexOutcome {
    if ip.len() == 0 {
        IndexOutcome::Index(NonOptIndexView::Null)
    } else if spec_starts_with(ip, seq!['+', '[']) || spec_starts_with(ip, seq!['[']) {
        let start = if spec_starts_with(ip, seq!['+', '[']) { 2int } else { 1int };
        if ip.len() - 1 < start {
            IndexOutcome::Aborts
        } else {
            match spec_parse_u64_list(ip.subrange(start, ip.len() - 1)) {
                Some(l) => IndexOutcome::Index(NonOptIndexView::List(l)),
                None => IndexOutcome::Invalid,
            }
        }
    } else if spec_starts_with(ip, seq!['-', '[']) {
        if ip.len() < 3 {
            IndexOutcome::Aborts
        } else {
            match spec_parse_u64_list(ip.subrange(2, ip.len() - 1)) {
                Some(l) => IndexOutcome::Index(NonOptIndexView::Except(l)),
                None => IndexOutcome::Invalid,
            }
        }
    } else if ip[0] == '-' {
        match spec_parse_u64(ip.drop_first()) {
            Some(n) => IndexOutcome::Index(
                if n > 0 { NonOptIndexView::Backward(n) } else { NonOptIndexView::AnyWhere },
            ),
            None => IndexOutcome::Invalid,
        }
    } else {
        match spec_parse_u64(ip) {
            Some(n) => IndexOutcome::Index(
                if n > 0 { NonOptIndexView::Forward(n) } else { NonOptIndexView::AnyWhere },
            ),
            None => IndexOutcome::Invalid,
        }
    }
}

/// The parts of a well formed pattern.
pub ghost struct PatternParts {
    pub prefix: Option<Seq<char>>,
    pub name: Option<Seq<char>>,
    pub opt_type: Option<Seq<char>>,
    /// A `/` mark is present.
    pub deactivate: bool,
    /// A `!` mark is present.
    pub force: bool,
    pub index: NonOptIndexView,
}

pub ghost enum PatternOutcome {
    Parsed(PatternParts),
    /// Characters follow the marks that are not an index.
    InvalidStr,
    /// A number of the index does not parse.
    InvalidIndex,
    /// The index is a list too short to hold its brackets.
    Aborts,
}

pub open spec fn sub_opt(s: Seq<char>, from: int, to: int) -> Option<Seq<char>> {
    if from < to { Some(s.subrange(from, to)) } else { None }
}

/// What a pattern reads as: the first prefix of `ps` with which it starts, then an
/// optional `|` that parts the prefix from the name, then the name up to the first of `=!/@`, then after a `=` the type up to the first of
/// `!/@`, then any number of the marks `!` and `/`, then optionally `@` and an index.
pub open spec fn spec_parse_pattern(s: Seq<char>, ps: Seq<Seq<char>>) -> PatternOutcome {
    let p4 = pos_flags(s, ps);
    let parts = PatternParts {
        prefix: if s.len() > 0 {
            match first_pattern_prefix(s, ps, 0) {
                Some(i) => Some(ps[i]),
                None => None,
            }
        } else {
            None
        },
        name: sub_opt(s, pos_prefix(s, ps), pos_name(s, ps)),
        opt_type: sub_opt(s, pos_type_start(s, ps), pos_type(s, ps)),
        deactivate: has_char_in(s, pos_type(s, ps), p4, '/'),
        force: has_char_in(s, pos_type(s, ps), p4, '!'),
        index: NonOptIndexView::Null,
    };
    if p4 >= s.len() {
        PatternOutcome::Parsed(parts)
    } else if s[p4] != '@' {
        PatternOutcome::InvalidStr
    } else {
        match spec_index_part(s.subrange(p4 + 1, s.len() as int)) {
            IndexOutcome::Index(ix) => PatternOutcome::Parsed(PatternParts { index: ix, ..parts }),
            IndexOutcome::Invalid => PatternOutcome::InvalidIndex,
            IndexOutcome::Aborts => PatternOutcome::Aborts,
        }
    }
}

} // verus!
