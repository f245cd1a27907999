use vstd::prelude::*;

use crate::error::{Error, Result};
use crate::id::Identifier;
use crate::callback::{CallbackType, OptCallback};
use crate::opt::{Type, Value};
use crate::opt::common::{CommonOpt, OptKind, is_opt_kind, kind_callback};
use crate::opt::spec_calc_index;
use crate::set::DefaultSet;
use crate::text::{append_decimal, decimal};
use std::collections::HashMap;
use vstd::std_specs::hash::spec_hash_map_iter;
use vstd::std_specs::iter::IteratorSpec;

verus! {

broadcast use vstd::std_specs::hash::group_hash_axioms;

/// The option is optional or has a value.
pub open spec fn opt_ok(o: CommonOpt) -> bool {
    o.optional || o.spec_has_value()
}

/// Every option (as opposed to non-option) is optional or has a value.
pub open spec fn opts_ok(opts: Seq<CommonOpt>) -> bool {
    forall|i: int| 0 <= i < opts.len() && is_opt_kind((#[trigger] opts[i]).kind) ==> opt_ok(opts[i])
}

/// Every option checks; the first that does not gives the error.
pub fn parser_default_opt_check(set: &DefaultSet) -> (r: Result<bool>)
    ensures
        r is Ok <==> opts_ok(set.opts@),
        r is Ok ==> r == Ok::<bool, Error>(true),
        r matches Err(e) ==> exists|i: int| 0 <= i < set.opts@.len() && is_opt_kind((#[trigger] set.opts@[i]).kind)
            && !opt_ok(set.opts@[i]) && (e matches Error::OptionForceRequired(m) && m@
            == set.opts@[i].spec_prefix() + set.opts@[i].name@) && forall|j: int| 0 <= j < i && is_opt_kind(
            (#[trigger] set.opts@[j]).kind,
        ) ==> opt_ok(set.opts@[j]),
{
    let mut i: usize = 0;
    while i < set.opts.len()
        invariant
            i <= set.opts@.len(),
            forall|j: int| 0 <= j < i && is_opt_kind((#[trigger] set.opts@[j]).kind) ==> opt_ok(set.opts@[j]),
        decreases set.opts@.len() - i,
    {
        let opt = &set.opts[i];
        if opt.is_style(crate::opt::Style::Boolean) || opt.is_style(crate::opt::Style::Argument) || opt.is_style(
            crate::opt::Style::Multiple,
        ) {
            match opt.check() {
                Ok(_) => {},
                Err(e) => {
                    return Err(e);
                },
            }
        }
        i = i + 1;
    }
    Ok(true)
}

/// The position a non-option is grouped by: where its index points when the
/// number of arguments is unbounded and the current position is 0.
pub open spec fn nonopt_key(o: CommonOpt) -> u64 {
    match spec_calc_index(o.index@, u64::MAX, 0) {
        Some(k) => k,
        None => u64::MAX,
    }
}

/// The option is a non-option grouped by `k`.
pub open spec fn in_group(o: CommonOpt, k: u64) -> bool {
    !is_opt_kind(o.kind) && nonopt_key(o) == k
}

/// A group of non-options holds: for the first position, a `cmd` that checks, or,
/// beside a `cmd`, a `pos` that checks and has a value, or, without a `cmd`, a `pos`
/// that checks; for any other position, a member that checks.
pub open spec fn group_valid(opts: Seq<CommonOpt>, k: u64) -> bool {
    if k == 0 || k == 1 {
        let has_cmd = exists|i: int| 0 <= i < opts.len() && in_group(#[trigger] opts[i], k) && opts[i].kind == OptKind::Cmd;
        let other = exists|i: int| 0 <= i < opts.len() && in_group(#[trigger] opts[i], k) && opts[i].kind != OptKind::Cmd;
        let cmd_valid = exists|i: int| 0 <= i < opts.len() && in_group(#[trigger] opts[i], k) && opts[i].kind == OptKind::Cmd
            && opt_ok(opts[i]);
        let pos_valid = exists|i: int| 0 <= i < opts.len() && in_group(#[trigger] opts[i], k) && opts[i].kind == OptKind::Pos
            && opt_ok(opts[i]);
        let force_valid = exists|i: int| 0 <= i < opts.len() && in_group(#[trigger] opts[i], k) && opts[i].kind
            == OptKind::Pos && opt_ok(opts[i]) && opts[i].spec_has_value();
        if has_cmd {
            if other {
                cmd_valid || force_valid
            } else {
                cmd_valid
            }
        } else {
            pos_valid
        }
    } else {
        exists|i: int| 0 <= i < opts.len() && in_group(#[trigger] opts[i], k) && opt_ok(opts[i])
    }
}

/// Every group of non-options holds.
pub open spec fn nonopts_ok(opts: Seq<CommonOpt>) -> bool {
    forall|i: int| 0 <= i < opts.len() && !is_opt_kind((#[trigger] opts[i]).kind) ==> group_valid(opts, nonopt_key(opts[i]))
}

/// The option in back quotes: `` `name` ``.
pub open spec fn quoted(o: CommonOpt) -> Seq<char> {
    seq!['`'] + o.spec_prefix() + o.name@ + seq!['`']
}

/// The members of group `k` among the first `n` options, quoted and joined by ` or `.
pub open spec fn group_names(opts: Seq<CommonOpt>, k: u64, n: int) -> Seq<char>
    decreases n,
{
    if n <= 0 {
        Seq::empty()
    } else {
        let p = group_names(opts, k, n - 1);
        if in_group(opts[n - 1], k) {
            if p.len() == 0 {
                quoted(opts[n - 1])
            } else {
                p + seq![' ', 'o', 'r', ' '] + quoted(opts[n - 1])
            }
        } else {
            p
        }
    }
}

fn key_of(o: &CommonOpt) -> (r: u64)
    ensures
        r == nonopt_key(*o),
{
    match o.index.calc_index(u64::MAX, 0) {
        Some(k) => k,
        None => u64::MAX,
    }
}

fn group_message(opts: &Vec<CommonOpt>, k: u64) -> (r: String)
    ensures
        r@ == group_names(opts@, k, opts@.len() as int),
{
    let mut m = String::new();
    let mut i: usize = 0;
    proof {
        reveal_strlit("`");
        reveal_strlit(" or ");
    }
    while i < opts.len()
        invariant
            i <= opts@.len(),
            m@ == group_names(opts@, k, i as int),
            "`"@ == seq!['`'],
            " or "@ == seq![' ', 'o', 'r', ' '],
        decreases opts@.len() - i,
    {
        let o = &opts[i];
        if !o.is_opt() && key_of(o) == k {
            if m.as_str().unicode_len() > 0 {
                m.append(" or ");
            }
            m.append("`");
            m.append(o.prefix_str());
            m.append(o.name.as_str());
            m.append("`");
            assert(m@ =~= group_names(opts@, k, i + 1));
        }
        i = i + 1;
    }
    m
}

/// `ids` are the positions of the members of group `k` among the options, each
/// member once.
pub open spec fn members_of(opts: Seq<CommonOpt>, k: u64, ids: Seq<u64>) -> bool {
    &&& forall|q: int| 0 <= q < ids.len() ==> (#[trigger] ids[q]) < opts.len() && in_group(opts[ids[q] as int], k)
    &&& forall|j: int| 0 <= j < opts.len() && in_group(#[trigger] opts[j], k) ==> ids.contains(j as u64)
}

/// Some member of a group satisfies `pred` exactly when some option of the group
/// does.
proof fn lemma_members_exist(opts: Seq<CommonOpt>, k: u64, ids: Seq<u64>, pred: spec_fn(CommonOpt) -> bool)
    requires
        members_of(opts, k, ids),
        opts.len() <= u64::MAX,
    ensures
        (exists|q: int| 0 <= q < ids.len() && pred(opts[#[trigger] ids[q] as int])) == (exists|j: int| 0 <= j < opts.len()
            && in_group(#[trigger] opts[j], k) && pred(opts[j])),
{
    if exists|q: int| 0 <= q < ids.len() && pred(opts[#[trigger] ids[q] as int]) {
        let q = choose|q: int| 0 <= q < ids.len() && pred(opts[#[trigger] ids[q] as int]);
        let j = ids[q] as int;
        assert(in_group(opts[j], k));
    }
    if exists|j: int| 0 <= j < opts.len() && in_group(#[trigger] opts[j], k) && pred(opts[j]) {
        let j = choose|j: int| 0 <= j < opts.len() && in_group(#[trigger] opts[j], k) && pred(opts[j]);
        assert(ids.contains(j as u64));
        let q = choose|q: int| 0 <= q < ids.len() && ids[q] == j as u64;
        assert(ids[q] as int == j);
        assert(pred(opts[ids[q] as int]));
    }
}

/// Whether the group `k`, with the members at the positions `ids`, holds.
fn group_valid_members(opts: &Vec<CommonOpt>, k: u64, ids: &Vec<u64>) -> (r: bool)
    requires
        members_of(opts@, k, ids@),
        opts@.len() <= u64::MAX,
    ensures
        r == group_valid(opts@, k),
{
    let mut has_cmd = false;
    let mut other = false;
    let mut cmd_valid = false;
    let mut pos_valid = false;
    let mut force_valid = false;
    let mut any_valid = false;
    let mut q: usize = 0;
    while q < ids.len()
        invariant
            q <= ids@.len(),
            members_of(opts@, k, ids@),
            opts@.len() <= u64::MAX,
            has_cmd == exists|p: int| 0 <= p < q && (opts@[#[trigger] ids@[p] as int].kind == OptKind::Cmd),
            other == exists|p: int| 0 <= p < q && (opts@[#[trigger] ids@[p] as int].kind != OptKind::Cmd),
            cmd_valid == exists|p: int| 0 <= p < q && (opts@[#[trigger] ids@[p] as int].kind == OptKind::Cmd && opt_ok(opts@[ids@[p] as int])),
            pos_valid == exists|p: int| 0 <= p < q && (opts@[#[trigger] ids@[p] as int].kind == OptKind::Pos && opt_ok(opts@[ids@[p] as int])),
            force_valid == exists|p: int| 0 <= p < q && (opts@[#[trigger] ids@[p] as int].kind == OptKind::Pos && opt_ok(opts@[ids@[p] as int]) && opts@[ids@[p] as int].spec_has_value()),
            any_valid == exists|p: int| 0 <= p < q && (opt_ok(opts@[#[trigger] ids@[p] as int])),
        decreases ids@.len() - q,
    {
        assert(ids@[q as int] < opts@.len());
        assert(opts@.len() == opts.len());
        let at = ids[q];
        assert(at < opts.len());
        let at = at as usize;
        assert(at as int == ids@[q as int] as int);
        let o = &opts[at];
        assert(opts@[ids@[q as int] as int] == *o);
        let ok = o.optional || o.has_value();
        assert(ok == opt_ok(*o));
        match o.kind {
            OptKind::Cmd => {
                has_cmd = true;
                cmd_valid = cmd_valid || ok;
            },
            OptKind::Pos => {
                other = true;
                pos_valid = pos_valid || ok;
                force_valid = force_valid || (ok && o.has_value());
            },
            _ => {
                other = true;
            },
        }
        any_valid = any_valid || ok;
        q = q + 1;
    }
    proof {
        lemma_members_exist(opts@, k, ids@, |o: CommonOpt| o.kind == OptKind::Cmd);
        lemma_members_exist(opts@, k, ids@, |o: CommonOpt| o.kind != OptKind::Cmd);
        lemma_members_exist(opts@, k, ids@, |o: CommonOpt| o.kind == OptKind::Cmd && opt_ok(o));
        lemma_members_exist(opts@, k, ids@, |o: CommonOpt| o.kind == OptKind::Pos && opt_ok(o));
        lemma_members_exist(opts@, k, ids@, |o: CommonOpt| o.kind == OptKind::Pos && opt_ok(o) && o.spec_has_value());
        lemma_members_exist(opts@, k, ids@, |o: CommonOpt| opt_ok(o));
    }
    if k == 0 || k == 1 {
        if has_cmd {
            if other {
                cmd_valid || force_valid
            } else {
                cmd_valid
            }
        } else {
            pos_valid
        }
    } else {
        any_valid
    }
}

/// Every group of non-options (grouped by the position their index points to)
/// holds. The non-options are gathered by group in a map; a group that does not
/// hold (the first the map hands out) gives the error, which names every member
/// of that group.
pub fn parser_default_nonopt_check(set: &DefaultSet) -> (r: Result<bool>)
    ensures
        r is Ok <==> nonopts_ok(set.opts@),
        r is Ok ==> r == Ok::<bool, Error>(true),
        r matches Err(e) ==> exists|i: int| 0 <= i < set.opts@.len() && !is_opt_kind((#[trigger] set.opts@[i]).kind)
            && !group_valid(set.opts@, nonopt_key(set.opts@[i])) && (e matches Error::NonOptionForceRequired(m)
            && m@ == group_names(set.opts@, nonopt_key(set.opts@[i]), set.opts@.len() as int)),
{
    let opts = &set.opts;
    proof {
        assert(opts@.len() == opts.len());
    }
    let mut index_map: HashMap<u64, Vec<u64>> = HashMap::new();
    let mut i: usize = 0;
    while i < opts.len()
        invariant
            i <= opts@.len(),
            opts@.len() <= u64::MAX,
            forall|key: u64| #[trigger] index_map@.contains_key(key) ==> members_of(opts@.take(i as int), key,
                index_map@[key]@) && index_map@[key]@.len() > 0,
            forall|j: int| 0 <= j < i && !is_opt_kind((#[trigger] opts@[j]).kind) ==> index_map@.contains_key(
                nonopt_key(opts@[j])),
        decreases opts@.len() - i,
    {
        let o = &opts[i];
        if !o.is_opt() {
            let k = key_of(o);
            let mut members = match index_map.remove(&k) {
                Some(v) => v,
                None => Vec::new(),
            };
            let ghost before = members@;
            members.push(i as u64);
            index_map.insert(k, members);
            proof {
                let t1 = opts@.take(i + 1);
                assert forall|key: u64| #[trigger] index_map@.contains_key(key) implies members_of(t1, key,
                    index_map@[key]@) by {
                    assert forall|j: int| 0 <= j < i implies #[trigger] t1[j] == opts@.take(i as int)[j] by {}
                    if key == k {
                        let ids = index_map@[key]@;
                        assert forall|q: int| 0 <= q < ids.len() implies (#[trigger] ids[q]) < t1.len() && in_group(
                            t1[ids[q] as int], key) by {
                            if q < before.len() {
                                assert(ids[q] == before[q]);
                            }
                        }
                        assert forall|j: int| 0 <= j < t1.len() && in_group(#[trigger] t1[j], key) implies ids.contains(
                            j as u64) by {
                            if j == i {
                                assert(ids[before.len() as int] == i as u64);
                            } else {
                                assert(before.contains(j as u64));
                                let q = choose|q: int| 0 <= q < before.len() && before[q] == j as u64;
                                assert(ids[q] == j as u64);
                            }
                        }
                    } else {
                        let ids = index_map@[key]@;
                        assert forall|j: int| 0 <= j < t1.len() && in_group(#[trigger] t1[j], key) implies ids.contains(
                            j as u64) by {
                            if j == i {
                                assert(false);
                            }
                        }
                    }
                }
            }
        } else {
            proof {
                let t1 = opts@.take(i + 1);
                assert forall|key: u64| #[trigger] index_map@.contains_key(key) implies members_of(t1, key,
                    index_map@[key]@) by {
                    assert forall|j: int| 0 <= j < i implies #[trigger] t1[j] == opts@.take(i as int)[j] by {}
                    let ids = index_map@[key]@;
                    assert forall|j: int| 0 <= j < t1.len() && in_group(#[trigger] t1[j], key) implies ids.contains(
                        j as u64) by {
                        if j == i {
                            assert(false);
                        }
                    }
                }
            }
        }
        i = i + 1;
    }
    assert(opts@.take(opts@.len() as int) =~= opts@);
    for (key, ids) in it: index_map.iter()
        invariant
            it.seq() == IteratorSpec::remaining(&spec_hash_map_iter(&index_map)),
            forall|key: u64| #[trigger] index_map@.contains_key(key) ==> members_of(opts@, key, index_map@[key]@)
                && index_map@[key]@.len() > 0,
            opts@.len() <= u64::MAX,
            opts == &set.opts,
            forall|j: int| 0 <= j < opts@.len() && !is_opt_kind((#[trigger] opts@[j]).kind) ==> index_map@.contains_key(
                nonopt_key(opts@[j])),
            forall|p: int| 0 <= p < it.index() ==> #[trigger] group_valid(opts@, *it.seq()[p].0),
    {
        let ghost v = IteratorSpec::remaining(&spec_hash_map_iter(&index_map));
        proof {
            assert(0 <= it.index() < v.len());
            assert(key == v[it.index()].0 && ids == v[it.index()].1);
            assert(index_map@.contains_key(*v[it.index()].0));
            assert(index_map@.contains_key(*key) && index_map@[*key] == *ids);
        }
        if !group_valid_members(opts, *key, ids) {
            proof {
                let ids_v = index_map@[*key]@;
                assert(members_of(opts@, *key, ids_v));
                assert(ids_v == ids@);
                assert(!group_valid(opts@, *key));
                let j = ids_v[0] as int;
                assert(in_group(opts@[j], *key));
                assert(nonopt_key(opts@[j]) == *key);
                assert(!is_opt_kind(opts@[j].kind));
                assert(!group_valid(opts@, nonopt_key(opts@[j])));
            }
            return Err(Error::NonOptionForceRequired(group_message(opts, *key)));
        }
    }
    proof {
        let v = IteratorSpec::remaining(&spec_hash_map_iter(&index_map));
        assert forall|j: int| 0 <= j < opts@.len() && !is_opt_kind((#[trigger] opts@[j]).kind) implies group_valid(opts@,
            nonopt_key(opts@[j])) by {
            let key = nonopt_key(opts@[j]);
            assert(index_map@.contains_key(key));
            assert(v.contains((&key, &index_map@[key])));
            let p = choose|p: int| 0 <= p < v.len() && v[p] == (&key, &index_map@[key]);
            assert(group_valid(opts@, *v[p].0));
        }
    }
    Ok(true)
}

/// How `{:?}` writes an identifier.
pub open spec fn id_debug(id: Identifier) -> Seq<char> {
    seq!['I', 'd', 'e', 'n', 't', 'i', 'f', 'i', 'e', 'r', '('] + decimal(id.0 as nat) + seq![')']
}

/// How `{:?}` writes a callback type.
pub open spec fn callback_type_debug(t: CallbackType) -> Seq<char> {
    match t {
        CallbackType::Value => seq!['V', 'a', 'l', 'u', 'e'],
        CallbackType::Index => seq!['I', 'n', 'd', 'e', 'x'],
        CallbackType::Main => seq!['M', 'a', 'i', 'n'],
        CallbackType::Null => seq!['N', 'u', 'l', 'l'],
    }
}

fn debug_id(id: Identifier) -> (r: String)
    ensures
        r@ == id_debug(id),
{
    proof {
        reveal_strlit("Identifier(");
        reveal_strlit(")");
    }
    let mut s = String::new();
    s.append("Identifier(");
    append_decimal(&mut s, id.0);
    s.append(")");
    assert(s@ =~= id_debug(id));
    s
}

fn debug_callback_type(t: CallbackType) -> (r: String)
    ensures
        r@ == callback_type_debug(t),
{
    proof {
        reveal_strlit("Value");
        reveal_strlit("Index");
        reveal_strlit("Main");
        reveal_strlit("Null");
    }
    let s = match t {
        CallbackType::Value => "Value",
        CallbackType::Index => "Index",
        CallbackType::Main => "Main",
        CallbackType::Null => "Null",
    };
    assert(s@ =~= callback_type_debug(t));
    s.to_owned()
}

/// The callback registered for an option fits it: the option exists and invokes
/// callbacks of that type.
pub open spec fn callback_fits(opts: Seq<CommonOpt>, id: Identifier, t: CallbackType) -> bool {
    id.0 < opts.len() && kind_callback(opts[id.0 as int].kind) == t
}

/// Every registered callback fits its option; one that does not (the first the
/// map hands out) gives the error.
pub fn parse_default_pre_check(set: &DefaultSet, callbacks: &HashMap<u64, OptCallback>) -> (r: Result<bool>)
    ensures
        r is Ok <==> forall|k: u64| callbacks@.contains_key(k) ==> #[trigger] callback_fits(set.opts@, Identifier(k),
            callbacks@[k].spec_type()),
        r is Ok ==> r == Ok::<bool, Error>(true),
        r matches Err(e) ==> exists|k: u64| callbacks@.contains_key(k) && !#[trigger] callback_fits(set.opts@,
            Identifier(k), callbacks@[k].spec_type()) && (if k < set.opts@.len() {
                e matches Error::InvalidCallbackType(a, b) && a@ == id_debug(Identifier(k)) && b@ == callback_type_debug(
                    callbacks@[k].spec_type(),
                )
            } else {
                e matches Error::InvaldOptionId(a) && a@ == id_debug(Identifier(k))
            }),
{
    for (key, cb) in it: callbacks.iter()
        invariant
            it.seq() == IteratorSpec::remaining(&spec_hash_map_iter(callbacks)),
            forall|j: int| 0 <= j < it.index() ==> #[trigger] callback_fits(set.opts@, Identifier(*it.seq()[j].0),
                (*it.seq()[j].1).spec_type()),
    {
        let ghost v = IteratorSpec::remaining(&spec_hash_map_iter(callbacks));
        proof {
            assert(0 <= it.index() < v.len());
            assert(key == v[it.index()].0 && cb == v[it.index()].1);
            assert(callbacks@.contains_key(*v[it.index()].0));
            assert(callbacks@.contains_key(*key) && callbacks@[*key] == *cb);
        }
        let id = Identifier(*key);
        let t = cb.to_callback_type();
        match set.get_opt(id) {
            Some(opt) => {
                if !opt.accept_callback_type(t) {
                    assert(!callback_fits(set.opts@, id, callbacks@[*key].spec_type()));
                    return Err(Error::InvalidCallbackType(debug_id(id), debug_callback_type(t)));
                }
            },
            None => {
                assert(!callback_fits(set.opts@, id, callbacks@[*key].spec_type()));
                return Err(Error::InvaldOptionId(debug_id(id)));
            },
        }
    }
    proof {
        let v = IteratorSpec::remaining(&spec_hash_map_iter(callbacks));
        assert forall|k: u64| callbacks@.contains_key(k) implies #[trigger] callback_fits(set.opts@, Identifier(k),
            callbacks@[k].spec_type()) by {
            assert(v.contains((&k, &callbacks@[k])));
            let j = choose|j: int| 0 <= j < v.len() && v[j] == (&k, &callbacks@[k]);
            assert(callback_fits(set.opts@, Identifier(*v[j].0), (*v[j].1).spec_type()));
        }
    }
    Ok(true)
}

} // verus!
