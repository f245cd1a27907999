use vstd::prelude::*;

use crate::id::Identifier;
use crate::opt::{OptValue, OptValueView, OptionInfo, Style};
use crate::opt::common::{CommonOpt, OptKind, value_after_set};
use crate::proc::Ctx;
use super::gen::{CtxShape, has_shape, or_empty, shape_matches};
use super::forward::{infos_valid, reg_opts};
use super::model::{agree_opts, all_true, flags_upto, next_flags, publish_values, shapes_apply};
use super::delay::{flat, fold_sets, mapper_ids, values_view};

verus! {

/// The values kept by a proc, by view.
pub open spec fn keep_view(k: Seq<(Identifier, OptValue)>) -> Seq<(Identifier, OptValueView)> {
    k.map_values(|e: (Identifier, OptValue)| (e.0, e.1@))
}

/// The values once the kept values `kv` were set on `vals`, in order.
pub open spec fn apply_keep(vals: Seq<OptValueView>, opts: Seq<CommonOpt>, kv: Seq<(Identifier, OptValueView)>) -> Seq<OptValueView>
    decreases kv.len(),
{
    if kv.len() == 0 {
        vals
    } else {
        let w = apply_keep(vals, opts, kv.drop_last());
        let i = kv.last().0.0 as int;
        w.update(i, value_after_set(opts[i].kind, w[i], kv.last().1))
    }
}

/// The contexts of the shapes take one argument alike.
pub open spec fn same_args(shs: Seq<CtxShape>) -> bool {
    forall|j: int| 0 <= j < shs.len() ==> (#[trigger] shs[j]).arg == shs[0].arg
}

/// Several shapes come from the `-abc` style only.
pub open spec fn multi_only(shs: Seq<CtxShape>) -> bool {
    shs.len() > 1 ==> forall|j: int| 0 <= j < shs.len() ==> (#[trigger] shs[j]).style == Style::Multiple
}

/// Some shape not matched yet answers to the option.
pub open spec fn newly_shaped(shs: Seq<CtxShape>, m: Seq<bool>, o: CommonOpt) -> bool {
    exists|j: int| 0 <= j < shs.len() && !m[j] && shape_matches(#[trigger] shs[j], o)
}

/// The value an option takes from a context of the shapes.
pub open spec fn shape_value(shs: Seq<CtxShape>, o: CommonOpt) -> OptValueView {
    o.spec_parse_value(or_empty(shs[0].arg))->0
}

/// Shapes alike in their argument set a value once, however many of them answer
/// to the option: several answer only in the `-abc` style, to a boolean option.
pub proof fn lemma_apply_once(shs: Seq<CtxShape>, m: Seq<bool>, o: CommonOpt, w: OptValueView)
    requires
        shs.len() == m.len(),
        same_args(shs),
        multi_only(shs),
    ensures
        shapes_apply(shs, m, o, w) == (if newly_shaped(shs, m, o) { value_after_set(o.kind, w, shape_value(shs, o)) } else { w }),
    decreases shs.len(),
{
    if shs.len() > 0 {
        let d = shs.drop_last();
        let j = shs.len() - 1;
        assert(same_args(d)) by {
            assert forall|x: int| 0 <= x < d.len() implies (#[trigger] d[x]).arg == d[0].arg by {
                assert(d[x] == shs[x]);
                assert(d[0] == shs[0]);
            }
        }
        assert(multi_only(d)) by {
            if d.len() > 1 {
                assert forall|x: int| 0 <= x < d.len() implies (#[trigger] d[x]).style == Style::Multiple by {
                    assert(d[x] == shs[x]);
                }
            }
        }
        lemma_apply_once(d, m.drop_last(), o, w);
        if d.len() > 0 {
            assert(shape_value(d, o) == shape_value(shs, o));
        }
        assert(shs[j].arg == shs[0].arg);
        if newly_shaped(d, m.drop_last(), o) {
            let x = choose|x: int| 0 <= x < d.len() && !m.drop_last()[x] && shape_matches(#[trigger] d[x], o);
            assert(shs[x] == d[x]);
            assert(!m[x] && shape_matches(shs[x], o));
            if !m[j] && shape_matches(shs[j], o) {
                assert(shs[j].style == Style::Multiple);
                assert(o.kind == OptKind::Bool);
            }
        } else {
            if newly_shaped(shs, m, o) {
                let x = choose|x: int| 0 <= x < shs.len() && !m[x] && shape_matches(#[trigger] shs[x], o);
                if x < j {
                    assert(d[x] == shs[x]);
                }
            }
        }
    }
}

/// Setting kept values keeps the number of values.
pub proof fn lemma_apply_keep_len(vals: Seq<OptValueView>, opts: Seq<CommonOpt>, kv: Seq<(Identifier, OptValueView)>)
    requires
        forall|q: int| 0 <= q < kv.len() ==> (#[trigger] kv[q]).0.0 < vals.len(),
    ensures
        apply_keep(vals, opts, kv).len() == vals.len(),
    decreases kv.len(),
{
    if kv.len() > 0 {
        assert forall|q: int| 0 <= q < kv.drop_last().len() implies (#[trigger] kv.drop_last()[q]).0.0 < vals.len() by {
            assert(kv.drop_last()[q] == kv[q]);
        }
        lemma_apply_keep_len(vals, opts, kv.drop_last());
        assert(kv[kv.len() - 1].0.0 < vals.len());
    }
}

/// The values, the option at `k` aside, stay; the option at `k` takes the value.
pub proof fn lemma_apply_keep_push(vals: Seq<OptValueView>, opts: Seq<CommonOpt>, kv: Seq<(Identifier, OptValueView)>, id: Identifier, v: OptValueView)
    ensures
        apply_keep(vals, opts, kv.push((id, v))) == apply_keep(vals, opts, kv).update(id.0 as int,
            value_after_set(opts[id.0 as int].kind, apply_keep(vals, opts, kv)[id.0 as int], v)),
{
    assert(kv.push((id, v)).drop_last() =~= kv);
}

/// One step of a delay proc through the registered options: the option the
/// `k`-th information points to keeps the value of the shapes when one of them
/// not matched yet answers to it, and the values with the kept ones set move as
/// the values of the forward model do.
pub proof fn lemma_keep_step(shs: Seq<CtxShape>, opts0: Seq<CommonOpt>, infos: Seq<OptionInfo>, k: int, p0: Seq<OptValueView>, keep: Seq<(Identifier, OptValueView)>, keep2: Seq<(Identifier, OptValueView)>, target: Seq<OptValueView>)
    requires
        0 <= k < infos.len(),
        infos_valid(infos, opts0.len()),
        same_args(shs),
        multi_only(shs),
        p0.len() == opts0.len(),
        forall|q: int| 0 <= q < keep.len() ==> (#[trigger] keep[q]).0.0 < opts0.len(),
        keep2 == (if newly_shaped(shs, flags_upto(shs, reg_opts(opts0, infos), k), opts0[infos[k].id.0 as int]) {
            keep.push((infos[k].id, shape_value(shs, opts0[infos[k].id.0 as int])))
        } else {
            keep
        }),
        agree_opts(publish_values(shs, flags_upto(shs, reg_opts(opts0, infos), k), opts0, infos, k, apply_keep(p0, opts0, keep)),
            target, opts0),
    ensures
        all_true(flags_upto(shs, reg_opts(opts0, infos), k + 1)) ==> agree_opts(apply_keep(p0, opts0, keep2), target, opts0),
        !all_true(flags_upto(shs, reg_opts(opts0, infos), k + 1)) ==> agree_opts(
            publish_values(shs, flags_upto(shs, reg_opts(opts0, infos), k + 1), opts0, infos, k + 1, apply_keep(p0, opts0, keep2)),
            target, opts0),
{
    reveal(flags_upto);
    let ropts = reg_opts(opts0, infos);
    let m = flags_upto(shs, ropts, k);
    let i = infos[k].id.0 as int;
    assert(ropts[k] == opts0[i]);
    let vals = apply_keep(p0, opts0, keep);
    lemma_apply_keep_len(p0, opts0, keep);
    let vals2 = vals.update(i, shapes_apply(shs, m, opts0[i], vals[i]));
    lemma_apply_once(shs, m, opts0[i], vals[i]);
    if newly_shaped(shs, m, opts0[i]) {
        lemma_apply_keep_push(p0, opts0, keep, infos[k].id, shape_value(shs, opts0[i]));
    } else {
        assert(vals2 =~= vals);
    }
    assert(apply_keep(p0, opts0, keep2) == vals2);
    let m2 = next_flags(shs, m, opts0[i]);
    assert(m2 =~= flags_upto(shs, ropts, k + 1)) by {
        assert forall|j: int| 0 <= j < shs.len() implies m2[j] == flags_upto(shs, ropts, k + 1)[j] by {
            if shape_matches(shs[j], opts0[i]) {
                assert(shape_matches(shs[j], ropts[k]));
            }
            if flags_upto(shs, ropts, k + 1)[j] && !m[j] {
                let x = choose|x: int| 0 <= x < k + 1 && shape_matches(shs[j], #[trigger] ropts[x]);
                assert(x == k);
            }
            if m[j] {
                let x = choose|x: int| 0 <= x < k && shape_matches(shs[j], #[trigger] ropts[x]);
                assert(0 <= x < k + 1 && shape_matches(shs[j], ropts[x]));
            }
        }
    }
    if all_true(m2) {
        assert(publish_values(shs, m, opts0, infos, k, vals) == vals2);
    } else {
        assert(publish_values(shs, m, opts0, infos, k, vals) == publish_values(shs, m2, opts0, infos, k + 1, vals2));
    }
}

/// With no option waiting twice, a value kept for an option comes after the
/// values waiting for it, and the others wait as they did.
pub proof fn lemma_flat_add(vm: Seq<(Identifier, Vec<OptValue>)>, vm2: Seq<(Identifier, Vec<OptValue>)>, id: Identifier, added: Seq<OptValueView>, x: int)
    requires
        mapper_ids(vm).no_duplicates(),
        match mapper_ids(vm).index_of_first(id) {
            Some(k) => {
                &&& vm2.len() == vm.len()
                &&& vm2[k].0 == id
                &&& values_view(vm2[k].1@) == values_view(vm[k].1@) + added
                &&& forall|j: int| 0 <= j < vm.len() && j != k ==> #[trigger] vm2[j] == vm[j]
            },
            None => vm2 == vm.push((id, vm2.last().1)) && values_view(vm2.last().1@) == added,
        },
    ensures
        mapper_ids(vm2).no_duplicates(),
        flat(vm2, x) == flat(vm, x) + (if id.0 == x { added } else { Seq::empty() }),
{
    let ids = mapper_ids(vm);
    ids.index_of_first_ensures(id);
    match ids.index_of_first(id) {
        Some(k) => {
            assert(vm[k].0 == id) by {
                assert(ids[k] == vm[k].0);
            }
            let a = vm.take(k);
            let b = vm.skip(k + 1);
            assert(vm =~= a + seq![vm[k]] + b);
            assert(vm2 =~= a + seq![vm2[k]] + b) by {
                assert forall|j: int| 0 <= j < vm2.len() implies #[trigger] vm2[j] == (a + seq![vm2[k]] + b)[j] by {
                    if j != k {
                        assert(vm2[j] == vm[j]);
                    }
                }
            }
            lemma_flat_concat(a + seq![vm[k]], b, x);
            lemma_flat_concat(a, seq![vm[k]], x);
            lemma_flat_concat(a + seq![vm2[k]], b, x);
            lemma_flat_concat(a, seq![vm2[k]], x);
            assert(seq![vm[k]].drop_last() =~= Seq::<(Identifier, Vec<OptValue>)>::empty());
            assert(seq![vm2[k]].drop_last() =~= Seq::<(Identifier, Vec<OptValue>)>::empty());
            if id.0 == x {
                assert forall|j: int| 0 <= j < b.len() implies (#[trigger] b[j]).0.0 != x by {
                    assert(b[j] == vm[k + 1 + j]);
                    assert(ids[k + 1 + j] == vm[k + 1 + j].0);
                    assert(ids[k] == vm[k].0);
                    if b[j].0.0 == x {
                        assert(b[j].0 == id);
                    }
                }
                lemma_flat_absent(b, x);
            }
            assert(mapper_ids(vm2) =~= ids) by {
                assert forall|j: int| 0 <= j < vm2.len() implies #[trigger] mapper_ids(vm2)[j] == ids[j] by {
                    if j != k {
                        assert(vm2[j] == vm[j]);
                    }
                }
            }
        },
        None => {
            assert(vm2.drop_last() =~= vm);
            assert(mapper_ids(vm2) =~= ids.push(id));
            assert forall|p: int, q: int| 0 <= p < q < mapper_ids(vm2).len() implies mapper_ids(vm2)[p] != mapper_ids(vm2)[q] by {
                if q == vm.len() {
                    assert(mapper_ids(vm2)[p] == ids[p]);
                    assert(!ids.contains(id));
                }
            }
        },
    }
}

/// The values waiting in two runs of entries are those of the first, then those
/// of the second.
pub proof fn lemma_flat_concat(a: Seq<(Identifier, Vec<OptValue>)>, b: Seq<(Identifier, Vec<OptValue>)>, x: int)
    ensures
        flat(a + b, x) == flat(a, x) + flat(b, x),
    decreases b.len(),
{
    if b.len() == 0 {
        assert(a + b =~= a);
        assert(flat(a, x) + Seq::<OptValueView>::empty() =~= flat(a, x));
    } else {
        lemma_flat_concat(a, b.drop_last(), x);
        assert((a + b).drop_last() =~= a + b.drop_last());
        assert((a + b).last() == b.last());
        let e = if b.last().0.0 == x { values_view(b.last().1@) } else { Seq::<OptValueView>::empty() };
        assert(flat(a, x) + flat(b.drop_last(), x) + e =~= flat(a, x) + (flat(b.drop_last(), x) + e));
    }
}

/// Nothing waits for an option that no entry names.
pub proof fn lemma_flat_absent(vm: Seq<(Identifier, Vec<OptValue>)>, x: int)
    requires
        forall|j: int| 0 <= j < vm.len() ==> (#[trigger] vm[j]).0.0 != x,
    ensures
        flat(vm, x) == Seq::<OptValueView>::empty(),
    decreases vm.len(),
{
    if vm.len() > 0 {
        assert forall|j: int| 0 <= j < vm.drop_last().len() implies (#[trigger] vm.drop_last()[j]).0.0 != x by {
            assert(vm.drop_last()[j] == vm[j]);
        }
        lemma_flat_absent(vm.drop_last(), x);
        assert(vm.last().0.0 != x);
        assert(Seq::<OptValueView>::empty() + Seq::<OptValueView>::empty() =~= Seq::<OptValueView>::empty());
    }
}

/// The shapes agree on all but whether their contexts are delay ones.
pub open spec fn alike_shapes(a: Seq<CtxShape>, b: Seq<CtxShape>) -> bool {
    &&& a.len() == b.len()
    &&& forall|j: int| 0 <= j < a.len() ==> (#[trigger] a[j]).prefix == b[j].prefix && a[j].name == b[j].name
        && a[j].style == b[j].style && a[j].arg == b[j].arg
}

/// Alike shapes set values alike.
pub proof fn lemma_apply_alike(a: Seq<CtxShape>, b: Seq<CtxShape>, m: Seq<bool>, o: CommonOpt, w: OptValueView)
    requires
        alike_shapes(a, b),
    ensures
        shapes_apply(a, m, o, w) == shapes_apply(b, m, o, w),
    decreases a.len(),
{
    if a.len() > 0 {
        assert(alike_shapes(a.drop_last(), b.drop_last())) by {
            assert forall|j: int| 0 <= j < a.drop_last().len() implies (#[trigger] a.drop_last()[j]).prefix == b.drop_last()[j].prefix
                && a.drop_last()[j].name == b.drop_last()[j].name && a.drop_last()[j].style == b.drop_last()[j].style
                && a.drop_last()[j].arg == b.drop_last()[j].arg by {
                assert(a.drop_last()[j] == a[j]);
                assert(b.drop_last()[j] == b[j]);
            }
        }
        lemma_apply_alike(a.drop_last(), b.drop_last(), m.drop_last(), o, w);
        assert(a[a.len() - 1].prefix == b[a.len() - 1].prefix);
    }
}

/// Alike shapes lead the model to the same values.
pub proof fn lemma_publish_alike(a: Seq<CtxShape>, b: Seq<CtxShape>, m: Seq<bool>, opts: Seq<CommonOpt>, infos: Seq<OptionInfo>, k: int, vals: Seq<OptValueView>)
    requires
        alike_shapes(a, b),
        m.len() == a.len(),
    ensures
        publish_values(a, m, opts, infos, k, vals) == publish_values(b, m, opts, infos, k, vals),
    decreases infos.len() - k,
{
    if 0 <= k < infos.len() {
        let i = infos[k].id.0 as int;
        lemma_apply_alike(a, b, m, opts[i], vals[i]);
        assert(next_flags(a, m, opts[i]) =~= next_flags(b, m, opts[i])) by {
            assert forall|j: int| 0 <= j < m.len() implies next_flags(a, m, opts[i])[j] == next_flags(b, m, opts[i])[j] by {
                assert(a[j].prefix == b[j].prefix);
            }
        }
        lemma_publish_alike(a, b, next_flags(a, m, opts[i]), opts, infos, k + 1, vals.update(i, shapes_apply(a, m, opts[i], vals[i])));
    }
}

} // verus!
