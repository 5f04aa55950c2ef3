//! Finding plugins: the index of plugins by the file extensions they handle,
//! and the plugins that the configuration names.
use vstd::prelude::*;
use crate::js::views;
use super::order::{at_positions, plugins_ascending, selection_keeps_order};
use super::{KindSelection, plugin_exts, plugin_ids, select_plugins, concat_keys, selected, Config, Plugin};

verus! {

/// The plugins that the configuration names under `[rules]` or `[tests]`, in
/// the order of `plugins`, so that an ascending list gives an ascending selection.
pub fn list_from_config(config: &Config, plugins: &Vec<Plugin>) -> (r: Vec<usize>)
    ensures
        r@ == selected(
            plugin_ids(plugins@),
            views(config.rules@) + views(config.tests@),
            plugins@.len(),
        ),
        plugins_ascending(plugins@) ==> plugins_ascending(at_positions(plugins@, r@)),
{
    let keys = concat_keys(&config.rules, &config.tests);
    let r = select_plugins(plugins, &keys);
    proof {
        if plugins_ascending(plugins@) {
            assert(plugins@.len() == plugins.len());
            selection_keeps_order(plugins@, views(config.rules@) + views(config.tests@));
        }
    }
    r
}


/// The indices of `idxs` whose plugin is of a selected kind, in order.
pub open spec fn of_kinds(plugins: Seq<Plugin>, idxs: Seq<usize>, kinds: KindSelection) -> Seq<usize>
    decreases idxs.len(),
{
    if idxs.len() == 0 {
        Seq::empty()
    } else {
        let prev = of_kinds(plugins, idxs.drop_last(), kinds);
        if kinds.spec_includes(plugins[idxs.last() as int].kind) {
            prev.push(idxs.last())
        } else {
            prev
        }
    }
}

/// The plugins that `test` runs: those the configuration names, of the
/// selected kinds.
pub fn test_plugins(config: &Config, plugins: &Vec<Plugin>, kinds: KindSelection) -> (r: Vec<usize>)
    ensures
        r@ == of_kinds(
            plugins@,
            selected(plugin_ids(plugins@), views(config.rules@) + views(config.tests@), plugins@.len()),
            kinds,
        ),
{
    let listed = list_from_config(config, plugins);
    let ghost sel = listed@;
    proof {
        super::lemma_selected_bounded(
            plugin_ids(plugins@),
            views(config.rules@) + views(config.tests@),
            plugins@.len(),
        );
    }
    let mut r: Vec<usize> = Vec::new();
    let mut i: usize = 0;
    while i < listed.len()
        invariant
            i <= listed.len(),
            sel == listed@,
            forall|j: int| 0 <= j < listed.len() ==> listed@[j] < plugins.len(),
            r@ == of_kinds(plugins@, sel.take(i as int), kinds),
        decreases listed.len() - i,
    {
        let p = listed[i];
        assert(sel.take(i + 1).drop_last() =~= sel.take(i as int));
        assert(sel.take(i + 1).last() == p);
        if kinds.includes(plugins[p].kind) {
            r.push(p);
        }
        i = i + 1;
    }
    assert(sel.take(listed.len() as int) =~= sel);
    r
}

/// The view of the extension index: each extension with its plugin indices.
pub open spec fn index_view(r: Seq<(String, Vec<usize>)>) -> Seq<(Seq<char>, Seq<usize>)> {
    r.map_values(|e: (String, Vec<usize>)| (e.0@, e.1@))
}

/// Whether the extension index `m` of `plugins` lists, for each extension that
/// some plugin declares and for no other, exactly the plugins that declare it,
/// once each and in the order of `plugins`, with no extension listed twice.
pub open spec fn is_extension_index(plugins: Seq<Plugin>, m: Seq<(Seq<char>, Seq<usize>)>) -> bool {
    &&& forall|a: int, b: int| 0 <= a < b < m.len() ==> #[trigger] m[a].0 != #[trigger] m[b].0
    &&& forall|k: int| 0 <= k < m.len() ==> #[trigger] m[k].1.len() > 0
    &&& forall|k: int, i: usize|
        0 <= k < m.len() ==> (#[trigger] m[k].1.contains(i) <==> (i < plugins.len()
            && plugin_exts(plugins[i as int]).contains(m[k].0)))
    &&& forall|k: int, a: int, b: int|
        0 <= k < m.len() && 0 <= a < b < m[k].1.len() ==> #[trigger] m[k].1[a] < #[trigger] m[k].1[b]
    &&& forall|i: int, e: Seq<char>|
        0 <= i < plugins.len() && #[trigger] plugin_exts(plugins[i]).contains(e) ==> exists|k: int|
            0 <= k < m.len() && #[trigger] m[k].0 == e
}

/// Whether plugin `i` declares `e` among the plugins read so far: all of the
/// plugins before `i` and the first `j` extensions of plugin `i`.
pub open spec fn declared_so_far(plugins: Seq<Plugin>, i: int, j: int, p: usize, e: Seq<char>) -> bool {
    ||| p < i && plugin_exts(plugins[p as int]).contains(e)
    ||| p == i && plugin_exts(plugins[p as int]).take(j).contains(e)
}

/// The position of the entry for `e`, if there is one.
fn find_entry(m: &Vec<(String, Vec<usize>)>, e: &String) -> (r: Option<usize>)
    ensures
        match r {
            Some(k) => k < m.len() && m@[k as int].0@ == e@,
            None => forall|k: int| 0 <= k < m.len() ==> m@[k].0@ != e@,
        },
{
    let mut k: usize = 0;
    while k < m.len()
        invariant
            k <= m.len(),
            forall|j: int| 0 <= j < k ==> m@[j].0@ != e@,
        decreases m.len() - k,
    {
        if m[k].0 == *e {
            return Some(k);
        }
        k = k + 1;
    }
    None
}

/// A copy of `v` with `x` at the end.
fn pushed(v: &Vec<usize>, x: usize) -> (r: Vec<usize>)
    ensures
        r@ == v@.push(x),
{
    let mut r: Vec<usize> = Vec::new();
    let mut i: usize = 0;
    while i < v.len()
        invariant
            i <= v.len(),
            r@ == v@.take(i as int),
        decreases v.len() - i,
    {
        r.push(v[i]);
        assert(r@ =~= v@.take(i + 1));
        i = i + 1;
    }
    r.push(x);
    assert(r@ =~= v@.push(x));
    r
}

/// The index of plugins by the file extensions they declare: for each
/// extension, the positions in `plugins` of the plugins that declare it.
#[verifier::spinoff_prover]
#[verifier::rlimit(40)]
pub fn map(plugins: &Vec<Plugin>) -> (r: Vec<(String, Vec<usize>)>)
    ensures
        is_extension_index(plugins@, index_view(r@)),
{
    let mut m: Vec<(String, Vec<usize>)> = Vec::new();
    let mut i: usize = 0;
    while i < plugins.len()
        invariant
            i <= plugins.len(),
            forall|a: int, b: int|
                0 <= a < b < index_view(m@).len() ==> #[trigger] index_view(m@)[a].0
                    != #[trigger] index_view(m@)[b].0,
            forall|k: int, p: usize|
                0 <= k < index_view(m@).len() ==> (#[trigger] index_view(m@)[k].1.contains(p)
                    <==> declared_so_far(plugins@, i as int, 0, p, index_view(m@)[k].0)),
            forall|k: int, a: int, b: int|
                0 <= k < index_view(m@).len() && 0 <= a < b < index_view(m@)[k].1.len()
                    ==> #[trigger] index_view(m@)[k].1[a] < #[trigger] index_view(m@)[k].1[b],
            forall|k: int, a: int|
                0 <= k < index_view(m@).len() && 0 <= a < index_view(m@)[k].1.len()
                    ==> #[trigger] index_view(m@)[k].1[a] < i,
            forall|k: int| 0 <= k < index_view(m@).len() ==> #[trigger] index_view(m@)[k].1.len() > 0,
            forall|p: usize, e: Seq<char>|
                #[trigger] declared_so_far(plugins@, i as int, 0, p, e) ==> exists|k: int|
                    0 <= k < index_view(m@).len() && #[trigger] index_view(m@)[k].0 == e,
        decreases plugins.len() - i,
    {
        let exts = &plugins[i].details.extensions;
        let ghost xs = plugin_exts(plugins@[i as int]);
        assert(xs.take(0) =~= Seq::<Seq<char>>::empty());
        let mut j: usize = 0;
        while j < exts.len()
            invariant
                i < plugins.len(),
                j <= exts.len(),
                exts@ == plugins@[i as int].details.extensions@,
                xs == plugin_exts(plugins@[i as int]),
                forall|a: int, b: int|
                    0 <= a < b < index_view(m@).len() ==> #[trigger] index_view(m@)[a].0
                        != #[trigger] index_view(m@)[b].0,
                forall|k: int, p: usize|
                    0 <= k < index_view(m@).len() ==> (#[trigger] index_view(m@)[k].1.contains(p)
                        <==> declared_so_far(plugins@, i as int, j as int, p, index_view(m@)[k].0)),
                forall|k: int, a: int, b: int|
                    0 <= k < index_view(m@).len() && 0 <= a < b < index_view(m@)[k].1.len()
                        ==> #[trigger] index_view(m@)[k].1[a] < #[trigger] index_view(m@)[k].1[b],
                forall|k: int, a: int|
                    0 <= k < index_view(m@).len() && 0 <= a < index_view(m@)[k].1.len()
                        ==> #[trigger] index_view(m@)[k].1[a] <= i,
                forall|k: int| 0 <= k < index_view(m@).len() ==> #[trigger] index_view(m@)[k].1.len() > 0,
                forall|p: usize, e: Seq<char>|
                    #[trigger] declared_so_far(plugins@, i as int, j as int, p, e) ==> exists|k: int|
                        0 <= k < index_view(m@).len() && #[trigger] index_view(m@)[k].0 == e,
            decreases exts.len() - j,
        {
            let e = &exts[j];
            let ghost ev = e@;
            let ghost old_m = index_view(m@);
            assert(xs[j as int] == ev);
            assert(xs.take(j + 1) =~= xs.take(j as int).push(ev));
            assert forall|p: usize, f: Seq<char>|
                #[trigger] declared_so_far(plugins@, i as int, j + 1, p, f) <==> (declared_so_far(
                    plugins@,
                    i as int,
                    j as int,
                    p,
                    f,
                ) || (p == i && f == ev)) by {
                if p == i {
                    assert(xs.take(j + 1).contains(f) <==> (xs.take(j as int).contains(f) || f == ev)) by {
                        if xs.take(j + 1).contains(f) {
                            let q = choose|q: int| 0 <= q < xs.take(j + 1).len() && #[trigger] xs.take(j + 1)[q] == f;
                            if q < j {
                                assert(xs.take(j as int)[q] == f);
                            }
                        }
                        if xs.take(j as int).contains(f) {
                            let q = choose|q: int| 0 <= q < xs.take(j as int).len() && #[trigger] xs.take(j as int)[q] == f;
                            assert(xs.take(j + 1)[q] == f);
                        }
                        if f == ev {
                            assert(xs.take(j + 1)[j as int] == f);
                        }
                    }
                }
            }
            match find_entry(&m, e) {
                Some(k) => {
                    assert(old_m[k as int].0 == ev);
                    let idx = &m[k].1;
                    let n = idx.len();
                    if n > 0 && idx[n - 1] == i {
                        assert(old_m[k as int].1[n - 1] == i);
                        assert(old_m[k as int].1.contains(i));
                        assert forall|kk: int, p: usize|
                            0 <= kk < index_view(m@).len() implies (#[trigger] index_view(m@)[kk].1.contains(p)
                                <==> declared_so_far(plugins@, i as int, j + 1, p, index_view(m@)[kk].0)) by {
                            if kk != k {
                                assert(old_m[kk].0 != old_m[k as int].0);
                            }
                        }
                        assert forall|p: usize, f: Seq<char>|
                            #[trigger] declared_so_far(plugins@, i as int, j + 1, p, f) implies exists|kk: int|
                                0 <= kk < index_view(m@).len() && #[trigger] index_view(m@)[kk].0 == f by {
                            if declared_so_far(plugins@, i as int, j as int, p, f) {
                                let kk = choose|kk: int| 0 <= kk < old_m.len() && #[trigger] old_m[kk].0 == f;
                                assert(index_view(m@)[kk].0 == f);
                            } else {
                                assert(index_view(m@)[k as int].0 == f);
                            }
                        }
                    } else {
                        let grown = pushed(idx, i);
                        let key = m[k].0.clone();
                        m.set(k, (key, grown));
                        assert(index_view(m@) =~= old_m.update(k as int, (ev, old_m[k as int].1.push(i))));
                        assert forall|kk: int, p: usize|
                            0 <= kk < index_view(m@).len() implies (#[trigger] index_view(m@)[kk].1.contains(p)
                                <==> declared_so_far(plugins@, i as int, j + 1, p, index_view(m@)[kk].0)) by {
                            if kk != k {
                                assert(old_m[kk].0 != old_m[k as int].0);
                            }
                            if kk == k {
                                let s = old_m[k as int].1;
                                assert(s.push(i).contains(p) <==> (s.contains(p) || p == i)) by {
                                    if s.push(i).contains(p) {
                                        let q = choose|q: int| 0 <= q < s.push(i).len() && #[trigger] s.push(i)[q] == p;
                                        if q < s.len() {
                                            assert(s[q] == p);
                                        }
                                    }
                                    if s.contains(p) {
                                        let q = choose|q: int| 0 <= q < s.len() && #[trigger] s[q] == p;
                                        assert(s.push(i)[q] == p);
                                    }
                                    if p == i {
                                        assert(s.push(i)[s.len() as int] == p);
                                    }
                                }
                            }
                        }
                        assert forall|kk: int, a: int, b: int|
                            0 <= kk < index_view(m@).len() && 0 <= a < b < index_view(m@)[kk].1.len()
                                implies #[trigger] index_view(m@)[kk].1[a] < #[trigger] index_view(m@)[kk].1[b] by {
                            if kk == k && b == old_m[k as int].1.len() {
                                assert(old_m[k as int].1[a] <= i);
                                if a == n - 1 {
                                    assert(old_m[k as int].1[a] != i);
                                } else {
                                    assert(old_m[k as int].1[a] < old_m[k as int].1[n - 1]);
                                }
                            }
                        }
                        assert forall|p: usize, f: Seq<char>|
                            #[trigger] declared_so_far(plugins@, i as int, j + 1, p, f) implies exists|kk: int|
                                0 <= kk < index_view(m@).len() && #[trigger] index_view(m@)[kk].0 == f by {
                            if declared_so_far(plugins@, i as int, j as int, p, f) {
                                let kk = choose|kk: int| 0 <= kk < old_m.len() && #[trigger] old_m[kk].0 == f;
                                assert(index_view(m@)[kk].0 == f);
                            } else {
                                assert(index_view(m@)[k as int].0 == f);
                            }
                        }
                    }
                },
                None => {
                    assert forall|kk: int| 0 <= kk < old_m.len() implies #[trigger] old_m[kk].0 != ev by {
                        assert(old_m[kk].0 == m@[kk].0@);
                    }
                    let mut fresh: Vec<usize> = Vec::new();
                    fresh.push(i);
                    m.push((e.clone(), fresh));
                    assert(index_view(m@) =~= old_m.push((ev, seq![i])));
                    assert forall|kk: int, p: usize|
                        0 <= kk < index_view(m@).len() implies (#[trigger] index_view(m@)[kk].1.contains(p)
                            <==> declared_so_far(plugins@, i as int, j + 1, p, index_view(m@)[kk].0)) by {
                        if kk == old_m.len() {
                            assert(seq![i].contains(p) <==> p == i) by {
                                if p == i {
                                    assert(seq![i][0] == p);
                                }
                            }
                            assert(!declared_so_far(plugins@, i as int, j as int, p, ev));
                        }
                    }
                    assert forall|p: usize, f: Seq<char>|
                        #[trigger] declared_so_far(plugins@, i as int, j + 1, p, f) implies exists|kk: int|
                            0 <= kk < index_view(m@).len() && #[trigger] index_view(m@)[kk].0 == f by {
                        if declared_so_far(plugins@, i as int, j as int, p, f) {
                            let kk = choose|kk: int| 0 <= kk < old_m.len() && #[trigger] old_m[kk].0 == f;
                            assert(index_view(m@)[kk].0 == f);
                        } else {
                            assert(index_view(m@)[old_m.len() as int].0 == f);
                        }
                    }
                },
            }
            j = j + 1;
        }
        assert(xs.take(exts.len() as int) =~= xs);
        assert forall|p: usize, f: Seq<char>|
            #[trigger] declared_so_far(plugins@, i + 1, 0, p, f) <==> declared_so_far(
                plugins@,
                i as int,
                exts.len() as int,
                p,
                f,
            ) by {
            assert(plugin_exts(plugins@[i as int]).take(0) =~= Seq::<Seq<char>>::empty());
        }
        i = i + 1;
    }
    assert forall|p: usize, f: Seq<char>|
        #[trigger] declared_so_far(plugins@, plugins.len() as int, 0, p, f) <==> (p < plugins.len()
            && plugin_exts(plugins@[p as int]).contains(f)) by {
        if p == plugins.len() {
            assert(plugin_exts(plugins@[p as int]).take(0) =~= Seq::<Seq<char>>::empty());
        }
    }
    assert forall|q: int, f: Seq<char>|
        0 <= q < plugins.len() && #[trigger] plugin_exts(plugins@[q]).contains(f) implies exists|k: int|
            0 <= k < index_view(m@).len() && #[trigger] index_view(m@)[k].0 == f by {
        assert(declared_so_far(plugins@, plugins.len() as int, 0, q as usize, f));
    }
    m
}

} // verus!
