//! The order of plugins: by id, then extensions, version, author, directory
//! and kind, each text compared character by character.
use vstd::prelude::*;
use crate::js::views;
use crate::text::chars_of;
use super::{plugin_ids, selected, selected_exactly, Plugin, PluginKind};

verus! {

/// The outcome of comparing two values.
#[derive(Copy, Clone, Debug, PartialEq, Eq, Structural)]
pub enum Comparison {
    Less,
    Equal,
    Greater,
}

/// Whether text `a` comes before text `b`: at the first character where they
/// differ, `a`'s is the smaller; or `a` is a proper prefix of `b`.
pub open spec fn str_lt(a: Seq<char>, b: Seq<char>) -> bool
    decreases a.len(),
{
    if a.len() == 0 {
        b.len() > 0
    } else if b.len() == 0 {
        false
    } else if a[0] != b[0] {
        a[0] < b[0]
    } else {
        str_lt(a.drop_first(), b.drop_first())
    }
}

/// Whether the list of texts `a` comes before `b`, element by element.
pub open spec fn list_lt(a: Seq<Seq<char>>, b: Seq<Seq<char>>) -> bool
    decreases a.len(),
{
    if a.len() == 0 {
        b.len() > 0
    } else if b.len() == 0 {
        false
    } else if a[0] != b[0] {
        str_lt(a[0], b[0])
    } else {
        list_lt(a.drop_first(), b.drop_first())
    }
}

/// What plugins are ordered by: id, extensions, version, author, directory
/// and kind.
pub type PluginKey = (Seq<char>, Seq<Seq<char>>, Seq<char>, Seq<char>, Seq<char>, PluginKind);

/// The key of a plugin.
pub open spec fn plugin_key(p: Plugin) -> PluginKey {
    (p.details.id@, views(p.details.extensions@), p.details.version@, p.details.author@, p.path@, p.kind)
}

/// Whether key `a` comes before key `b`: by the first part in which they
/// differ, lint plugins before test plugins.
pub open spec fn key_lt(a: PluginKey, b: PluginKey) -> bool {
    if a.0 != b.0 {
        str_lt(a.0, b.0)
    } else if a.1 != b.1 {
        list_lt(a.1, b.1)
    } else if a.2 != b.2 {
        str_lt(a.2, b.2)
    } else if a.3 != b.3 {
        str_lt(a.3, b.3)
    } else if a.4 != b.4 {
        str_lt(a.4, b.4)
    } else {
        a.5 == PluginKind::Lint && b.5 == PluginKind::Test
    }
}

/// Whether each plugin comes before every later one: ascending, with no two
/// plugins alike.
pub open spec fn plugins_ascending(s: Seq<Plugin>) -> bool {
    forall|i: int, j: int| 0 <= i < j < s.len() ==> key_lt(plugin_key(#[trigger] s[i]), plugin_key(#[trigger] s[j]))
}

/// No text comes before itself.
pub proof fn str_lt_irreflexive(a: Seq<char>)
    ensures
        !str_lt(a, a),
    decreases a.len(),
{
    if a.len() > 0 {
        str_lt_irreflexive(a.drop_first());
    }
}

/// The order of texts is transitive.
pub proof fn str_lt_transitive(a: Seq<char>, b: Seq<char>, c: Seq<char>)
    requires
        str_lt(a, b),
        str_lt(b, c),
    ensures
        str_lt(a, c),
    decreases a.len(),
{
    if a.len() > 0 && b.len() > 0 && c.len() > 0 && a[0] == b[0] && b[0] == c[0] {
        str_lt_transitive(a.drop_first(), b.drop_first(), c.drop_first());
    }
}

/// The order of lists of texts is irreflexive.
pub proof fn list_lt_irreflexive(a: Seq<Seq<char>>)
    ensures
        !list_lt(a, a),
    decreases a.len(),
{
    if a.len() > 0 {
        list_lt_irreflexive(a.drop_first());
    }
}

/// The order of lists of texts is transitive.
pub proof fn list_lt_transitive(a: Seq<Seq<char>>, b: Seq<Seq<char>>, c: Seq<Seq<char>>)
    requires
        list_lt(a, b),
        list_lt(b, c),
    ensures
        list_lt(a, c),
    decreases a.len(),
{
    if a.len() > 0 && b.len() > 0 && c.len() > 0 {
        if a[0] == b[0] && b[0] == c[0] {
            list_lt_transitive(a.drop_first(), b.drop_first(), c.drop_first());
        } else if a[0] != b[0] && b[0] != c[0] {
            str_lt_transitive(a[0], b[0], c[0]);
            if a[0] == c[0] {
                str_lt_irreflexive(a[0]);
            }
        }
    }
}

/// The order of plugin keys is irreflexive and transitive.
pub proof fn key_lt_order(a: PluginKey, b: PluginKey, c: PluginKey)
    ensures
        !key_lt(a, a),
        key_lt(a, b) && key_lt(b, c) ==> key_lt(a, c),
{
    str_lt_irreflexive(a.0);
    str_lt_irreflexive(a.2);
    str_lt_irreflexive(a.3);
    str_lt_irreflexive(a.4);
    list_lt_irreflexive(a.1);
    if key_lt(a, b) && key_lt(b, c) {
        if a.0 != b.0 && b.0 != c.0 {
            str_lt_transitive(a.0, b.0, c.0);
            if a.0 == c.0 {
                str_lt_irreflexive(a.0);
            }
        } else if a.0 == b.0 && b.0 == c.0 {
            if a.1 != b.1 && b.1 != c.1 {
                list_lt_transitive(a.1, b.1, c.1);
                if a.1 == c.1 {
                    list_lt_irreflexive(a.1);
                }
            } else if a.1 == b.1 && b.1 == c.1 {
                if a.2 != b.2 && b.2 != c.2 {
                    str_lt_transitive(a.2, b.2, c.2);
                    if a.2 == c.2 {
                        str_lt_irreflexive(a.2);
                    }
                } else if a.2 == b.2 && b.2 == c.2 {
                    if a.3 != b.3 && b.3 != c.3 {
                        str_lt_transitive(a.3, b.3, c.3);
                        if a.3 == c.3 {
                            str_lt_irreflexive(a.3);
                        }
                    } else if a.3 == b.3 && b.3 == c.3 {
                        if a.4 != b.4 && b.4 != c.4 {
                            str_lt_transitive(a.4, b.4, c.4);
                            if a.4 == c.4 {
                                str_lt_irreflexive(a.4);
                            }
                        }
                    }
                }
            }
        }
    }
}

/// Compares the characters of `a` and `b` from position `i` on.
fn compare_chars(a: &Vec<char>, b: &Vec<char>, i: usize) -> (r: Comparison)
    requires
        i <= a.len(),
        i <= b.len(),
    ensures
        r == Comparison::Less ==> str_lt(a@.skip(i as int), b@.skip(i as int)),
        r == Comparison::Equal ==> a@.skip(i as int) == b@.skip(i as int),
        r == Comparison::Greater ==> str_lt(b@.skip(i as int), a@.skip(i as int)),
    decreases a.len() - i,
{
    let ghost x = a@.skip(i as int);
    let ghost y = b@.skip(i as int);
    if i == a.len() {
        if i == b.len() {
            assert(x =~= y);
            return Comparison::Equal;
        }
        return Comparison::Less;
    }
    if i == b.len() {
        return Comparison::Greater;
    }
    assert(x[0] == a@[i as int] && y[0] == b@[i as int]);
    assert(x.drop_first() =~= a@.skip(i + 1) && y.drop_first() =~= b@.skip(i + 1));
    let (c, d) = (a[i], b[i]);
    if c != d {
        if c < d {
            Comparison::Less
        } else {
            Comparison::Greater
        }
    } else {
        let r = compare_chars(a, b, i + 1);
        if r == Comparison::Equal {
            assert(x.len() == y.len());
            assert forall|k: int| 0 <= k < x.len() implies x[k] == y[k] by {
                if k > 0 {
                    assert(x[k] == x.drop_first()[k - 1] && y[k] == y.drop_first()[k - 1]);
                }
            }
            assert(x =~= y);
        }
        r
    }
}

/// Compares two texts.
pub fn compare_str(a: &str, b: &str) -> (r: Comparison)
    ensures
        r == Comparison::Less ==> str_lt(a@, b@),
        r == Comparison::Equal ==> a@ == b@,
        r == Comparison::Greater ==> str_lt(b@, a@),
{
    let x = chars_of(a);
    let y = chars_of(b);
    assert(x@.skip(0) =~= x@ && y@.skip(0) =~= y@);
    compare_chars(&x, &y, 0)
}

/// Compares the texts of `a` and `b` from position `i` on.
fn compare_lists(a: &Vec<String>, b: &Vec<String>, i: usize) -> (r: Comparison)
    requires
        i <= a.len(),
        i <= b.len(),
    ensures
        r == Comparison::Less ==> list_lt(views(a@).skip(i as int), views(b@).skip(i as int)),
        r == Comparison::Equal ==> views(a@).skip(i as int) == views(b@).skip(i as int),
        r == Comparison::Greater ==> list_lt(views(b@).skip(i as int), views(a@).skip(i as int)),
    decreases a.len() - i,
{
    let ghost x = views(a@).skip(i as int);
    let ghost y = views(b@).skip(i as int);
    if i == a.len() {
        if i == b.len() {
            assert(x =~= y);
            return Comparison::Equal;
        }
        return Comparison::Less;
    }
    if i == b.len() {
        return Comparison::Greater;
    }
    assert(x[0] == a@[i as int]@ && y[0] == b@[i as int]@);
    assert(x.drop_first() =~= views(a@).skip(i + 1) && y.drop_first() =~= views(b@).skip(i + 1));
    let c = compare_str(a[i].as_str(), b[i].as_str());
    if c != Comparison::Equal {
        proof {
            if c == Comparison::Less {
                str_lt_irreflexive(x[0]);
            } else {
                str_lt_irreflexive(y[0]);
            }
        }
        c
    } else {
        let r = compare_lists(a, b, i + 1);
        if r == Comparison::Equal {
            assert(x.len() == y.len());
            assert forall|k: int| 0 <= k < x.len() implies x[k] == y[k] by {
                if k > 0 {
                    assert(x[k] == x.drop_first()[k - 1] && y[k] == y.drop_first()[k - 1]);
                }
            }
            assert(x =~= y);
        }
        r
    }
}

/// Compares two texts, as part of a key.
fn compare_part(a: &str, b: &str) -> (r: Comparison)
    ensures
        r == Comparison::Less ==> a@ != b@ && str_lt(a@, b@),
        r == Comparison::Equal ==> a@ == b@,
        r == Comparison::Greater ==> a@ != b@ && str_lt(b@, a@),
{
    let r = compare_str(a, b);
    proof {
        str_lt_irreflexive(a@);
    }
    r
}

/// Compares two plugins by their keys.
pub fn compare_plugins(p: &Plugin, q: &Plugin) -> (r: Comparison)
    ensures
        r == Comparison::Less ==> key_lt(plugin_key(*p), plugin_key(*q)),
        r == Comparison::Equal ==> plugin_key(*p) == plugin_key(*q),
        r == Comparison::Greater ==> key_lt(plugin_key(*q), plugin_key(*p)),
{
    let ghost a = plugin_key(*p);
    let ghost b = plugin_key(*q);
    let c = compare_part(p.details.id.as_str(), q.details.id.as_str());
    if c != Comparison::Equal {
        return c;
    }
    let c = compare_lists(&p.details.extensions, &q.details.extensions, 0);
    assert(views(p.details.extensions@).skip(0) =~= a.1 && views(q.details.extensions@).skip(0) =~= b.1);
    if c != Comparison::Equal {
        proof {
            list_lt_irreflexive(a.1);
        }
        return c;
    }
    let c = compare_part(p.details.version.as_str(), q.details.version.as_str());
    if c != Comparison::Equal {
        return c;
    }
    let c = compare_part(p.details.author.as_str(), q.details.author.as_str());
    if c != Comparison::Equal {
        return c;
    }
    let c = compare_part(p.path.as_str(), q.path.as_str());
    if c != Comparison::Equal {
        return c;
    }
    match (p.kind, q.kind) {
        (PluginKind::Lint, PluginKind::Test) => Comparison::Less,
        (PluginKind::Test, PluginKind::Lint) => Comparison::Greater,
        _ => Comparison::Equal,
    }
}

/// Where `p` goes among the ascending plugins `r`: the position after the
/// plugins before it and before the ones after it; `None` when a plugin alike
/// to it is there.
fn insert_position(r: &Vec<Plugin>, p: &Plugin) -> (res: Option<usize>)
    requires
        plugins_ascending(r@),
    ensures
        match res {
            Some(k) => {
                &&& k <= r.len()
                &&& forall|m: int| 0 <= m < k ==> key_lt(plugin_key(#[trigger] r@[m]), plugin_key(*p))
                &&& k < r.len() ==> key_lt(plugin_key(*p), plugin_key(r@[k as int]))
            },
            None => exists|m: int| 0 <= m < r.len() && plugin_key(#[trigger] r@[m]) == plugin_key(*p),
        },
{
    let mut k: usize = 0;
    while k < r.len()
        invariant
            k <= r.len(),
            forall|m: int| 0 <= m < k ==> key_lt(plugin_key(#[trigger] r@[m]), plugin_key(*p)),
        decreases r.len() - k,
    {
        match compare_plugins(&r[k], p) {
            Comparison::Less => {
                k = k + 1;
            },
            Comparison::Equal => {
                return None;
            },
            Comparison::Greater => {
                return Some(k);
            },
        }
    }
    Some(k)
}

/// Whether some plugin of `s` has the key `k`.
pub open spec fn key_in(s: Seq<Plugin>, k: PluginKey) -> bool {
    exists|i: int| 0 <= i < s.len() && plugin_key(s[i]) == k
}

/// Whether `a` and `b` hold plugins of the same keys.
pub open spec fn same_keys(a: Seq<Plugin>, b: Seq<Plugin>) -> bool {
    &&& forall|i: int| 0 <= i < a.len() ==> #[trigger] key_in(b, plugin_key(a[i]))
    &&& forall|j: int| 0 <= j < b.len() ==> #[trigger] key_in(a, plugin_key(b[j]))
}

proof fn lemma_insert_ascending(r: Seq<Plugin>, k: int, p: Plugin)
    requires
        plugins_ascending(r),
        0 <= k <= r.len(),
        forall|m: int| 0 <= m < k ==> key_lt(plugin_key(#[trigger] r[m]), plugin_key(p)),
        k < r.len() ==> key_lt(plugin_key(p), plugin_key(r[k])),
    ensures
        plugins_ascending(r.insert(k, p)),
{
    let q = r.insert(k, p);
    assert forall|a: int, b: int| 0 <= a < b < q.len() implies key_lt(plugin_key(#[trigger] q[a]), plugin_key(#[trigger] q[b])) by {
        if b < k {
            assert(q[a] == r[a] && q[b] == r[b]);
        } else if b == k {
            assert(q[a] == r[a]);
        } else if a == k {
            assert(q[b] == r[b - 1]);
            if b - 1 > k {
                assert(key_lt(plugin_key(r[k]), plugin_key(r[b - 1])));
                key_lt_order(plugin_key(p), plugin_key(r[k]), plugin_key(r[b - 1]));
            }
        } else if a < k {
            assert(q[a] == r[a] && q[b] == r[b - 1]);
        } else {
            assert(q[a] == r[a - 1] && q[b] == r[b - 1]);
        }
    }
}

proof fn lemma_keys_step(input: Seq<Plugin>, n: int, old_r: Seq<Plugin>, r: Seq<Plugin>, k: int)
    requires
        0 < n <= input.len(),
        same_keys(input.skip(n), old_r),
        (r == old_r && key_in(old_r, plugin_key(input[n - 1]))) || (0 <= k <= old_r.len() && r == old_r.insert(
            k,
            input[n - 1],
        )),
    ensures
        same_keys(input.skip(n - 1), r),
{
    let before = input.skip(n);
    let after = input.skip(n - 1);
    let p = input[n - 1];
    assert(after =~= seq![p] + before);
    assert forall|i: int| 0 <= i < after.len() implies #[trigger] key_in(r, plugin_key(after[i])) by {
        if i == 0 {
            if r == old_r {
                assert(key_in(old_r, plugin_key(p)));
            } else {
                assert(r[k] == p);
            }
        } else {
            assert(after[i] == before[i - 1]);
            assert(key_in(old_r, plugin_key(before[i - 1])));
            let j = choose|j: int| 0 <= j < old_r.len() && plugin_key(old_r[j]) == plugin_key(before[i - 1]);
            if r != old_r {
                let jj = if j < k { j } else { j + 1 };
                assert(r[jj] == old_r[j]);
            }
        }
    }
    assert forall|j: int| 0 <= j < r.len() implies #[trigger] key_in(after, plugin_key(r[j])) by {
        if r != old_r && j == k {
            assert(after[0] == p);
        } else {
            let jj = if r == old_r || j < k { j } else { j - 1 };
            assert(r[j] == old_r[jj]);
            assert(key_in(before, plugin_key(old_r[jj])));
            let i = choose|i: int| 0 <= i < before.len() && plugin_key(before[i]) == plugin_key(old_r[jj]);
            assert(after[i + 1] == before[i]);
        }
    }
}

/// The plugins in ascending order; of plugins alike (same key) one is kept.
pub fn sort_plugins(plugins: Vec<Plugin>) -> (r: Vec<Plugin>)
    ensures
        plugins_ascending(r@),
        same_keys(plugins@, r@),
{
    let ghost input = plugins@;
    let mut rest = plugins;
    let mut r: Vec<Plugin> = Vec::new();
    assert(input.skip(input.len() as int) =~= Seq::<Plugin>::empty());
    while rest.len() > 0
        invariant
            rest@.len() <= input.len(),
            rest@ == input.take(rest@.len() as int),
            plugins_ascending(r@),
            same_keys(input.skip(rest@.len() as int), r@),
        decreases rest.len(),
    {
        let ghost n = rest@.len() as int;
        let p = rest.pop().unwrap();
        assert(p == input[n - 1]);
        assert(rest@ =~= input.take(n - 1));
        let ghost old_r = r@;
        match insert_position(&r, &p) {
            None => {
                proof {
                    lemma_keys_step(input, n, old_r, r@, 0);
                }
            },
            Some(k) => {
                r.insert(k, p);
                proof {
                    lemma_insert_ascending(old_r, k as int, p);
                    lemma_keys_step(input, n, old_r, r@, k as int);
                }
            },
        }
    }
    assert(input.skip(0) =~= input);
    r
}

/// The plugins at the positions `idxs`.
pub open spec fn at_positions(plugins: Seq<Plugin>, idxs: Seq<usize>) -> Seq<Plugin> {
    idxs.map_values(|i: usize| plugins[i as int])
}

/// Selecting plugins by the configuration keeps an ascending list ascending:
/// the selected plugins come in the list's order, each once.
pub proof fn selection_keeps_order(plugins: Seq<Plugin>, keys: Seq<Seq<char>>)
    requires
        plugins_ascending(plugins),
        plugins.len() <= usize::MAX,
    ensures
        plugins_ascending(at_positions(plugins, selected(plugin_ids(plugins), keys, plugins.len()))),
{
    let sel = selected(plugin_ids(plugins), keys, plugins.len());
    selected_exactly(plugin_ids(plugins), keys, plugins.len());
    let q = at_positions(plugins, sel);
    assert forall|a: int, b: int| 0 <= a < b < q.len() implies key_lt(plugin_key(#[trigger] q[a]), plugin_key(#[trigger] q[b])) by {
        assert(sel[a] < sel[b]);
        assert(sel.contains(sel[a]) && sel.contains(sel[b]));
        assert(q[a] == plugins[sel[a] as int] && q[b] == plugins[sel[b] as int]);
    }
}

} // verus!
