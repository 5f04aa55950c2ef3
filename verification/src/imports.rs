//! JavaScript import declarations: the single imports that scripts build, their
//! merging by module, and the text of the merged declarations.
use vstd::prelude::*;
use vstd::string::StringExecFns;
use crate::text::{join, join_strings, string_of};
use crate::js::views;

verus! {

/// The three forms of import.
#[derive(Copy, Clone, Debug, PartialEq, Eq, Structural)]
pub enum ImportKind {
    /// `import { name } from "module"`
    Named,
    /// `import { name as alias } from "module"`
    Alias,
    /// `import name from "module"`
    Default,
}

/// One import: what it brings in, under which name, and from where.
pub struct JsImport {
    pub kind: ImportKind,
    pub name: String,
    pub alias: Option<String>,
    pub from: String,
}

/// The view of an optional string.
pub open spec fn opt_view(o: Option<String>) -> Option<Seq<char>> {
    match o {
        Some(s) => Some(s@),
        None => None,
    }
}

/// An imported name and its alias, if any.
pub type ImportItemView = (Seq<char>, Option<Seq<char>>);

/// The view of an import: its kind, name, alias and module.
pub open spec fn import_view(i: JsImport) -> (ImportKind, Seq<char>, Option<Seq<char>>, Seq<char>) {
    (i.kind, i.name@, opt_view(i.alias), i.from@)
}

impl JsImport {
    /// `import { name } from "from"`.
    pub fn named(name: String, from: String) -> (r: Self)
        ensures
            import_view(r) == (ImportKind::Named, name@, None::<Seq<char>>, from@),
    {
        JsImport { kind: ImportKind::Named, name, alias: None, from }
    }

    /// `import { name as alias } from "from"`.
    pub fn aliased(name: String, alias: String, from: String) -> (r: Self)
        ensures
            import_view(r) == (ImportKind::Alias, name@, Some(alias@), from@),
    {
        JsImport { kind: ImportKind::Alias, name, alias: Some(alias), from }
    }

    /// `import name from "from"`.
    pub fn default_import(name: String, from: String) -> (r: Self)
        ensures
            import_view(r) == (ImportKind::Default, name@, None::<Seq<char>>, from@),
    {
        JsImport { kind: ImportKind::Default, name, alias: None, from }
    }

    /// The identifier the import makes available: its alias when it has one,
    /// else its name.
    pub fn display(&self) -> (r: String)
        ensures
            r@ == (match (self.kind, opt_view(self.alias)) {
                (ImportKind::Alias, Some(a)) => a,
                _ => self.name@,
            }),
    {
        match (self.kind, &self.alias) {
            (ImportKind::Alias, Some(a)) => a.clone(),
            _ => self.name.clone(),
        }
    }
}

/// The imports grouped by module, and the default imports by module.
pub struct MergedImports {
    pub by_module: Vec<(String, Vec<(String, Option<String>)>)>,
    pub defaults: Vec<(String, String)>,
}

/// The view of the items imported from one module.
pub open spec fn items_view(v: Seq<(String, Option<String>)>) -> Seq<ImportItemView> {
    v.map_values(|it: (String, Option<String>)| (it.0@, opt_view(it.1)))
}

/// The view of the groups of imports.
pub open spec fn groups_view(v: Seq<(String, Vec<(String, Option<String>)>)>) -> Seq<
    (Seq<char>, Seq<ImportItemView>),
> {
    v.map_values(|g: (String, Vec<(String, Option<String>)>)| (g.0@, items_view(g.1@)))
}

/// The view of the default imports.
pub open spec fn defaults_view(v: Seq<(String, String)>) -> Seq<(Seq<char>, Seq<char>)> {
    v.map_values(|d: (String, String)| (d.0@, d.1@))
}

/// The first index at or after `j` whose key is `k`, or -1.
pub open spec fn first_index<V>(l: Seq<(Seq<char>, V)>, k: Seq<char>, j: int) -> int
    decreases l.len() - j,
{
    if j < 0 || j >= l.len() {
        -1
    } else if l[j].0 == k {
        j
    } else {
        first_index(l, k, j + 1)
    }
}

proof fn lemma_first_index<V>(l: Seq<(Seq<char>, V)>, k: Seq<char>, j: int)
    requires
        0 <= j,
    ensures
        first_index(l, k, j) == -1 ==> forall|i: int| j <= i < l.len() ==> #[trigger] l[i].0 != k,
        first_index(l, k, j) != -1 ==> j <= first_index(l, k, j) < l.len() && l[first_index(l, k, j)].0 == k,
    decreases l.len() - j,
{
    if j < l.len() && l[j].0 != k {
        lemma_first_index(l, k, j + 1);
    }
}

/// Whether no two entries of `l` have the same key.
pub open spec fn keys_distinct<V>(l: Seq<(Seq<char>, V)>) -> bool {
    forall|a: int, b: int| 0 <= a < b < l.len() ==> #[trigger] l[a].0 != #[trigger] l[b].0
}

/// Merging keeps one group per module and one default import per module.
pub proof fn merged_modules_distinct(
    imps: Seq<(ImportKind, Seq<char>, Option<Seq<char>>, Seq<char>)>,
    n: nat,
)
    ensures
        keys_distinct(spec_merge(imps, n).0),
        keys_distinct(spec_merge(imps, n).1),
    decreases n,
{
    if n > 0 && n <= imps.len() {
        merged_modules_distinct(imps, (n - 1) as nat);
        let prev = spec_merge(imps, (n - 1) as nat);
        let imp = imps[n - 1];
        lemma_first_index(prev.0, imp.3, 0);
        lemma_first_index(prev.1, imp.3, 0);
        let g = group_add(prev.0, imp.3, (imp.1, imp.2));
        let d = assoc_set(prev.1, imp.3, imp.1);
        assert forall|a: int, b: int| 0 <= a < b < g.len() implies #[trigger] g[a].0 != #[trigger] g[b].0 by {
            if b < prev.0.len() {
                assert(prev.0[a].0 != prev.0[b].0);
            }
        }
        assert forall|a: int, b: int| 0 <= a < b < d.len() implies #[trigger] d[a].0 != #[trigger] d[b].0 by {
            if b < prev.1.len() {
                assert(prev.1[a].0 != prev.1[b].0);
            }
        }
    }
}

/// The named and aliased items imported from module `m` by the first `n`
/// imports, in order.
pub open spec fn items_of(
    imps: Seq<(ImportKind, Seq<char>, Option<Seq<char>>, Seq<char>)>,
    n: nat,
    m: Seq<char>,
) -> Seq<ImportItemView>
    decreases n,
{
    if n == 0 || n > imps.len() {
        Seq::empty()
    } else {
        let prev = items_of(imps, (n - 1) as nat, m);
        let imp = imps[n - 1];
        if imp.0 != ImportKind::Default && imp.3 == m {
            prev.push((imp.1, imp.2))
        } else {
            prev
        }
    }
}

/// The name of the last default import of module `m` among the first `n`
/// imports, if any.
pub open spec fn last_default(
    imps: Seq<(ImportKind, Seq<char>, Option<Seq<char>>, Seq<char>)>,
    n: nat,
    m: Seq<char>,
) -> Option<Seq<char>>
    decreases n,
{
    if n == 0 || n > imps.len() {
        None
    } else {
        let imp = imps[n - 1];
        if imp.0 == ImportKind::Default && imp.3 == m {
            Some(imp.1)
        } else {
            last_default(imps, (n - 1) as nat, m)
        }
    }
}

/// Merging groups by module: the group of each module holds exactly the
/// named and aliased items imported from it, in the order they come, and a
/// module has a group only if something is imported from it by name; the
/// default import kept for a module is the last one given for it, and a
/// module has one only if it was given one.
pub proof fn merge_groups_by_module(imps: Seq<(ImportKind, Seq<char>, Option<Seq<char>>, Seq<char>)>, n: nat)
    ensures
        forall|k: int|
            0 <= k < spec_merge(imps, n).0.len() ==> #[trigger] spec_merge(imps, n).0[k].1 == items_of(
                imps,
                n,
                spec_merge(imps, n).0[k].0,
            ),
        forall|m: Seq<char>|
            (forall|k: int| 0 <= k < spec_merge(imps, n).0.len() ==> spec_merge(imps, n).0[k].0 != m)
                ==> #[trigger] items_of(imps, n, m).len() == 0,
        forall|k: int|
            0 <= k < spec_merge(imps, n).1.len() ==> #[trigger] last_default(imps, n, spec_merge(imps, n).1[k].0)
                == Some(spec_merge(imps, n).1[k].1),
        forall|m: Seq<char>|
            (forall|k: int| 0 <= k < spec_merge(imps, n).1.len() ==> spec_merge(imps, n).1[k].0 != m)
                ==> #[trigger] last_default(imps, n, m) is None,
    decreases n,
{
    if n > 0 && n <= imps.len() {
        let n1 = (n - 1) as nat;
        merge_groups_by_module(imps, n1);
        merged_modules_distinct(imps, n1);
        let prev = spec_merge(imps, n1);
        let cur = spec_merge(imps, n);
        let imp = imps[n - 1];
        lemma_first_index(prev.0, imp.3, 0);
        lemma_first_index(prev.1, imp.3, 0);
        if imp.0 == ImportKind::Default {
            assert(cur.0 == prev.0);
            assert forall|k: int| 0 <= k < cur.0.len() implies #[trigger] cur.0[k].1 == items_of(imps, n, cur.0[k].0) by {
                assert(prev.0[k].1 == items_of(imps, n1, prev.0[k].0));
            }
            assert forall|m: Seq<char>|
                (forall|k: int| 0 <= k < cur.0.len() ==> cur.0[k].0 != m) implies #[trigger] items_of(imps, n, m).len() == 0 by {
                assert(items_of(imps, n1, m).len() == 0);
            }
            let i = first_index(prev.1, imp.3, 0);
            assert forall|k: int| 0 <= k < cur.1.len() implies #[trigger] last_default(imps, n, cur.1[k].0) == Some(cur.1[k].1) by {
                if i >= 0 && k == i {
                } else if i < 0 && k == prev.1.len() {
                } else {
                    assert(prev.1[k] == cur.1[k]);
                    assert(last_default(imps, n1, prev.1[k].0) == Some(prev.1[k].1));
                    if i >= 0 {
                        assert(prev.1[k].0 != prev.1[i].0);
                    }
                }
            }
            assert forall|m: Seq<char>|
                (forall|k: int| 0 <= k < cur.1.len() ==> cur.1[k].0 != m) implies #[trigger] last_default(imps, n, m) is None by {
                if i >= 0 {
                    assert(cur.1[i].0 == imp.3);
                } else {
                    assert(cur.1[prev.1.len() as int].0 == imp.3);
                }
                assert forall|k: int| 0 <= k < prev.1.len() implies prev.1[k].0 != m by {
                    if k != i {
                        assert(cur.1[k] == prev.1[k]);
                    } else {
                        assert(prev.1[k].0 == imp.3);
                    }
                }
                assert(last_default(imps, n1, m) is None);
            }
        } else {
            assert(cur.1 == prev.1);
            let i = first_index(prev.0, imp.3, 0);
            assert forall|k: int| 0 <= k < cur.0.len() implies #[trigger] cur.0[k].1 == items_of(imps, n, cur.0[k].0) by {
                if i >= 0 && k == i {
                    assert(prev.0[i].1 == items_of(imps, n1, imp.3));
                } else if i < 0 && k == prev.0.len() {
                    assert forall|kk: int| 0 <= kk < prev.0.len() implies prev.0[kk].0 != imp.3 by {}
                    assert(items_of(imps, n1, imp.3).len() == 0);
                    assert(items_of(imps, n, imp.3) =~= seq![(imp.1, imp.2)]);
                } else {
                    assert(prev.0[k] == cur.0[k]);
                    assert(prev.0[k].1 == items_of(imps, n1, prev.0[k].0));
                    if i >= 0 {
                        assert(prev.0[k].0 != prev.0[i].0);
                    }
                }
            }
            assert forall|m: Seq<char>|
                (forall|k: int| 0 <= k < cur.0.len() ==> cur.0[k].0 != m) implies #[trigger] items_of(imps, n, m).len() == 0 by {
                if i >= 0 {
                    assert(cur.0[i].0 == imp.3);
                } else {
                    assert(cur.0[prev.0.len() as int].0 == imp.3);
                }
                assert forall|k: int| 0 <= k < prev.0.len() implies prev.0[k].0 != m by {
                    if k != i {
                        assert(cur.0[k] == prev.0[k]);
                    } else {
                        assert(prev.0[k].0 == imp.3);
                    }
                }
                assert(items_of(imps, n1, m).len() == 0);
            }
            assert forall|k: int| 0 <= k < cur.1.len() implies #[trigger] last_default(imps, n, cur.1[k].0) == Some(cur.1[k].1) by {
                assert(last_default(imps, n1, prev.1[k].0) == Some(prev.1[k].1));
            }
            assert forall|m: Seq<char>|
                (forall|k: int| 0 <= k < cur.1.len() ==> cur.1[k].0 != m) implies #[trigger] last_default(imps, n, m) is None by {
                assert(last_default(imps, n1, m) is None);
            }
        }
    }
}

/// The list with `v` stored under `k`: in place of the first entry with key
/// `k`, or at the end when there is none.
pub open spec fn assoc_set(l: Seq<(Seq<char>, Seq<char>)>, k: Seq<char>, v: Seq<char>) -> Seq<
    (Seq<char>, Seq<char>),
> {
    let i = first_index(l, k, 0);
    if i < 0 {
        l.push((k, v))
    } else {
        l.update(i, (k, v))
    }
}

/// The groups with `item` added to the end of the group of module `k`, which
/// is started at the end when there is none.
pub open spec fn group_add(
    l: Seq<(Seq<char>, Seq<ImportItemView>)>,
    k: Seq<char>,
    item: ImportItemView,
) -> Seq<(Seq<char>, Seq<ImportItemView>)> {
    let i = first_index(l, k, 0);
    if i < 0 {
        l.push((k, seq![item]))
    } else {
        l.update(i, (k, l[i].1.push(item)))
    }
}

/// The merged imports after the first `n` imports of `imps`.
pub open spec fn spec_merge(
    imps: Seq<(ImportKind, Seq<char>, Option<Seq<char>>, Seq<char>)>,
    n: nat,
) -> (Seq<(Seq<char>, Seq<ImportItemView>)>, Seq<(Seq<char>, Seq<char>)>)
    decreases n,
{
    if n == 0 || n > imps.len() {
        (Seq::empty(), Seq::empty())
    } else {
        let prev = spec_merge(imps, (n - 1) as nat);
        let imp = imps[n - 1];
        if imp.0 == ImportKind::Default {
            (prev.0, assoc_set(prev.1, imp.3, imp.1))
        } else {
            (group_add(prev.0, imp.3, (imp.1, imp.2)), prev.1)
        }
    }
}

/// The index of the first group of module `k`, if any.
fn find_group(l: &Vec<(String, Vec<(String, Option<String>)>)>, k: &String) -> (r: Option<usize>)
    ensures
        match r {
            Some(i) => i < l.len() && first_index(groups_view(l@), k@, 0) == i,
            None => first_index(groups_view(l@), k@, 0) == -1,
        },
{
    let mut j: usize = 0;
    while j < l.len()
        invariant
            j <= l.len(),
            first_index(groups_view(l@), k@, 0) == first_index(groups_view(l@), k@, j as int),
        decreases l.len() - j,
    {
        if l[j].0 == *k {
            return Some(j);
        }
        j = j + 1;
    }
    None
}

/// The index of the first default import of module `k`, if any.
fn find_default(l: &Vec<(String, String)>, k: &String) -> (r: Option<usize>)
    ensures
        match r {
            Some(i) => i < l.len() && first_index(defaults_view(l@), k@, 0) == i,
            None => first_index(defaults_view(l@), k@, 0) == -1,
        },
{
    let mut j: usize = 0;
    while j < l.len()
        invariant
            j <= l.len(),
            first_index(defaults_view(l@), k@, 0) == first_index(defaults_view(l@), k@, j as int),
        decreases l.len() - j,
    {
        if l[j].0 == *k {
            return Some(j);
        }
        j = j + 1;
    }
    None
}

/// A copy of a list of imported items.
fn copy_items(v: &Vec<(String, Option<String>)>) -> (r: Vec<(String, Option<String>)>)
    ensures
        items_view(r@) == items_view(v@),
{
    let mut r: Vec<(String, Option<String>)> = Vec::new();
    let mut i: usize = 0;
    while i < v.len()
        invariant
            i <= v.len(),
            items_view(r@) == items_view(v@).take(i as int),
        decreases v.len() - i,
    {
        let alias = match &v[i].1 {
            Some(a) => Some(a.clone()),
            None => None,
        };
        let ghost prev = r@;
        r.push((v[i].0.clone(), alias));
        assert(items_view(r@) =~= items_view(prev).push(items_view(v@)[i as int]));
        assert(items_view(r@) =~= items_view(v@).take(i + 1));
        i = i + 1;
    }
    assert(items_view(v@).take(v.len() as int) =~= items_view(v@));
    r
}

/// The views of a list of imports.
pub open spec fn imports_view(v: Seq<JsImport>) -> Seq<(ImportKind, Seq<char>, Option<Seq<char>>, Seq<char>)> {
    v.map_values(|i: JsImport| import_view(i))
}

/// Merges imports: named and aliased ones are grouped by module in the order
/// they come, default ones are kept by module, a later one replacing an
/// earlier one of the same module.
pub fn merge_imports(imports: &Vec<JsImport>) -> (r: MergedImports)
    ensures
        (groups_view(r.by_module@), defaults_view(r.defaults@)) == spec_merge(
            imports_view(imports@),
            imports@.len(),
        ),
{
    let mut by_module: Vec<(String, Vec<(String, Option<String>)>)> = Vec::new();
    let mut defaults: Vec<(String, String)> = Vec::new();
    let ghost iv = imports_view(imports@);
    let mut i: usize = 0;
    while i < imports.len()
        invariant
            i <= imports.len(),
            iv == imports_view(imports@),
            (groups_view(by_module@), defaults_view(defaults@)) == spec_merge(iv, i as nat),
        decreases imports.len() - i,
    {
        let imp = &imports[i];
        let ghost bm0 = groups_view(by_module@);
        let ghost d0 = defaults_view(defaults@);
        if imp.kind == ImportKind::Default {
            match find_default(&defaults, &imp.from) {
                Some(j) => {
                    defaults.set(j, (imp.from.clone(), imp.name.clone()));
                    assert(defaults_view(defaults@) =~= d0.update(j as int, (imp.from@, imp.name@)));
                },
                None => {
                    defaults.push((imp.from.clone(), imp.name.clone()));
                    assert(defaults_view(defaults@) =~= d0.push((imp.from@, imp.name@)));
                },
            }
        } else {
            let item = (imp.name.clone(), imp.alias.clone());
            proof {
                assert(opt_view(item.1) == opt_view(imp.alias));
            }
            match find_group(&by_module, &imp.from) {
                Some(j) => {
                    let mut group = copy_items(&by_module[j].1);
                    let ghost g0 = group@;
                    group.push(item);
                    assert(items_view(group@) =~= items_view(g0).push((imp.name@, opt_view(imp.alias))));
                    by_module.set(j, (imp.from.clone(), group));
                    assert(groups_view(by_module@) =~= bm0.update(
                        j as int,
                        (imp.from@, bm0[j as int].1.push((imp.name@, opt_view(imp.alias)))),
                    ));
                },
                None => {
                    let mut group: Vec<(String, Option<String>)> = Vec::new();
                    group.push(item);
                    assert(items_view(group@) =~= seq![(imp.name@, opt_view(imp.alias))]);
                    by_module.push((imp.from.clone(), group));
                    assert(groups_view(by_module@) =~= bm0.push(
                        (imp.from@, seq![(imp.name@, opt_view(imp.alias))]),
                    ));
                },
            }
        }
        i = i + 1;
        assert(iv[i - 1] == import_view(imports@[i - 1]));
    }
    MergedImports { by_module, defaults }
}

/// The text of one imported item: its name, with `as` and its alias if it has one.
pub open spec fn item_text(item: ImportItemView) -> Seq<char> {
    match item.1 {
        Some(a) => item.0 + " as "@ + a,
        None => item.0,
    }
}

/// The declaration that imports `items` from `module`.
pub open spec fn module_line(module: Seq<char>, items: Seq<ImportItemView>) -> Seq<char> {
    "import { "@ + join(items.map_values(|it: ImportItemView| item_text(it)), ", "@) + " } from \""@
        + module + "\""@
}

/// The declaration of the default import `name` from `module`.
pub open spec fn default_line(module: Seq<char>, name: Seq<char>) -> Seq<char> {
    "import "@ + name + " from \""@ + module + "\""@
}

/// The declarations of the groups that import something.
pub open spec fn module_lines(groups: Seq<(Seq<char>, Seq<ImportItemView>)>) -> Seq<Seq<char>>
    decreases groups.len(),
{
    if groups.len() == 0 {
        Seq::empty()
    } else {
        let g = groups.last();
        let prev = module_lines(groups.drop_last());
        if g.1.len() > 0 {
            prev.push(module_line(g.0, g.1))
        } else {
            prev
        }
    }
}

/// The text of the merged imports: a declaration per module that imports
/// something, then one per default import, a line each.
pub open spec fn spec_imports_text(
    groups: Seq<(Seq<char>, Seq<ImportItemView>)>,
    defaults: Seq<(Seq<char>, Seq<char>)>,
) -> Seq<char> {
    join(
        module_lines(groups) + defaults.map_values(
            |d: (Seq<char>, Seq<char>)| default_line(d.0, d.1),
        ),
        "\n"@,
    )
}

/// The text of one imported item.
fn format_item(item: &(String, Option<String>)) -> (r: String)
    ensures
        r@ == item_text((item.0@, opt_view(item.1))),
{
    match &item.1 {
        Some(a) => {
            let mut r = item.0.clone();
            r.append(" as ");
            r.append(a.as_str());
            r
        },
        None => item.0.clone(),
    }
}

/// The text of the merged imports, with the groups and the default imports in
/// the order they are visited.
pub fn format_imports(
    by_module: &Vec<(String, Vec<(String, Option<String>)>)>,
    defaults: &Vec<(String, String)>,
) -> (r: String)
    ensures
        r@ == spec_imports_text(groups_view(by_module@), defaults_view(defaults@)),
{
    let ghost gv = groups_view(by_module@);
    let mut lines: Vec<String> = Vec::new();
    let mut i: usize = 0;
    while i < by_module.len()
        invariant
            i <= by_module.len(),
            gv == groups_view(by_module@),
            views(lines@) == module_lines(gv.take(i as int)),
        decreases by_module.len() - i,
    {
        let items = &by_module[i].1;
        let ghost iv = items_view(items@);
        assert(gv.take(i + 1).drop_last() =~= gv.take(i as int));
        assert(gv.take(i + 1).last() == gv[i as int]);
        if items.len() > 0 {
            let mut parts: Vec<String> = Vec::new();
            let mut j: usize = 0;
            while j < items.len()
                invariant
                    j <= items.len(),
                    iv == items_view(items@),
                    views(parts@) == iv.take(j as int).map_values(|it: ImportItemView| item_text(it)),
                decreases items.len() - j,
            {
                let t = format_item(&items[j]);
                let ghost prev = parts@;
                parts.push(t);
                assert(views(parts@) =~= views(prev).push(item_text(iv[j as int])));
                assert(views(parts@) =~= iv.take(j + 1).map_values(|it: ImportItemView| item_text(it)));
                j = j + 1;
            }
            assert(iv.take(items.len() as int) =~= iv);
            let body = join_strings(&parts, ", ");
            let mut line = string_of("import { ");
            line.append(body.as_str());
            line.append(" } from \"");
            line.append(by_module[i].0.as_str());
            line.append("\"");
            let ghost prev = lines@;
            lines.push(line);
            assert(views(lines@) =~= views(prev).push(module_line(gv[i as int].0, gv[i as int].1)));
        }
        i = i + 1;
    }
    assert(gv.take(by_module.len() as int) =~= gv);
    let ghost head = views(lines@);
    let ghost dv = defaults_view(defaults@);
    let mut k: usize = 0;
    while k < defaults.len()
        invariant
            k <= defaults.len(),
            dv == defaults_view(defaults@),
            views(lines@) == head + dv.take(k as int).map_values(
                |d: (Seq<char>, Seq<char>)| default_line(d.0, d.1),
            ),
        decreases defaults.len() - k,
    {
        let mut line = string_of("import ");
        line.append(defaults[k].1.as_str());
        line.append(" from \"");
        line.append(defaults[k].0.as_str());
        line.append("\"");
        let ghost prev = lines@;
        lines.push(line);
        assert(views(lines@) =~= views(prev).push(default_line(dv[k as int].0, dv[k as int].1)));
        assert(views(lines@) =~= head + dv.take(k + 1).map_values(
            |d: (Seq<char>, Seq<char>)| default_line(d.0, d.1),
        ));
        k = k + 1;
    }
    assert(dv.take(defaults.len() as int) =~= dv);
    join_strings(&lines, "\n")
}

} // verus!
