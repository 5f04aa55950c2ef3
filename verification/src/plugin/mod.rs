//! Plugins: what they declare, the index of plugins by file extension, and
//! which plugins a configuration selects.
use vstd::prelude::*;
use crate::js::views;
use self::order::{at_positions, plugins_ascending, selection_keeps_order};

pub mod download;
pub mod find;
pub mod order;

verus! {

/// Whether a plugin lints or tests.
#[derive(Copy, Clone, Debug, PartialEq, Eq, Structural)]
pub enum PluginKind {
    Lint,
    Test,
}

impl PluginKind {
    /// The name of the kind, which is also the name of its plugin directory.
    pub fn as_str(&self) -> (r: &'static str)
        ensures
            r@ == (match self {
                PluginKind::Lint => "lint"@,
                PluginKind::Test => "test"@,
            }),
    {
        match self {
            PluginKind::Lint => "lint",
            PluginKind::Test => "test",
        }
    }

    /// The kind of the plugins kept in the directory named `dir`.
    pub fn from_dir(dir: &str) -> (r: Option<PluginKind>)
        ensures
            r == (if dir@ == "lint"@ {
                Some(PluginKind::Lint)
            } else if dir@ == "test"@ {
                Some(PluginKind::Test)
            } else {
                None
            }),
    {
        let d = crate::text::string_of(dir);
        let lint = crate::text::string_of("lint");
        let test = crate::text::string_of("test");
        if d == lint {
            Some(PluginKind::Lint)
        } else if d == test {
            Some(PluginKind::Test)
        } else {
            None
        }
    }
}

/// What a plugin declares about itself.
#[derive(Debug)]
pub struct PluginDetails {
    pub id: String,
    pub extensions: Vec<String>,
    pub version: String,
    pub author: String,
}

/// A plugin: its declaration, the directory it lives in, and its kind.
#[derive(Debug)]
pub struct Plugin {
    pub details: PluginDetails,
    pub path: String,
    pub kind: PluginKind,
}

/// The plugin ids that a configuration names in each of its sections.
pub struct Config {
    /// The ids under `[rules]` (lint plugins).
    pub rules: Vec<String>,
    /// The ids under `[tests]` (test plugins).
    pub tests: Vec<String>,
    /// The ids under `[ci]`.
    pub ci: Vec<String>,
}

/// The kinds of plugin a command works on.
#[derive(Copy, Clone, Debug, PartialEq, Eq, Structural)]
pub struct KindSelection {
    pub lint: bool,
    pub test: bool,
}

impl KindSelection {
    /// Whether plugins of `kind` are among those worked on.
    pub open spec fn spec_includes(self, kind: PluginKind) -> bool {
        match kind {
            PluginKind::Lint => self.lint,
            PluginKind::Test => self.test,
        }
    }

    /// Whether plugins of `kind` are among those worked on.
    pub fn includes(&self, kind: PluginKind) -> (r: bool)
        ensures
            r == self.spec_includes(kind),
    {
        match kind {
            PluginKind::Lint => self.lint,
            PluginKind::Test => self.test,
        }
    }
}

/// The kinds chosen by the filter flags: linting plugins for the lint flag,
/// testing plugins for the test flag, both for the all flag or when no filter
/// is given.
pub open spec fn spec_kinds(lint: bool, test: bool, all: bool) -> KindSelection {
    KindSelection { lint: all || lint || !test, test: all || test || !lint }
}

/// Whether one of the words is `w`.
pub fn has_word(words: &Vec<String>, w: &str) -> (r: bool)
    ensures
        r == views(words@).contains(w@),
{
    let target = crate::text::string_of(w);
    let mut i: usize = 0;
    while i < words.len()
        invariant
            i <= words.len(),
            target@ == w@,
            forall|j: int| 0 <= j < i ==> views(words@)[j] != w@,
        decreases words.len() - i,
    {
        if words[i] == target {
            assert(views(words@)[i as int] == w@);
            return true;
        }
        i = i + 1;
    }
    proof {
        if views(words@).contains(w@) {
            let j = choose|j: int| 0 <= j < views(words@).len() && views(words@)[j] == w@;
            assert(views(words@)[j] != w@);
        }
    }
    false
}

/// The kinds `install` works on, from its options: `--lint`, `--test`,
/// `--all` (the default).
pub fn install_kinds(options: &Vec<String>) -> (r: KindSelection)
    ensures
        r == spec_kinds(
            views(options@).contains("--lint"@),
            views(options@).contains("--test"@),
            views(options@).contains("--all"@),
        ),
{
    let lint = has_word(options, "--lint");
    let test = has_word(options, "--test");
    let all = has_word(options, "--all");
    KindSelection { lint: all || lint || !test, test: all || test || !lint }
}

/// The kinds `test` works on, from its options: `-l`/`--lint`, `-t`/`--test`,
/// `-a`/`--all` (the default).
pub fn test_kinds(options: &Vec<String>) -> (r: KindSelection)
    ensures
        r == spec_kinds(
            views(options@).contains("-l"@) || views(options@).contains("--lint"@),
            views(options@).contains("-t"@) || views(options@).contains("--test"@),
            views(options@).contains("-a"@) || views(options@).contains("--all"@),
        ),
{
    let lint = has_word(options, "-l") || has_word(options, "--lint");
    let test = has_word(options, "-t") || has_word(options, "--test");
    let all = has_word(options, "-a") || has_word(options, "--all");
    KindSelection { lint: all || lint || !test, test: all || test || !lint }
}

/// The ids of the plugins.
pub open spec fn plugin_ids(ps: Seq<Plugin>) -> Seq<Seq<char>> {
    ps.map_values(|p: Plugin| p.details.id@)
}

/// The extensions that plugin `p` declares.
pub open spec fn plugin_exts(p: Plugin) -> Seq<Seq<char>> {
    views(p.details.extensions@)
}

/// The indices below `n` of the ids that `keys` holds, in increasing order.
pub open spec fn selected(ids: Seq<Seq<char>>, keys: Seq<Seq<char>>, n: nat) -> Seq<usize>
    decreases n,
{
    if n == 0 || n > ids.len() {
        Seq::empty()
    } else {
        let prev = selected(ids, keys, (n - 1) as nat);
        if keys.contains(ids[n - 1]) {
            prev.push((n - 1) as usize)
        } else {
            prev
        }
    }
}

/// Every index that `selected` gives lies below `n`.
pub proof fn lemma_selected_bounded(ids: Seq<Seq<char>>, keys: Seq<Seq<char>>, n: nat)
    requires
        n <= ids.len(),
    ensures
        forall|j: int| 0 <= j < selected(ids, keys, n).len() ==> #[trigger] selected(ids, keys, n)[j] < n,
    decreases n,
{
    if n > 0 {
        lemma_selected_bounded(ids, keys, (n - 1) as nat);
        let prev = selected(ids, keys, (n - 1) as nat);
        assert forall|j: int| 0 <= j < selected(ids, keys, n).len() implies #[trigger] selected(
            ids,
            keys,
            n,
        )[j] < n by {
            if j < prev.len() {
                assert(prev[j] < n - 1);
            }
        }
    }
}

/// A plugin is selected exactly when its id is among the keys, and the
/// selection keeps the order of the plugins.
pub proof fn selected_exactly(ids: Seq<Seq<char>>, keys: Seq<Seq<char>>, n: nat)
    requires
        n <= ids.len(),
        n <= usize::MAX,
    ensures
        forall|i: usize| #[trigger] selected(ids, keys, n).contains(i) <==> (i < n && keys.contains(ids[i as int])),
        forall|a: int, b: int| 0 <= a < b < selected(ids, keys, n).len() ==> #[trigger] selected(ids, keys, n)[a]
            < #[trigger] selected(ids, keys, n)[b],
    decreases n,
{
    if n > 0 {
        selected_exactly(ids, keys, (n - 1) as nat);
        lemma_selected_bounded(ids, keys, (n - 1) as nat);
        let prev = selected(ids, keys, (n - 1) as nat);
        let cur = selected(ids, keys, n);
        assert forall|i: usize| #[trigger] cur.contains(i) <==> (i < n && keys.contains(ids[i as int])) by {
            if keys.contains(ids[n - 1]) {
                assert(cur == prev.push((n - 1) as usize));
                if cur.contains(i) {
                    let q = choose|q: int| 0 <= q < cur.len() && #[trigger] cur[q] == i;
                    if q < prev.len() {
                        assert(prev[q] == i);
                    }
                }
                if prev.contains(i) {
                    let q = choose|q: int| 0 <= q < prev.len() && #[trigger] prev[q] == i;
                    assert(cur[q] == i);
                }
                if i == n - 1 {
                    assert(cur[prev.len() as int] == i);
                }
            }
        }
        assert forall|a: int, b: int| 0 <= a < b < cur.len() implies #[trigger] cur[a] < #[trigger] cur[b] by {
            if keys.contains(ids[n - 1]) {
                assert(cur == prev.push((n - 1) as usize));
            }
            if b < prev.len() {
                assert(prev[a] < prev[b]);
            } else {
                assert(prev[a] < n - 1);
            }
        }
    }
}

/// Whether `keys` holds `k`.
pub fn contains_key(keys: &Vec<String>, k: &String) -> (r: bool)
    ensures
        r == views(keys@).contains(k@),
{
    let mut i: usize = 0;
    while i < keys.len()
        invariant
            i <= keys.len(),
            forall|j: int| 0 <= j < i ==> views(keys@)[j] != k@,
        decreases keys.len() - i,
    {
        if keys[i] == *k {
            assert(views(keys@)[i as int] == k@);
            return true;
        }
        i = i + 1;
    }
    false
}

/// The indices of the plugins whose id `keys` holds, in the order of `plugins`.
pub fn select_plugins(plugins: &Vec<Plugin>, keys: &Vec<String>) -> (r: Vec<usize>)
    ensures
        r@ == selected(plugin_ids(plugins@), views(keys@), plugins@.len()),
{
    let ghost ids = plugin_ids(plugins@);
    let mut r: Vec<usize> = Vec::new();
    let mut i: usize = 0;
    while i < plugins.len()
        invariant
            i <= plugins.len(),
            ids == plugin_ids(plugins@),
            r@ == selected(ids, views(keys@), i as nat),
        decreases plugins.len() - i,
    {
        assert(ids[i as int] == plugins@[i as int].details.id@);
        if contains_key(keys, &plugins[i].details.id) {
            r.push(i);
        }
        i = i + 1;
    }
    r
}

/// The strings of `a` followed by those of `b`.
pub fn concat_keys(a: &Vec<String>, b: &Vec<String>) -> (r: Vec<String>)
    ensures
        views(r@) == views(a@) + views(b@),
{
    let mut r: Vec<String> = Vec::new();
    let mut i: usize = 0;
    while i < a.len()
        invariant
            i <= a.len(),
            views(r@) == views(a@).take(i as int),
        decreases a.len() - i,
    {
        let ghost p = r@;
        r.push(a[i].clone());
        assert(views(r@) =~= views(p).push(views(a@)[i as int]));
        assert(views(r@) =~= views(a@).take(i + 1));
        i = i + 1;
    }
    let mut j: usize = 0;
    while j < b.len()
        invariant
            j <= b.len(),
            views(r@) == views(a@) + views(b@).take(j as int),
        decreases b.len() - j,
    {
        let ghost p = r@;
        r.push(b[j].clone());
        assert(views(r@) =~= views(p).push(views(b@)[j as int]));
        assert(views(r@) =~= views(a@) + views(b@).take(j + 1));
        j = j + 1;
    }
    assert(views(a@).take(a.len() as int) =~= views(a@));
    assert(views(b@).take(b.len() as int) =~= views(b@));
    r
}

impl Plugin {
    /// The plugins whose id the configuration names under `[rules]`.
    pub fn list_from_config(config: &Config, plugins: &Vec<Plugin>) -> (r: Vec<usize>)
        ensures
            r@ == selected(plugin_ids(plugins@), views(config.rules@), plugins@.len()),
            plugins_ascending(plugins@) ==> plugins_ascending(at_positions(plugins@, r@)),
    {
        let r = select_plugins(plugins, &config.rules);
        proof {
            if plugins_ascending(plugins@) {
                assert(plugins@.len() == plugins.len());
                selection_keeps_order(plugins@, views(config.rules@));
            }
        }
        r
    }

    /// The configuration section that holds this plugin's settings.
    pub fn config_section(&self) -> (r: &'static str)
        ensures
            r@ == (match self.kind {
                PluginKind::Lint => "rules"@,
                PluginKind::Test => "tests"@,
            }),
    {
        match self.kind {
            PluginKind::Lint => "rules",
            PluginKind::Test => "tests",
        }
    }
}

/// The plugins that generate configuration files: those named under
/// `[rules]`, `[tests]` or `[ci]`.
pub fn generating_plugins(config: &Config, plugins: &Vec<Plugin>) -> (r: Vec<usize>)
    ensures
        r@ == selected(
            plugin_ids(plugins@),
            views(config.rules@) + views(config.tests@) + views(config.ci@),
            plugins@.len(),
        ),
{
    let a = concat_keys(&config.rules, &config.tests);
    let keys = concat_keys(&a, &config.ci);
    select_plugins(plugins, &keys)
}

} // verus!
