//! Downloading plugins: which repository to fetch and which of its plugin
//! folders to check out.
use vstd::prelude::*;
use vstd::string::StringExecFns;
use crate::js::views;
use crate::text::string_of;
use super::{Config, KindSelection, PluginKind};

verus! {

/// The repository that holds the plugins.
pub open spec fn plugin_repository() -> Seq<char> {
    "https://github.com/skadewdl3/flint"@
}

/// The name of the plugin directory of a kind.
pub open spec fn kind_name(kind: PluginKind) -> Seq<char> {
    match kind {
        PluginKind::Lint => "lint"@,
        PluginKind::Test => "test"@,
    }
}

/// The folder of the repository that holds the plugin `id` of a kind.
pub open spec fn sparse_path(kind: PluginKind, id: Seq<char>) -> Seq<char> {
    "flint-plugins/"@ + kind_name(kind) + "/"@ + id
}

/// A checkout of plugin folders: the repository, the kind of the plugins, and
/// the ids and repository folders of the plugins to fetch.
pub struct CloneRequest {
    pub repo_url: String,
    pub kind: PluginKind,
    pub ids: Vec<String>,
    pub sparse_paths: Vec<String>,
}

/// The repository folders of the plugins `ids` of a kind.
pub fn sparse_paths(kind: PluginKind, ids: &Vec<String>) -> (r: Vec<String>)
    ensures
        views(r@) == views(ids@).map_values(|id: Seq<char>| sparse_path(kind, id)),
{
    let mut r: Vec<String> = Vec::new();
    let mut i: usize = 0;
    while i < ids.len()
        invariant
            i <= ids.len(),
            views(r@) == views(ids@).take(i as int).map_values(|id: Seq<char>| sparse_path(kind, id)),
        decreases ids.len() - i,
    {
        let mut p = string_of("flint-plugins/");
        p.append(kind.as_str());
        p.append("/");
        p.append(ids[i].as_str());
        let ghost prev = r@;
        r.push(p);
        assert(views(r@) =~= views(prev).push(sparse_path(kind, views(ids@)[i as int])));
        assert(views(r@) =~= views(ids@).take(i + 1).map_values(|id: Seq<char>| sparse_path(kind, id)));
        i = i + 1;
    }
    assert(views(ids@).take(ids.len() as int) =~= views(ids@));
    r
}

/// A copy of a list of strings.
fn copy_strings(v: &Vec<String>) -> (r: Vec<String>)
    ensures
        views(r@) == views(v@),
{
    let mut r: Vec<String> = Vec::new();
    let mut i: usize = 0;
    while i < v.len()
        invariant
            i <= v.len(),
            views(r@) == views(v@).take(i as int),
        decreases v.len() - i,
    {
        let ghost prev = r@;
        r.push(v[i].clone());
        assert(views(r@) =~= views(prev).push(views(v@)[i as int]));
        assert(views(r@) =~= views(v@).take(i + 1));
        i = i + 1;
    }
    assert(views(v@).take(v.len() as int) =~= views(v@));
    r
}

/// The checkout that fetches the plugins `ids` of a kind from the plugin repository.
pub fn download_plugins(kind: PluginKind, ids: &Vec<String>) -> (r: CloneRequest)
    ensures
        r.repo_url@ == plugin_repository(),
        r.kind == kind,
        views(r.ids@) == views(ids@),
        views(r.sparse_paths@) == views(ids@).map_values(|id: Seq<char>| sparse_path(kind, id)),
{
    CloneRequest {
        repo_url: string_of("https://github.com/skadewdl3/flint"),
        kind,
        ids: copy_strings(ids),
        sparse_paths: sparse_paths(kind, ids),
    }
}

/// The checkouts of every plugin the configuration names: first the test
/// plugins, then the lint plugins.
pub fn download_plugins_from_config(config: &Config) -> (r: Vec<CloneRequest>)
    ensures
        r@.len() == 2,
        r@[0].repo_url@ == plugin_repository(),
        r@[0].kind == PluginKind::Test,
        views(r@[0].ids@) == views(config.tests@),
        views(r@[0].sparse_paths@) == views(config.tests@).map_values(
            |id: Seq<char>| sparse_path(PluginKind::Test, id),
        ),
        r@[1].repo_url@ == plugin_repository(),
        r@[1].kind == PluginKind::Lint,
        views(r@[1].ids@) == views(config.rules@),
        views(r@[1].sparse_paths@) == views(config.rules@).map_values(
            |id: Seq<char>| sparse_path(PluginKind::Lint, id),
        ),
{
    let mut r: Vec<CloneRequest> = Vec::new();
    r.push(download_plugins(PluginKind::Test, &config.tests));
    r.push(download_plugins(PluginKind::Lint, &config.rules));
    r
}

/// `req` fetches the plugins `ids` of `kind` from the plugin repository.
pub open spec fn request_for(req: CloneRequest, kind: PluginKind, ids: Seq<Seq<char>>) -> bool {
    &&& req.repo_url@ == plugin_repository()
    &&& req.kind == kind
    &&& views(req.ids@) == ids
    &&& views(req.sparse_paths@) == ids.map_values(|id: Seq<char>| sparse_path(kind, id))
}

/// The checkouts that `install` makes for the selected kinds: the test
/// plugins the configuration names first, then the lint plugins.
pub fn install_requests(config: &Config, kinds: KindSelection) -> (r: Vec<CloneRequest>)
    ensures
        r@.len() == (if kinds.test { 1int } else { 0int }) + (if kinds.lint { 1int } else { 0int }),
        kinds.test ==> request_for(r@[0], PluginKind::Test, views(config.tests@)),
        kinds.lint ==> request_for(r@[r@.len() - 1], PluginKind::Lint, views(config.rules@)),
{
    let mut r: Vec<CloneRequest> = Vec::new();
    if kinds.test {
        r.push(download_plugins(PluginKind::Test, &config.tests));
    }
    if kinds.lint {
        r.push(download_plugins(PluginKind::Lint, &config.rules));
    }
    r
}

/// The arguments of the `git` command that clones the repository of `req`,
/// without checking files out, into `temp`.
pub fn clone_args(req: &CloneRequest, temp: &str) -> (r: Vec<String>)
    ensures
        views(r@) == seq!["clone"@, "--filter=blob:none"@, "--sparse"@, req.repo_url@, temp@],
{
    let mut r: Vec<String> = Vec::new();
    r.push(string_of("clone"));
    r.push(string_of("--filter=blob:none"));
    r.push(string_of("--sparse"));
    r.push(string_of(req.repo_url.as_str()));
    r.push(string_of(temp));
    assert(views(r@) =~= seq!["clone"@, "--filter=blob:none"@, "--sparse"@, req.repo_url@, temp@]);
    r
}

/// The arguments of the `git` command that checks out the plugin folders of
/// `req`.
pub fn sparse_args(req: &CloneRequest) -> (r: Vec<String>)
    ensures
        views(r@) == seq!["sparse-checkout"@, "set"@] + views(req.sparse_paths@),
{
    let mut r: Vec<String> = Vec::new();
    r.push(string_of("sparse-checkout"));
    r.push(string_of("set"));
    let mut i: usize = 0;
    while i < req.sparse_paths.len()
        invariant
            i <= req.sparse_paths.len(),
            views(r@) == seq!["sparse-checkout"@, "set"@] + views(req.sparse_paths@).take(i as int),
        decreases req.sparse_paths.len() - i,
    {
        let ghost prev = r@;
        r.push(string_of(req.sparse_paths[i].as_str()));
        assert(views(r@) =~= views(prev).push(views(req.sparse_paths@)[i as int]));
        assert(views(req.sparse_paths@).take(i + 1) =~= views(req.sparse_paths@).take(i as int).push(
            views(req.sparse_paths@)[i as int],
        ));
        i = i + 1;
    }
    assert(views(req.sparse_paths@).take(req.sparse_paths.len() as int) =~= views(req.sparse_paths@));
    r
}

/// Why a checkout failed.
#[derive(Copy, Clone, Debug, PartialEq, Eq, Structural)]
pub enum CloneFailure {
    /// `git clone` did not succeed.
    Clone,
    /// `git sparse-checkout` did not succeed.
    Sparse,
    /// The checkout holds no folder for the plugin kind.
    DirMissing,
}

/// The message of a failed checkout; `plugins_dir` is the folder of the kind
/// in the checkout.
pub open spec fn spec_failure_message(f: CloneFailure, plugins_dir: Seq<char>) -> Seq<char> {
    match f {
        CloneFailure::Clone => "Failed to clone repository"@,
        CloneFailure::Sparse => "Failed to set sparse-checkout"@,
        CloneFailure::DirMissing => "Plugins directory not found: "@ + plugins_dir,
    }
}

/// The message of a failed checkout; `plugins_dir` is the folder of the kind
/// in the checkout.
pub fn failure_message(f: CloneFailure, plugins_dir: &str) -> (r: String)
    ensures
        r@ == spec_failure_message(f, plugins_dir@),
{
    match f {
        CloneFailure::Clone => string_of("Failed to clone repository"),
        CloneFailure::Sparse => string_of("Failed to set sparse-checkout"),
        CloneFailure::DirMissing => {
            let mut r = string_of("Plugins directory not found: ");
            r.append(plugins_dir);
            r
        },
    }
}

/// Where a checkout stands.
#[derive(Copy, Clone, Debug, PartialEq, Eq, Structural)]
pub enum CloneState {
    /// Not started.
    Idle,
    /// Cloning the repository.
    Cloning,
    /// Checking out the plugin folders.
    Sparse,
    /// Looking for the folder of the plugin kind.
    CheckingDir,
    /// Looking for the folder of the plugin at this position of the ids.
    CheckingId(usize),
    /// Copying that plugin into place.
    Copying(usize),
    /// Warning that that plugin is missing.
    Warning(usize),
    /// Removing the temporary checkout after every plugin was handled.
    Cleaning,
    /// Removing the temporary checkout after a failure.
    CleaningAfter(CloneFailure),
    /// Over.
    Finished,
}

/// What happened since the last step.
#[derive(Copy, Clone, Debug, PartialEq, Eq, Structural)]
pub enum CloneEvent {
    /// The checkout begins (the temporary and destination folders exist).
    Started,
    /// `git clone` ended, successfully or not.
    CloneExited(bool),
    /// `git sparse-checkout` ended, successfully or not.
    SparseExited(bool),
    /// Whether the folder of the plugin kind is in the checkout.
    DirChecked(bool),
    /// Whether the folder of the plugin at this position is in the checkout.
    IdChecked(usize, bool),
    /// The plugin at this position was copied (replacing an older copy).
    Copied(usize),
    /// The warning for the plugin at this position was given.
    Warned(usize),
    /// The temporary checkout was removed.
    TempRemoved,
    /// A file operation failed.
    IoFailed,
}

/// What to do next.
#[derive(Copy, Clone, Debug, PartialEq, Eq, Structural)]
pub enum CloneAction {
    /// Run `git` with the clone arguments.
    RunClone,
    /// Run `git` with the sparse checkout arguments, in the checkout.
    RunSparse,
    /// Look for the folder of the plugin kind in the checkout.
    CheckDir,
    /// Look for the folder of the plugin at this position.
    CheckId(usize),
    /// Copy that plugin into place, replacing an older copy.
    Copy(usize),
    /// Warn that that plugin was not found.
    Warn(usize),
    /// Remove the temporary checkout.
    RemoveTemp,
    /// Stop with this failure.
    Fail(CloneFailure),
    /// Stop with the failed file operation's error.
    Abort,
    /// Stop: every plugin was handled.
    Done,
    /// Nothing: the event does not fit the state.
    Nothing,
}

/// The step after the plugin at position `i - 1`: the plugin at `i` if there
/// is one, else removing the temporary checkout.
pub open spec fn next_plugin(n: nat, i: int) -> (CloneState, CloneAction) {
    if 0 <= i < n {
        (CloneState::CheckingId(i as usize), CloneAction::CheckId(i as usize))
    } else {
        (CloneState::Cleaning, CloneAction::RemoveTemp)
    }
}

/// One step of a checkout of `n` plugins: clone, check out the folders, find
/// the kind's folder, then for each plugin in order copy it or warn, then
/// remove the temporary checkout. A failed git command or a missing folder
/// removes the temporary checkout and fails; a failed file operation stops at
/// once.
pub open spec fn spec_clone_step(n: nat, s: CloneState, e: CloneEvent) -> (CloneState, CloneAction) {
    if e == CloneEvent::IoFailed {
        if s == CloneState::Finished {
            (s, CloneAction::Nothing)
        } else {
            (CloneState::Finished, CloneAction::Abort)
        }
    } else {
        match (s, e) {
            (CloneState::Idle, CloneEvent::Started) => (CloneState::Cloning, CloneAction::RunClone),
            (CloneState::Cloning, CloneEvent::CloneExited(ok)) => if ok {
                (CloneState::Sparse, CloneAction::RunSparse)
            } else {
                (CloneState::CleaningAfter(CloneFailure::Clone), CloneAction::RemoveTemp)
            },
            (CloneState::Sparse, CloneEvent::SparseExited(ok)) => if ok {
                (CloneState::CheckingDir, CloneAction::CheckDir)
            } else {
                (CloneState::CleaningAfter(CloneFailure::Sparse), CloneAction::RemoveTemp)
            },
            (CloneState::CheckingDir, CloneEvent::DirChecked(ok)) => if ok {
                next_plugin(n, 0)
            } else {
                (CloneState::CleaningAfter(CloneFailure::DirMissing), CloneAction::RemoveTemp)
            },
            (CloneState::CheckingId(i), CloneEvent::IdChecked(j, found)) => if i != j {
                (s, CloneAction::Nothing)
            } else if found {
                (CloneState::Copying(i), CloneAction::Copy(i))
            } else {
                (CloneState::Warning(i), CloneAction::Warn(i))
            },
            (CloneState::Copying(i), CloneEvent::Copied(j)) => if i == j {
                next_plugin(n, i + 1)
            } else {
                (s, CloneAction::Nothing)
            },
            (CloneState::Warning(i), CloneEvent::Warned(j)) => if i == j {
                next_plugin(n, i + 1)
            } else {
                (s, CloneAction::Nothing)
            },
            (CloneState::Cleaning, CloneEvent::TempRemoved) => (CloneState::Finished, CloneAction::Done),
            (CloneState::CleaningAfter(f), CloneEvent::TempRemoved) => (
                CloneState::Finished,
                CloneAction::Fail(f),
            ),
            _ => (s, CloneAction::Nothing),
        }
    }
}

/// Each plugin is handled in turn: once the checkout looks for the plugin at
/// position `i`, it copies it when found and warns otherwise, then goes on to
/// the plugin at `i + 1`, or removes the temporary checkout after the last.
pub proof fn checkout_handles_ids_in_order(n: nat, i: usize, found: bool)
    requires
        i < n,
    ensures
        ({
            let (s1, a1) = spec_clone_step(n, CloneState::CheckingId(i), CloneEvent::IdChecked(i, found));
            let done = if found { CloneEvent::Copied(i) } else { CloneEvent::Warned(i) };
            &&& a1 == (if found { CloneAction::Copy(i) } else { CloneAction::Warn(i) })
            &&& spec_clone_step(n, s1, done) == next_plugin(n, i + 1)
        }),
{
}

/// A checkout whose git commands succeed and whose kind folder is there
/// starts with the plugin at position 0, or, with no plugins, removes the
/// temporary checkout and is done.
pub proof fn checkout_reaches_the_plugins(n: nat)
    ensures
        ({
            let (s1, a1) = spec_clone_step(n, CloneState::Idle, CloneEvent::Started);
            let (s2, a2) = spec_clone_step(n, s1, CloneEvent::CloneExited(true));
            let (s3, a3) = spec_clone_step(n, s2, CloneEvent::SparseExited(true));
            let (s4, a4) = spec_clone_step(n, s3, CloneEvent::DirChecked(true));
            &&& a1 == CloneAction::RunClone
            &&& a2 == CloneAction::RunSparse
            &&& a3 == CloneAction::CheckDir
            &&& (s4, a4) == next_plugin(n, 0)
            &&& n == 0 ==> spec_clone_step(n, s4, CloneEvent::TempRemoved) == (CloneState::Finished, CloneAction::Done)
        }),
{
}

/// A failed git command or a missing kind folder removes the temporary
/// checkout and then fails with its reason.
pub proof fn checkout_failure_cleans_up(n: nat)
    ensures
        ({
            let (c, ca) = spec_clone_step(n, CloneState::Cloning, CloneEvent::CloneExited(false));
            let (p, pa) = spec_clone_step(n, CloneState::Sparse, CloneEvent::SparseExited(false));
            let (d, da) = spec_clone_step(n, CloneState::CheckingDir, CloneEvent::DirChecked(false));
            &&& ca == CloneAction::RemoveTemp && pa == CloneAction::RemoveTemp && da == CloneAction::RemoveTemp
            &&& spec_clone_step(n, c, CloneEvent::TempRemoved).1 == CloneAction::Fail(CloneFailure::Clone)
            &&& spec_clone_step(n, p, CloneEvent::TempRemoved).1 == CloneAction::Fail(CloneFailure::Sparse)
            &&& spec_clone_step(n, d, CloneEvent::TempRemoved).1 == CloneAction::Fail(CloneFailure::DirMissing)
        }),
{
}

fn next_plugin_step(n: usize, i: usize) -> (r: (CloneState, CloneAction))
    ensures
        r == next_plugin(n as nat, i as int),
{
    if i < n {
        (CloneState::CheckingId(i), CloneAction::CheckId(i))
    } else {
        (CloneState::Cleaning, CloneAction::RemoveTemp)
    }
}

/// One step of the checkout `req`: the next state and what to do, from the
/// state and what happened.
pub fn clone_step(req: &CloneRequest, state: &CloneState, event: CloneEvent) -> (r: (CloneState, CloneAction))
    ensures
        r == spec_clone_step(req.ids@.len(), *state, event),
{
    let n = req.ids.len();
    let s = *state;
    if event == CloneEvent::IoFailed {
        if s == CloneState::Finished {
            return (s, CloneAction::Nothing);
        } else {
            return (CloneState::Finished, CloneAction::Abort);
        }
    }
    match (s, event) {
        (CloneState::Idle, CloneEvent::Started) => (CloneState::Cloning, CloneAction::RunClone),
        (CloneState::Cloning, CloneEvent::CloneExited(ok)) => if ok {
            (CloneState::Sparse, CloneAction::RunSparse)
        } else {
            (CloneState::CleaningAfter(CloneFailure::Clone), CloneAction::RemoveTemp)
        },
        (CloneState::Sparse, CloneEvent::SparseExited(ok)) => if ok {
            (CloneState::CheckingDir, CloneAction::CheckDir)
        } else {
            (CloneState::CleaningAfter(CloneFailure::Sparse), CloneAction::RemoveTemp)
        },
        (CloneState::CheckingDir, CloneEvent::DirChecked(ok)) => if ok {
            next_plugin_step(n, 0)
        } else {
            (CloneState::CleaningAfter(CloneFailure::DirMissing), CloneAction::RemoveTemp)
        },
        (CloneState::CheckingId(i), CloneEvent::IdChecked(j, found)) => if i != j {
            (s, CloneAction::Nothing)
        } else if found {
            (CloneState::Copying(i), CloneAction::Copy(i))
        } else {
            (CloneState::Warning(i), CloneAction::Warn(i))
        },
        (CloneState::Copying(i), CloneEvent::Copied(j)) => if i != j {
            (s, CloneAction::Nothing)
        } else if i < n {
            next_plugin_step(n, i + 1)
        } else {
            (CloneState::Cleaning, CloneAction::RemoveTemp)
        },
        (CloneState::Warning(i), CloneEvent::Warned(j)) => if i != j {
            (s, CloneAction::Nothing)
        } else if i < n {
            next_plugin_step(n, i + 1)
        } else {
            (CloneState::Cleaning, CloneAction::RemoveTemp)
        },
        (CloneState::Cleaning, CloneEvent::TempRemoved) => (CloneState::Finished, CloneAction::Done),
        (CloneState::CleaningAfter(f), CloneEvent::TempRemoved) => (CloneState::Finished, CloneAction::Fail(f)),
        _ => (s, CloneAction::Nothing),
    }
}

} // verus!
