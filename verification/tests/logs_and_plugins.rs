use flint::plugin::order::{compare_plugins, compare_str, sort_plugins, Comparison};
use flint::codegen::{
    constructor_name, generate_unique_id, get_render_method, numbered_ident, IdCounter,
    WidgetHandlerOptions,
};
use flint::logs::{
    add_log, format_log_line, get_logs, get_logs_mut, log_lines, LogKind, LogStore, LogsState,
    LogsWidget,
};
use flint::plugin::download::{
    clone_args, clone_step, download_plugins, download_plugins_from_config, failure_message, install_requests,
    sparse_args, sparse_paths, CloneAction, CloneEvent, CloneFailure, CloneState,
};
use flint::plugin::find::{list_from_config, test_plugins};
use flint::plugin::{
    generating_plugins, install_kinds, test_kinds, Config, KindSelection, Plugin, PluginDetails, PluginKind,
};

fn strings(v: &[&str]) -> Vec<String> {
    v.iter().map(|s| s.to_string()).collect()
}

fn plugin(id: &str, exts: &[&str], kind: PluginKind) -> Plugin {
    Plugin {
        details: PluginDetails {
            id: id.to_string(),
            extensions: strings(exts),
            version: "1.0".to_string(),
            author: "me".to_string(),
        },
        path: format!("plugins/{}", id),
        kind,
    }
}

#[test]
fn logs_state_starts_at_top() {
    let s = LogsState::new();
    assert_eq!(s.scroll(), 0);
    let d = LogsState::default();
    assert_eq!(d.scroll(), 0);
}

#[test]
fn logs_state_scrolls_and_saturates() {
    let mut s = LogsState::new();
    s.scroll_down(5);
    assert_eq!(s.scroll(), 5);
    s.scroll_up(2);
    assert_eq!(s.scroll(), 3);
    s.scroll_up(10);
    assert_eq!(s.scroll(), 0);
    s.scroll_down(usize::MAX);
    s.scroll_down(7);
    assert_eq!(s.scroll(), usize::MAX);
    s.reset_scroll();
    assert_eq!(s.scroll(), 0);
}

#[test]
fn scroll_up_undoes_scroll_down_on_values() {
    let mut s = LogsState::new();
    s.scroll_down(40);
    s.scroll_down(12);
    s.scroll_up(12);
    assert_eq!(s.scroll(), 40);
}

#[test]
fn scroll_to_bottom_cases() {
    let mut s = LogsState::new();
    s.scroll_to_bottom(50, 20);
    assert_eq!(s.scroll(), 30);
    s.scroll_to_bottom(10, 20);
    assert_eq!(s.scroll(), 0);
    s.scroll_to_bottom(20, 20);
    assert_eq!(s.scroll(), 0);
}

#[test]
fn log_lines_are_tagged() {
    assert_eq!(format_log_line(LogKind::Info, "hello"), "[info]: hello");
    assert_eq!(format_log_line(LogKind::Success, "ok"), "[success]: ok");
    assert_eq!(format_log_line(LogKind::Error, "bad"), "[error]: bad");
    assert_eq!(format_log_line(LogKind::Warn, "hm"), "[warn]: hm");
    assert_eq!(format_log_line(LogKind::Debug, "x"), "[debug]: x");
    assert_eq!(LogKind::default(), LogKind::Info);
}

#[test]
fn add_log_then_read_back() {
    let mut store = LogStore::new();
    add_log(&mut store, LogKind::Warn, "disk almost full");
    add_log(&mut store, LogKind::Info, "done");
    let logs = get_logs(&store);
    assert_eq!(logs.len(), 2);
    assert_eq!(logs[0].0, LogKind::Warn);
    assert_eq!(logs[0].1, "[warn]: disk almost full");
    assert_eq!(logs[1].1, "[info]: done");
    assert_eq!(store.len(), 2);
}

#[test]
fn get_logs_mut_writes_through() {
    let mut store = LogStore::new();
    add_log(&mut store, LogKind::Info, "a");
    get_logs_mut(&mut store).clear();
    assert_eq!(store.len(), 0);
}

#[test]
fn log_lines_split_at_line_breaks() {
    let mut store = LogStore::new();
    add_log(&mut store, LogKind::Error, "first\nsecond");
    add_log(&mut store, LogKind::Info, "third\n");
    let lines = log_lines(&store);
    let texts: Vec<&str> = lines.iter().map(|l| l.1.as_str()).collect();
    assert_eq!(texts, vec!["[error]: first", "second", "[info]: third", ""]);
    assert_eq!(lines[1].0, LogKind::Error);
    assert_eq!(lines[3].0, LogKind::Info);
}

#[test]
fn render_clamps_scroll_and_titles_the_window() {
    let mut store = LogStore::new();
    for i in 0..10 {
        add_log(&mut store, LogKind::Info, &format!("line {}", i));
    }
    let mut state = LogsState::new();
    state.scroll_down(100);
    let view = LogsWidget.render(&store, 6, &mut state);
    assert_eq!(state.scroll(), 6);
    assert_eq!(view.title, "Logs [7-10/10]");
    let texts: Vec<&str> = view.lines.iter().map(|l| l.1.as_str()).collect();
    assert_eq!(texts, vec!["[info]: line 6", "[info]: line 7", "[info]: line 8", "[info]: line 9"]);
}

#[test]
fn render_of_few_lines_shows_all() {
    let mut store = LogStore::new();
    add_log(&mut store, LogKind::Success, "only");
    let mut state = LogsState::new();
    let view = LogsWidget.render(&store, 20, &mut state);
    assert_eq!(view.title, "Logs [1-1/1]");
    assert_eq!(view.lines.len(), 1);
    assert_eq!(state.scroll(), 0);
}

#[test]
fn render_of_empty_store() {
    let store = LogStore::new();
    let mut state = LogsState::new();
    let view = LogsWidget.render(&store, 5, &mut state);
    assert_eq!(view.title, "Logs [1-0/0]");
    assert!(view.lines.is_empty());
}

#[test]
fn bottom_scroll_shows_last_lines() {
    let mut store = LogStore::new();
    for i in 0..8 {
        add_log(&mut store, LogKind::Info, &format!("{}", i));
    }
    let mut state = LogsState::new();
    state.scroll_to_bottom(8, 3);
    let view = LogsWidget.render(&store, 5, &mut state);
    let texts: Vec<&str> = view.lines.iter().map(|l| l.1.as_str()).collect();
    assert_eq!(texts, vec!["[info]: 5", "[info]: 6", "[info]: 7"]);
}

#[test]
fn extension_index_groups_plugins() {
    let plugins = vec![
        plugin("eslint", &["js", "ts"], PluginKind::Lint),
        plugin("jest", &["js"], PluginKind::Test),
        plugin("clippy", &["rs", "rs"], PluginKind::Lint),
    ];
    let index = flint::plugin::find::map(&plugins);
    let find = |e: &str| index.iter().find(|(k, _)| k == e).map(|(_, v)| v.clone());
    assert_eq!(find("js"), Some(vec![0, 1]));
    assert_eq!(find("ts"), Some(vec![0]));
    assert_eq!(find("rs"), Some(vec![2]));
    assert_eq!(find("py"), None);
    assert_eq!(index.len(), 3);
}

#[test]
fn config_selects_plugins() {
    let plugins = vec![
        plugin("eslint", &["js"], PluginKind::Lint),
        plugin("jest", &["js"], PluginKind::Test),
        plugin("actions", &[], PluginKind::Lint),
        plugin("unused", &["py"], PluginKind::Lint),
    ];
    let config = Config {
        rules: strings(&["eslint"]),
        tests: strings(&["jest"]),
        ci: strings(&["actions"]),
    };
    assert_eq!(Plugin::list_from_config(&config, &plugins), vec![0]);
    assert_eq!(list_from_config(&config, &plugins), vec![0, 1]);
    assert_eq!(generating_plugins(&config, &plugins), vec![0, 1, 2]);
    let tests_only = KindSelection { lint: false, test: true };
    let all = KindSelection { lint: true, test: true };
    let lint_only = KindSelection { lint: true, test: false };
    assert_eq!(test_plugins(&config, &plugins, tests_only), vec![1]);
    assert_eq!(test_plugins(&config, &plugins, all), vec![0, 1]);
    assert_eq!(test_plugins(&config, &plugins, lint_only), vec![0]);
}

#[test]
fn kind_flags_pick_the_kinds() {
    let all = KindSelection { lint: true, test: true };
    assert_eq!(test_kinds(&strings(&[])), all);
    assert_eq!(test_kinds(&strings(&["-a"])), all);
    assert_eq!(test_kinds(&strings(&["-l"])), KindSelection { lint: true, test: false });
    assert_eq!(test_kinds(&strings(&["--test"])), KindSelection { lint: false, test: true });
    assert_eq!(test_kinds(&strings(&["-l", "-t"])), all);
    assert_eq!(install_kinds(&strings(&["--lint"])), KindSelection { lint: true, test: false });
    assert_eq!(install_kinds(&strings(&["-l"])), all);
    assert_eq!(install_kinds(&strings(&["--all"])), all);
}

#[test]
fn install_requests_follow_the_kinds() {
    let config = Config { rules: strings(&["eslint"]), tests: strings(&["jest"]), ci: strings(&[]) };
    let both = install_requests(&config, KindSelection { lint: true, test: true });
    assert_eq!(both.len(), 2);
    assert_eq!(both[0].kind, PluginKind::Test);
    assert_eq!(both[0].sparse_paths, strings(&["flint-plugins/test/jest"]));
    assert_eq!(both[1].kind, PluginKind::Lint);
    assert_eq!(both[1].ids, strings(&["eslint"]));
    let lint = install_requests(&config, KindSelection { lint: true, test: false });
    assert_eq!(lint.len(), 1);
    assert_eq!(lint[0].kind, PluginKind::Lint);
}

#[test]
fn checkout_commands_and_messages() {
    let req = download_plugins(PluginKind::Lint, &strings(&["eslint", "ruff"]));
    assert_eq!(
        clone_args(&req, "/tmp/x"),
        strings(&["clone", "--filter=blob:none", "--sparse", "https://github.com/skadewdl3/flint", "/tmp/x"])
    );
    assert_eq!(
        sparse_args(&req),
        strings(&["sparse-checkout", "set", "flint-plugins/lint/eslint", "flint-plugins/lint/ruff"])
    );
    assert_eq!(failure_message(CloneFailure::Clone, "d"), "Failed to clone repository");
    assert_eq!(failure_message(CloneFailure::Sparse, "d"), "Failed to set sparse-checkout");
    assert_eq!(failure_message(CloneFailure::DirMissing, "/t/lint"), "Plugins directory not found: /t/lint");
}

#[test]
fn checkout_copies_or_warns_for_each_id_in_order() {
    let req = download_plugins(PluginKind::Lint, &strings(&["eslint", "ruff"]));
    let mut state = CloneState::Idle;
    let mut actions = Vec::new();
    let events = [
        CloneEvent::Started,
        CloneEvent::CloneExited(true),
        CloneEvent::SparseExited(true),
        CloneEvent::DirChecked(true),
        CloneEvent::IdChecked(0, true),
        CloneEvent::Copied(0),
        CloneEvent::IdChecked(1, false),
        CloneEvent::Warned(1),
        CloneEvent::TempRemoved,
    ];
    for e in events {
        let (s, a) = clone_step(&req, &state, e);
        state = s;
        actions.push(a);
    }
    assert_eq!(
        actions,
        vec![
            CloneAction::RunClone,
            CloneAction::RunSparse,
            CloneAction::CheckDir,
            CloneAction::CheckId(0),
            CloneAction::Copy(0),
            CloneAction::CheckId(1),
            CloneAction::Warn(1),
            CloneAction::RemoveTemp,
            CloneAction::Done,
        ]
    );
    assert_eq!(state, CloneState::Finished);
}

#[test]
fn checkout_failures_clean_up_then_fail() {
    let req = download_plugins(PluginKind::Test, &strings(&["jest"]));
    let (s, a) = clone_step(&req, &CloneState::Cloning, CloneEvent::CloneExited(false));
    assert_eq!(a, CloneAction::RemoveTemp);
    assert_eq!(clone_step(&req, &s, CloneEvent::TempRemoved).1, CloneAction::Fail(CloneFailure::Clone));
    let (s, a) = clone_step(&req, &CloneState::CheckingDir, CloneEvent::DirChecked(false));
    assert_eq!(a, CloneAction::RemoveTemp);
    assert_eq!(clone_step(&req, &s, CloneEvent::TempRemoved).1, CloneAction::Fail(CloneFailure::DirMissing));
    assert_eq!(clone_step(&req, &CloneState::Copying(0), CloneEvent::IoFailed).1, CloneAction::Abort);
    assert_eq!(clone_step(&req, &CloneState::Idle, CloneEvent::Copied(0)).1, CloneAction::Nothing);
}

#[test]
fn plugin_kind_names() {
    assert_eq!(PluginKind::Lint.as_str(), "lint");
    assert_eq!(PluginKind::Test.as_str(), "test");
    assert_eq!(PluginKind::from_dir("test"), Some(PluginKind::Test));
    assert_eq!(PluginKind::from_dir("lint"), Some(PluginKind::Lint));
    assert_eq!(PluginKind::from_dir("ci"), None);
    let p = plugin("jest", &[], PluginKind::Test);
    assert_eq!(p.config_section(), "tests");
    let q = plugin("eslint", &[], PluginKind::Lint);
    assert_eq!(q.config_section(), "rules");
}

#[test]
fn download_requests_name_the_folders() {
    let ids = strings(&["eslint", "prettier"]);
    assert_eq!(
        sparse_paths(PluginKind::Lint, &ids),
        strings(&["flint-plugins/lint/eslint", "flint-plugins/lint/prettier"])
    );
    let req = download_plugins(PluginKind::Test, &strings(&["jest"]));
    assert_eq!(req.repo_url, "https://github.com/skadewdl3/flint");
    assert_eq!(req.kind, PluginKind::Test);
    assert_eq!(req.ids, strings(&["jest"]));
    assert_eq!(req.sparse_paths, strings(&["flint-plugins/test/jest"]));
    let config = Config { rules: strings(&["eslint"]), tests: strings(&["jest"]), ci: vec![] };
    let all = download_plugins_from_config(&config);
    assert_eq!(all.len(), 2);
    assert_eq!(all[0].kind, PluginKind::Test);
    assert_eq!(all[0].sparse_paths, strings(&["flint-plugins/test/jest"]));
    assert_eq!(all[1].kind, PluginKind::Lint);
    assert_eq!(all[1].sparse_paths, strings(&["flint-plugins/lint/eslint"]));
}

#[test]
fn unique_ids_count_up() {
    let mut c = IdCounter::new();
    assert_eq!(generate_unique_id(&mut c), 0);
    assert_eq!(generate_unique_id(&mut c), 1);
    assert_eq!(generate_unique_id(&mut c), 2);
    assert_eq!(numbered_ident("layout", 12), "layout_12");
    assert_eq!(numbered_ident("chunks", 0), "chunks_0");
}

#[test]
fn codegen_decisions() {
    assert_eq!(get_render_method(true), ("render_ref", "render_widget_ref"));
    assert_eq!(get_render_method(false), ("render", "render_widget"));
    assert_eq!(constructor_name(None), "default");
    assert_eq!(constructor_name(Some("new")), "new");
    let o = WidgetHandlerOptions::new(true, 3, 1);
    assert!(o.is_top_level);
    assert_eq!(o.parent_id, 3);
    assert_eq!(o.child_index, 1);
}

#[test]
fn plugins_are_sorted_once_each() {
    let plugins = vec![
        plugin("jest", &["js"], PluginKind::Test),
        plugin("eslint", &["js"], PluginKind::Lint),
        plugin("jest", &["js"], PluginKind::Test),
        plugin("black", &["py"], PluginKind::Lint),
    ];
    let sorted = sort_plugins(plugins);
    let ids: Vec<&str> = sorted.iter().map(|p| p.details.id.as_str()).collect();
    assert_eq!(ids, vec!["black", "eslint", "jest"]);
    assert_eq!(compare_str("ab", "b"), Comparison::Less);
    assert_eq!(compare_str("ab", "a"), Comparison::Greater);
    assert_eq!(compare_str("ab", "ab"), Comparison::Equal);
    let lint = plugin("x", &["js"], PluginKind::Lint);
    let test = plugin("x", &["js"], PluginKind::Test);
    assert_eq!(compare_plugins(&lint, &test), Comparison::Less);
}
