use flint::records::{csv_rows, read_table, CsvFailure};
use flint::ai::{message, prompt_messages, Role, SYSTEM_PROMPT};
use flint::app::{
    combine_event_results, command_failure_message, evaluation_failure_message, generated_message,
    global_key, languages_title, select_screen, App, InitAction, InitWidget, Key, Screen,
};
use flint::cmd::command_line;
use flint::env::{get_env_var, var_name};
use flint::error::AppError;
use flint::eval::{get_output_type, OutputType};
use flint::files::{generate_markdown_from_files, FileEntry};
use flint::imports::{format_imports, merge_imports, JsImport};
use flint::js::{
    format_default_export, format_js_array, format_js_call, format_js_key, format_js_object,
    format_named_exports, format_table_array, format_table_object, indent_js_object,
    is_valid_identifier, key_form, pad_to_width, serialize_js_bool, serialize_js_integer, serialize_js_null,
    serialize_js_string, table_form, TableForm,
};
use flint::md::{
    bold, code_block, heading, italic, link, newline, ordered_list, table, text, underline,
    unordered_list,
};
use flint::sql::{mysql_url, postgres_url, sqlite_url, SqlValueKind};

fn strings(v: &[&str]) -> Vec<String> {
    v.iter().map(|s| s.to_string()).collect()
}

fn pairs(v: &[(&str, &str)]) -> Vec<(String, String)> {
    v.iter().map(|(a, b)| (a.to_string(), b.to_string())).collect()
}

fn strip_ws(s: &str) -> String {
    s.chars().filter(|c| !c.is_whitespace()).collect()
}

#[test]
fn indent_nested_object() {
    assert_eq!(
        indent_js_object("{a:1,b:[1,2]}"),
        "{\n    a: 1,\n    b: [\n        1,\n        2\n    ]\n}"
    );
}

#[test]
fn indent_keeps_empty_brackets_together() {
    assert_eq!(indent_js_object("{}"), "{}");
    assert_eq!(indent_js_object("[ ]"), "[ ]");
    assert_eq!(indent_js_object("{a: {}}"), "{\n    a: {}\n}");
}

#[test]
fn indent_leaves_strings_alone() {
    assert_eq!(indent_js_object("{\"a, b\": 'x:{y}'}"), "{\n    \"a, b\": 'x:{y}'\n}");
}

#[test]
fn indent_collapses_white_space() {
    assert_eq!(indent_js_object("foo   bar"), "foo bar");
    assert_eq!(indent_js_object(""), "");
}

#[test]
fn indent_changes_only_white_space() {
    for input in ["{a:1,b:[1,2]}", "{ x : 'a b' , y:[ ] }", "[[1],[2,{c:3}]]", "a\tb\n\nc"] {
        assert_eq!(strip_ws(&indent_js_object(input)), strip_ws(input));
    }
}

#[test]
fn indent_backslash_escapes_quote() {
    assert_eq!(indent_js_object("{a:\"x\\\"y\"}"), "{\n    a: \"x\\\"y\"\n}");
}

#[test]
fn pad_to_width_counts_bytes() {
    assert_eq!(pad_to_width("ab", 5), "ab   ");
    assert_eq!(pad_to_width("abcdef", 3), "abcdef");
    assert_eq!(pad_to_width("é", 3), "é ");
    assert_eq!(pad_to_width("é", 3).len(), 3);
}

#[test]
fn js_string_literals_are_escaped() {
    assert_eq!(serialize_js_string("plain"), "\"plain\"");
    assert_eq!(serialize_js_string("a\"b\\c\nd\re\tf"), "\"a\\\"b\\\\c\\nd\\re\\tf\"");
    assert!(!serialize_js_string("one\ntwo").contains('\n'));
}

#[test]
fn js_keys_are_quoted_when_needed() {
    assert!(is_valid_identifier("abc_1"));
    assert!(!is_valid_identifier("1abc"));
    assert!(!is_valid_identifier(""));
    assert!(!is_valid_identifier("a-b"));
    assert_eq!(format_js_key("name"), "name");
    assert_eq!(key_form("ab", true, &vec![true, true]), "ab");
    assert_eq!(key_form("a_b", true, &vec![true, false, true]), "a_b");
    assert_eq!(key_form("my-key", true, &vec![true, true, false, true, true, true]), "\"my-key\"");
    assert_eq!(key_form("1a", false, &vec![true, true]), "\"1a\"");
    assert_eq!(key_form("", true, &vec![]), "\"\"");
    assert!(flint::text::char_is_whitespace('\u{3000}'));
    assert!(flint::text::char_is_whitespace('\n'));
    assert!(!flint::text::char_is_whitespace('a'));
    assert_eq!(format_js_key("my-key"), "\"my-key\"");
    assert_eq!(format_js_key("say \"hi\""), "\"say \\\"hi\\\"\"");
}

#[test]
fn js_arrays() {
    assert_eq!(format_js_array(&vec![]), "[]");
    assert_eq!(format_js_array(&strings(&["1", "2", "3"])), "[ 1, 2, 3 ]");
    assert_eq!(format_js_array(&strings(&["1", "2", "3", "4"])), "[\n  1,\n  2,\n  3,\n  4\n]");
    let long = "x".repeat(30);
    assert_eq!(format_js_array(&vec![long.clone()]), format!("[\n  {}\n]", long));
}

#[test]
fn js_objects_align_keys() {
    assert_eq!(format_js_object(&vec![]), "{}");
    assert_eq!(
        format_js_object(&pairs(&[("a", "1"), ("long", "2")])),
        "{\n  a   : 1,\n  long: 2\n}"
    );
}

#[test]
fn plain_tables() {
    assert_eq!(format_table_array(&strings(&["1", "\"x\""])), "[1, \"x\"]");
    assert_eq!(format_table_object(&pairs(&[("a", "1"), ("b c", "2")])), "{ a: 1, \"b c\": 2 }");
    assert_eq!(format_table_object(&vec![]), "{  }");
}

#[test]
fn table_forms() {
    assert_eq!(table_form(true, true, false, false, true, 0), TableForm::ToString);
    assert_eq!(table_form(true, false, true, false, false, 0), TableForm::Null);
    assert_eq!(table_form(true, false, false, true, false, 0), TableForm::Undefined);
    assert_eq!(table_form(true, false, false, false, true, 3), TableForm::ToString);
    assert_eq!(table_form(true, false, false, false, false, 3), TableForm::Array);
    assert_eq!(table_form(false, true, true, true, true, 0), TableForm::Object);
    assert_eq!(table_form(false, false, false, false, false, 2), TableForm::Array);
}

#[test]
fn js_scalars() {
    assert_eq!(serialize_js_bool(true), "true");
    assert_eq!(serialize_js_bool(false), "false");
    assert_eq!(serialize_js_integer(-42), "-42");
    assert_eq!(serialize_js_integer(7), "7");
    assert_eq!(serialize_js_null(), "null");
}

#[test]
fn js_exports() {
    assert_eq!(format_default_export("{ a: 1 }"), "export default { a: 1 }");
    assert_eq!(
        format_named_exports(&pairs(&[("a", "1"), ("bcd", "\"x\"")])),
        "export const a   = 1\nexport const bcd = \"x\""
    );
}

#[test]
fn js_calls() {
    assert_eq!(format_js_call(Some("f"), &vec![]), "f()");
    assert_eq!(format_js_call(None, &strings(&["1"])), "function(1)");
    assert_eq!(format_js_call(Some("g"), &strings(&["1", "2"])), "g(\n  1,\n  2\n)");
    let long = "y".repeat(60);
    assert_eq!(format_js_call(Some("h"), &vec![long.clone()]), format!("h(\n  {}\n)", long));
}

#[test]
fn imports_display_their_identifier() {
    let n = JsImport::named("useState".to_string(), "react".to_string());
    assert_eq!(n.display(), "useState");
    let a = JsImport::aliased("x".to_string(), "y".to_string(), "m".to_string());
    assert_eq!(a.display(), "y");
    let d = JsImport::default_import("React".to_string(), "react".to_string());
    assert_eq!(d.display(), "React");
}

#[test]
fn imports_merge_by_module() {
    let imports = vec![
        JsImport::named("useState".to_string(), "react".to_string()),
        JsImport::default_import("React".to_string(), "react".to_string()),
        JsImport::aliased("join".to_string(), "pathJoin".to_string(), "path".to_string()),
        JsImport::named("useEffect".to_string(), "react".to_string()),
        JsImport::default_import("Preact".to_string(), "react".to_string()),
    ];
    let merged = merge_imports(&imports);
    assert_eq!(merged.by_module.len(), 2);
    assert_eq!(merged.by_module[0].0, "react");
    assert_eq!(
        merged.by_module[0].1,
        vec![("useState".to_string(), None), ("useEffect".to_string(), None)]
    );
    assert_eq!(merged.by_module[1].1, vec![("join".to_string(), Some("pathJoin".to_string()))]);
    assert_eq!(merged.defaults, pairs(&[("react", "Preact")]));
    assert_eq!(
        format_imports(&merged.by_module, &merged.defaults),
        "import { useState, useEffect } from \"react\"\nimport { join as pathJoin } from \"path\"\nimport Preact from \"react\""
    );
}

#[test]
fn imports_skip_empty_groups() {
    let groups = vec![("a".to_string(), vec![]), ("b".to_string(), vec![("x".to_string(), None)])];
    assert_eq!(format_imports(&groups, &vec![]), "import { x } from \"b\"");
}

#[test]
fn markdown_helpers() {
    assert_eq!(link("Flint", "https://x.y"), "[Flint](https://x.y)");
    assert_eq!(text(&strings(&["a", "b", "c"])), "a b c");
    assert_eq!(bold("b"), "**b**");
    assert_eq!(italic("i"), "*i*");
    assert_eq!(underline("u"), "<u>u</u>");
    assert_eq!(heading(3, "Title"), "### Title");
    assert_eq!(heading(1, "T"), "# T");
    assert_eq!(ordered_list(&strings(&["x", "y"])), "1. x\n2. y");
    assert_eq!(unordered_list(&strings(&["x", "y"])), "- x\n- y");
    assert_eq!(code_block(Some("rust"), "fn f() {}"), "```rust\nfn f() {}\n```");
    assert_eq!(code_block(None, "x"), "```\nx\n```");
    assert_eq!(newline(), "\n");
}

#[test]
fn markdown_table() {
    let rows = vec![pairs(&[("name", "a"), ("size", "1")]), pairs(&[("size", "2"), ("kind", "k")])];
    assert_eq!(table(&rows), "name | size | kind\n--- | --- | ---\na | 1\n2 | k");
}

#[test]
fn database_urls() {
    assert_eq!(postgres_url("u", "p", "h", "5432", "db"), "postgres://u:p@h:5432/db");
    assert_eq!(mysql_url("u", "p", "h", "3306", "db"), "mysql://u:p@h:3306/db");
    assert_eq!(sqlite_url("data.db"), "sqlite://data.db");
}

#[test]
fn sql_kinds_round_trip() {
    let all = SqlValueKind::all();
    assert_eq!(all.len(), 15);
    for k in all {
        assert_eq!(SqlValueKind::parse(k.name()), Some(k));
    }
    assert_eq!(SqlValueKind::Double.name(), "bouble");
    assert_eq!(SqlValueKind::parse("double"), None);
}

#[test]
fn env_references() {
    assert_eq!(var_name("env:HOME"), Ok("HOME".to_string()));
    assert_eq!(var_name("HOME"), Err("Invalid format".to_string()));
    assert_eq!(var_name("a:b:c"), Err("Invalid format".to_string()));
    assert_eq!(var_name("env:"), Ok("".to_string()));
}

#[test]
fn env_lookup_order() {
    assert_eq!(get_env_var("X", Some("1".into()), Some("2".into())).unwrap(), "1");
    assert_eq!(get_env_var("X", None, Some("2".into())).unwrap(), "2");
    match get_env_var("X", None, None) {
        Err(AppError::Application(m)) => {
            assert_eq!(m, "Could not find environment variable with the name X")
        }
        _ => panic!("expected an error"),
    }
}

#[test]
fn evaluation_output() {
    assert_eq!(get_output_type(true, true), Some(OutputType::Lint));
    assert_eq!(get_output_type(false, true), Some(OutputType::Test));
    assert_eq!(get_output_type(false, false), None);
    assert_eq!(OutputType::Lint.marker(), "__test_type_lint");
    assert_eq!(OutputType::Test.marker(), "__test_type_test");
    assert_eq!(OutputType::Test.key(), "Test");
}

#[test]
fn command_lines() {
    assert_eq!(command_line(&strings(&["git", "status"])), Ok("git status".to_string()));
    assert_eq!(command_line(&vec![]), Err("Expected a command to run".to_string()));
}

#[test]
fn file_listing() {
    let files = vec![
        FileEntry {
            relative_path: Some("src/main.rs".into()),
            extension: Some("rs".into()),
            contents: Some("fn main() {}".into()),
        },
        FileEntry { relative_path: None, extension: None, contents: None },
    ];
    assert_eq!(
        generate_markdown_from_files(&files),
        "\n**File:** `src/main.rs`\n```rs\nfn main() {}\n```\n```\n[Could not read file]\n```\n"
    );
}

#[test]
fn assistant_messages() {
    let (role, content) = message(Role::User, "hi");
    assert_eq!(role, "user");
    assert_eq!(content, "hi");
    assert_eq!(Role::Assistant.as_str(), "assistant");
    let msgs = prompt_messages(&pairs(&[("user", "code")]));
    assert_eq!(msgs.len(), 2);
    assert_eq!(msgs[0].0, "system");
    assert_eq!(msgs[0].1, SYSTEM_PROMPT);
    assert!(SYSTEM_PROMPT.starts_with("You are a helpful coding assistant."));
    assert_eq!(msgs[1], ("user".to_string(), "code".to_string()));
}

#[test]
fn screens_by_argument() {
    assert_eq!(select_screen(Some("init")), Screen::Init);
    assert_eq!(select_screen(Some("generate")), Screen::Generate);
    assert_eq!(select_screen(Some("test")), Screen::Test);
    assert_eq!(select_screen(Some("install")), Screen::Install);
    assert_eq!(select_screen(Some("other")), Screen::Help);
    assert_eq!(select_screen(None), Screen::Help);
}

#[test]
fn app_stops_on_errors() {
    let mut app = App::new();
    assert_eq!(app.screen(), Screen::Help);
    app.open(Some("generate"));
    assert_eq!(app.screen(), Screen::Generate);
    app.record(Ok(()));
    assert!(!app.should_exit());
    assert!(app.error().is_none());
    app.record(Err(AppError::Io("denied".to_string())));
    assert!(app.should_exit());
    assert_eq!(app.error().unwrap(), "IO error: denied");
}

#[test]
fn escape_asks_to_leave() {
    assert!(matches!(global_key(Key::Esc), Err(AppError::Exit)));
    assert!(global_key(Key::Enter).is_ok());
    let exit = combine_event_results(&Ok(()), &Err(AppError::Exit));
    assert!(matches!(exit, Err(AppError::Exit)));
    let other = combine_event_results(&Err(AppError::Network("x".into())), &Ok(()));
    assert!(other.is_ok());
}

#[test]
fn init_screen_answers_keys() {
    let mut w = InitWidget::new(false);
    assert_eq!(w.confirm_message(), "Would you like to continue with creating flint.toml? (y/n)");
    assert_eq!(w.handle_key(Key::Other, ""), InitAction::Input);
    assert_eq!(w.handle_key(Key::Enter, "maybe"), InitAction::Nothing);
    assert_eq!(w.handle_key(Key::Enter, "y"), InitAction::CreateConfig);
    assert!(w.created_config);
    assert_eq!(w.handle_key(Key::Other, ""), InitAction::Exit);
    let mut v = InitWidget::new(true);
    assert!(v.confirm_message().starts_with("flint.toml already exists"));
    assert_eq!(v.handle_key(Key::Enter, "n"), InitAction::Exit);
    assert!(!v.created_config);
}

#[test]
fn messages_of_the_screens() {
    assert_eq!(
        languages_title(2),
        "We found the following languages in this directory (2 unsupported)"
    );
    assert_eq!(generated_message("eslint"), "Generated eslint config successfully");
    assert_eq!(command_failure_message("jest", "not found"), "Failed to execute command 'jest': not found");
    assert_eq!(evaluation_failure_message("boom"), "Failed to evaluate plugin: boom");
}

#[test]
fn error_messages() {
    assert_eq!(AppError::Exit.message(), "User requested exit");
    assert_eq!(AppError::Application("x".into()).message(), "Application error: x");
    assert_eq!(AppError::LuaError("e".into()).message(), "Lua error: e");
    assert_eq!(AppError::Env("v".into()).message(), "Environment error: v");
    assert_eq!(AppError::Network("n".into()).message(), "Network error: n");
    assert_eq!(AppError::Deserialization("d".into()).message(), "Deserialization error: d");
    assert_eq!(AppError::Serialization("s".into()).message(), "Serialization error: s");
    assert!(AppError::Exit.is_exit());
    assert!(!AppError::Io("i".into()).is_exit());
}

#[test]
fn csv_text_becomes_rows_keyed_by_header() {
    let rows = read_table(b"name,age\nann,3\nbo,4\n").ok().unwrap();
    assert_eq!(rows.len(), 2);
    assert_eq!(rows[0], vec![("name".to_string(), "ann".to_string()), ("age".to_string(), "3".to_string())]);
    assert_eq!(rows[1][0], ("name".to_string(), "bo".to_string()));
    assert_eq!(rows[1][1], ("age".to_string(), "4".to_string()));
    assert!(matches!(read_table(b"a,b\n1,2,3\n"), Err(CsvFailure::Record(_))));
    assert_eq!(read_table(b"a,b\n").ok().unwrap().len(), 0);
}

#[test]
fn rows_pair_each_field_with_its_header() {
    let headers = vec!["x".to_string(), "y".to_string()];
    let records = vec![vec!["1".to_string(), "2".to_string()]];
    let rows = csv_rows(&headers, &records);
    assert_eq!(rows, vec![vec![("x".to_string(), "1".to_string()), ("y".to_string(), "2".to_string())]]);
}
