use task_expander::args::{join_args, join_with, quote_word};
use task_expander::clock::{decimal_text, parse_index_text};
use task_expander::env_glob::{collect_matching, glob_to_expression};
use task_expander::env_substitute::substitute_env_var;
use task_expander::errors::FileGroupError;
use task_expander::file_group::{common_length, parent_of};
use task_expander::functions::metadata_value;
use task_expander::model::{
    find_entry, find_group, Entry, FileGroup, HostSnapshot, InputPath, OutputPath, PathKind, Target,
};
use task_expander::moon_config::MoonConfig;
use task_expander::paths::{render_outside, to_slashed};
use task_expander::patterns::{
    find_function, find_variable, is_function_alone, match_env_reference_at, match_function_at,
    scan_run, CharClass,
};
use task_expander::scope::{function_by_name, is_allowed_in, TokenFunction, TokenScope};
use task_expander::text::{contains_char, replace_all, same_text, slice_of, starts_at};

fn s(text: &str) -> String {
    text.to_string()
}

fn list(items: &[&str]) -> Vec<String> {
    items.iter().map(|i| i.to_string()).collect()
}

#[test]
fn scope_labels() {
    assert_eq!(TokenScope::Command.label(), "commands");
    assert_eq!(TokenScope::Script.label(), "scripts");
    assert_eq!(TokenScope::Args.label(), "args");
    assert_eq!(TokenScope::Env.label(), "env");
    assert_eq!(TokenScope::Inputs.label(), "inputs");
    assert_eq!(TokenScope::Outputs.label(), "outputs");
}

#[test]
fn scope_table() {
    let scopes = [
        TokenScope::Command,
        TokenScope::Script,
        TokenScope::Args,
        TokenScope::Env,
        TokenScope::Inputs,
        TokenScope::Outputs,
    ];
    let table = [
        ("root", [false, true, true, true, true, true]),
        ("dirs", [false, true, true, true, true, true]),
        ("files", [false, true, true, true, true, true]),
        ("globs", [false, true, true, true, true, true]),
        ("group", [false, true, true, true, true, true]),
        ("in", [false, true, true, false, false, false]),
        ("out", [false, true, true, false, false, false]),
        ("envs", [false, false, false, false, true, false]),
        ("meta", [true, true, true, true, false, false]),
    ];
    for (name, row) in table {
        let function = function_by_name(name).unwrap();
        for (scope, allowed) in scopes.iter().zip(row) {
            assert_eq!(is_allowed_in(function, *scope), allowed, "{} {:?}", name, scope);
        }
    }
    assert_eq!(function_by_name("in"), Some(TokenFunction::In));
    assert_eq!(function_by_name("IN"), None);
    assert_eq!(function_by_name(""), None);
}

#[test]
fn token_function_grammar() {
    assert_eq!(find_function("@files(group)"), Some((0, 6, 13)));
    assert_eq!(find_function("a @in(0) @out(1)"), Some((2, 5, 8)));
    assert_eq!(find_function("@(x) @A(x) @a() @a(x"), None);
    assert_eq!(find_function("@a1(x)"), None);
    assert_eq!(find_function("é@a(é)é"), Some((1, 3, 6)));
    assert_eq!(find_function("@a(b(c)d)"), Some((0, 2, 7)));
    assert_eq!(find_function("@@a(@b(c))"), Some((1, 3, 9)));
    assert_eq!(match_function_at("x@a(b)", 0), None);
    assert_eq!(match_function_at("x@a(b)", 1), Some((3, 6)));
    assert_eq!(match_function_at("x@a(b)", 9), None);
    assert!(is_function_alone("@meta(name)"));
    assert!(!is_function_alone("@meta(name) "));
    assert!(!is_function_alone(" @meta(name)"));
    assert!(!is_function_alone("@meta(a)b)"));
    assert!(!is_function_alone(""));
}

#[test]
fn token_variable_grammar() {
    assert_eq!(find_variable("$project"), Some((0, 8)));
    assert_eq!(find_variable("a$b2c-d"), Some((1, 5)));
    assert_eq!(find_variable("$1 ${X} $ $_a"), None);
    assert_eq!(find_variable("$$x"), Some((1, 3)));
    assert_eq!(find_variable(""), None);
    assert_eq!(find_variable("$"), None);
}

#[test]
fn env_reference_grammar() {
    assert_eq!(match_env_reference_at("${A_1}", 0), Some(6));
    assert_eq!(match_env_reference_at("x${A}", 1), Some(5));
    assert_eq!(match_env_reference_at("${}", 0), None);
    assert_eq!(match_env_reference_at("${a}", 0), None);
    assert_eq!(match_env_reference_at("${A", 0), None);
    assert_eq!(match_env_reference_at("$A", 0), None);
    assert_eq!(match_env_reference_at("${A}", 4), None);
}

#[test]
fn runs_of_a_class() {
    assert_eq!(scan_run("abcDef", 0, CharClass::Lower), 3);
    assert_eq!(scan_run("abcDef", 3, CharClass::Lower), 3);
    assert_eq!(scan_run("ab1_", 0, CharClass::Alnum), 3);
    assert_eq!(scan_run("ab)c", 0, CharClass::Argument), 2);
    assert_eq!(scan_run("A_1a", 0, CharClass::EnvName), 3);
    assert_eq!(scan_run("src/*.ts", 0, CharClass::Fixed), 4);
    assert_eq!(scan_run("a?b", 0, CharClass::Fixed), 1);
    assert_eq!(scan_run("a[b", 0, CharClass::Fixed), 1);
    assert_eq!(scan_run("a{b", 0, CharClass::Fixed), 1);
    assert_eq!(scan_run("ab c", 0, CharClass::Plain), 2);
    assert_eq!(scan_run("abc", 3, CharClass::Plain), 3);
}

#[test]
fn text_helpers() {
    assert_eq!(replace_all("a-b-c", "-", "+"), "a+b+c");
    assert_eq!(replace_all("aaa", "aa", "b"), "ba");
    assert_eq!(replace_all("abc", "abcd", "x"), "abc");
    assert_eq!(replace_all("xx", "x", "xx"), "xxxx");
    assert_eq!(replace_all("", "x", "y"), "");
    assert_eq!(slice_of("héllo", 1, 3), "él");
    assert!(same_text("a", "a"));
    assert!(!same_text("a", "ab"));
    assert!(!same_text("ab", "ac"));
    assert!(contains_char("a@b", '@'));
    assert!(!contains_char("ab", '@'));
    assert!(starts_at("hello", "ll", 2));
    assert!(!starts_at("hello", "ll", 3));
    assert!(!starts_at("hello", "lo!", 3));
    assert!(starts_at("hello", "", 5));
}

#[test]
fn decimal_and_index() {
    assert_eq!(decimal_text(0), "0");
    assert_eq!(decimal_text(7), "7");
    assert_eq!(decimal_text(1203), "1203");
    assert_eq!(decimal_text(u64::MAX), "18446744073709551615");
    assert_eq!(parse_index_text("0"), Some(0));
    assert_eq!(parse_index_text("007"), Some(7));
    assert_eq!(parse_index_text("+12"), Some(12));
    assert_eq!(parse_index_text("18446744073709551615"), Some(usize::MAX));
    assert_eq!(parse_index_text("18446744073709551616"), None);
    assert_eq!(parse_index_text("99999999999999999999999"), None);
    assert_eq!(parse_index_text(""), None);
    assert_eq!(parse_index_text("+"), None);
    assert_eq!(parse_index_text("-1"), None);
    assert_eq!(parse_index_text("1a"), None);
    assert_eq!(parse_index_text("++1"), None);
    assert_eq!(parse_index_text(" 1"), None);
}

#[test]
fn joining_paths() {
    let join = |base: &str, part: &str| InputPath::ProjectFile(s(part)).to_workspace_relative(base);
    assert_eq!(join("app", "assets"), Some(s("app/assets")));
    assert_eq!(join("app/", "assets"), Some(s("app/assets")));
    assert_eq!(join("app", "/assets"), Some(s("app/assets")));
    assert_eq!(join("", "assets"), Some(s("assets")));
    assert_eq!(join("app", ""), Some(s("app/")));
    assert_eq!(join("app", "//x"), Some(s("app//x")));
    assert_eq!(to_slashed("a\\b/c\\"), "a/b/c/");
    assert_eq!(render_outside("C:\\ws\\x", None), "C:/ws/x");
    assert_eq!(render_outside("/ws/x", Some(s("..\\x"))), "../x");
}

#[test]
fn shell_joining() {
    assert_eq!(join_args(&list(&["a", "b c", ""])), "a 'b c' ''");
    assert_eq!(join_args(&list(&[])), "");
    assert_eq!(join_args(&list(&["./**/*.rs"])), "./**/*.rs");
    assert_eq!(quote_word("it's"), "'it'\\''s'");
    assert_eq!(quote_word("a\"b"), "'a\"b'");
    assert_eq!(quote_word("a\\b"), "'a\\b'");
    assert_eq!(quote_word("a\tb"), "'a\tb'");
    assert_eq!(quote_word("a\nb"), "'a\nb'");
    assert_eq!(quote_word("$x*?"), "$x*?");
    assert_eq!(join_with(&list(&["a", "b", "c"]), ","), "a,b,c");
    assert_eq!(join_with(&list(&["a"]), ","), "a");
    assert_eq!(join_with(&list(&[]), ","), "");
}

#[test]
fn env_patterns() {
    assert_eq!(glob_to_expression("NODE_*"), "^NODE_[A-Z0-9_]+$");
    assert_eq!(glob_to_expression("*_*"), "^[A-Z0-9_]+_[A-Z0-9_]+$");
    let names = list(&["NODE_ENV", "XNODE_ENV", "NODE_", "NODE_a", "NODE_9"]);
    let mut found = list(&["first"]);
    assert!(collect_matching(&mut found, &names, "NODE_*"));
    assert_eq!(found, list(&["first", "NODE_ENV", "NODE_9"]));
    assert!(!collect_matching(&mut found, &names, "NODE_[*"));
    assert_eq!(found, list(&["first", "NODE_ENV", "NODE_9"]));
    assert!(collect_matching(&mut found, &names, "NODE_(ENV|a)"));
    assert_eq!(found, list(&["first", "NODE_ENV", "NODE_9", "NODE_ENV", "NODE_a"]));
}

#[test]
fn env_references() {
    let env = vec![
        Entry { key: s("A"), value: s("1") },
        Entry { key: s("B"), value: s("${A}") },
        Entry { key: s("A"), value: s("2") },
    ];
    assert_eq!(substitute_env_var("${A}-${B}-${C}-$A-${a}", &env), "1-${A}-${C}-$A-${a}");
    assert_eq!(substitute_env_var("no reference", &env), "no reference");
    assert_eq!(substitute_env_var("${A}${A}", &env), "11");
    assert_eq!(substitute_env_var("$${A}}", &env), "$1}");
    assert_eq!(find_entry(&env, "A"), Some(&s("1")));
    assert_eq!(find_entry(&env, "Z"), None);
}

#[test]
fn file_group_queries() {
    let host = HostSnapshot {
        arch: s(""),
        os: s(""),
        os_family: s(""),
        env_vars: vec![],
        now_millis: 0,
        dirs: list(&["a/dir", "a/both"]),
        files: list(&["a/file", "a/both"]),
    };
    assert_eq!(host.kind_of("a/dir"), PathKind::Directory);
    assert_eq!(host.kind_of("a/file"), PathKind::File);
    assert_eq!(host.kind_of("a/both"), PathKind::Directory);
    assert_eq!(host.kind_of("a/none"), PathKind::Missing);
    let g = FileGroup {
        id: s("g"),
        files: list(&["a/file", "a/none", "a/dir", "a/both"]),
        globs: list(&["a/**/*"]),
        env: list(&["E"]),
    };
    assert_eq!(g.files(&host, true), Ok(list(&["a/file"])));
    assert_eq!(g.dirs(&host, true), Ok(list(&["a/dir", "a/both"])));
    let missing = FileGroupError::MissingPath { group: s("g"), path: s("a/none") };
    assert_eq!(g.files(&host, false), Err(missing.clone()));
    assert_eq!(g.dirs(&host, false), Err(missing));
    assert_eq!(g.globs(), Ok(list(&["a/**/*"])));
    assert_eq!(g.env(), Ok(list(&["E"])));
    assert_eq!(g.root("src"), Ok(s("a")));
    let empty = FileGroup { id: s("e"), files: vec![], globs: vec![], env: vec![] };
    assert_eq!(empty.globs(), Err(FileGroupError::NoGlobs { group: s("e") }));
    assert_eq!(empty.env(), Err(FileGroupError::NoEnvVars { group: s("e") }));
    assert_eq!(empty.root("src"), Err(FileGroupError::NoFilesOrGlobs { group: s("e") }));
    assert_eq!(empty.files(&host, false), Ok(vec![]));
    let only_globs =
        FileGroup { id: s("o"), files: vec![], globs: list(&["x/y/*.a", "x/y/z/**"]), env: vec![] };
    assert_eq!(only_globs.root("src"), Ok(s("x/y")));
    let apart = FileGroup { id: s("p"), files: list(&["app/a", "apple/b"]), globs: vec![], env: vec![] };
    assert_eq!(apart.root("src"), Ok(s("src")));
    let groups = vec![g.clone(), empty.clone(), FileGroup { id: s("g"), ..empty.clone() }];
    assert_eq!(find_group(&groups, "g"), Some(&g));
    assert_eq!(find_group(&groups, "e"), Some(&empty));
    assert_eq!(find_group(&groups, "x"), None);
}

#[test]
fn common_start_and_parent() {
    assert_eq!(common_length("abc", "abd"), 2);
    assert_eq!(common_length("abc", "abc"), 3);
    assert_eq!(common_length("abc", "ab"), 2);
    assert_eq!(common_length("", "ab"), 0);
    assert_eq!(common_length("x", "y"), 0);
    assert_eq!(parent_of("a/b/c"), "a/b");
    assert_eq!(parent_of("a/b/"), "a/b");
    assert_eq!(parent_of("abc"), "");
    assert_eq!(parent_of("/abc"), "");
    assert_eq!(parent_of(""), "");
}

#[test]
fn paths_relative_to_the_workspace() {
    assert_eq!(InputPath::ProjectFile(s("a")).to_workspace_relative("app"), Some(s("app/a")));
    assert_eq!(InputPath::ProjectGlob(s("*.a")).to_workspace_relative("app"), Some(s("app/*.a")));
    assert_eq!(InputPath::WorkspaceFile(s("a")).to_workspace_relative("app"), Some(s("a")));
    assert_eq!(InputPath::WorkspaceGlob(s("*.a")).to_workspace_relative("app"), Some(s("*.a")));
    assert_eq!(InputPath::EnvVar(s("A")).to_workspace_relative("app"), None);
    assert_eq!(InputPath::EnvVarGlob(s("A*")).to_workspace_relative("app"), None);
    assert_eq!(InputPath::TokenFunc(s("@in(0)")).to_workspace_relative("app"), None);
    assert_eq!(InputPath::TokenVar(s("$a")).to_workspace_relative("app"), None);
    assert_eq!(OutputPath::ProjectFile(s("a")).to_workspace_relative("app"), Some(s("app/a")));
    assert_eq!(OutputPath::WorkspaceGlob(s("*.a")).to_workspace_relative("app"), Some(s("*.a")));
    assert_eq!(OutputPath::TokenFunc(s("@in(0)")).to_workspace_relative("app"), None);
    assert_eq!(OutputPath::TokenVar(s("$a")).to_workspace_relative("app"), None);
    assert!(OutputPath::ProjectGlob(s("a")).is_glob());
    assert!(OutputPath::WorkspaceGlob(s("a")).is_glob());
    assert!(!OutputPath::ProjectFile(s("a")).is_glob());
    assert!(!OutputPath::WorkspaceFile(s("a")).is_glob());
    assert!(!OutputPath::TokenFunc(s("a")).is_glob());
    assert!(!OutputPath::TokenVar(s("a")).is_glob());
}

#[test]
fn target_text() {
    let t = Target { project_id: s("app"), task_id: s("build") };
    assert_eq!(t.text(), "app:build");
}

#[test]
fn metadata_without_a_record() {
    assert_eq!(metadata_value(&None, "name"), None);
    assert_eq!(metadata_value(&None, "anything"), None);
}

#[test]
fn update_urls_by_default() {
    let config = MoonConfig::default();
    assert_eq!(config.manifest_url, "https://launch.moonrepo.app/versions/cli/current");
    assert_eq!(config.download_url, "https://github.com/moonrepo/moon/releases/latest/download");
}
