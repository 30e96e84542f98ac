use task_expander::errors::{FileGroupError, TokenExpanderError};
use task_expander::expanded::ExpandedResult;
use task_expander::model::{
    Entry, ExpansionContext, FileGroup, HostSnapshot, InputPath, OutputPath, Project,
    ProjectMetadata, Target, Task, TaskOptions,
};
use task_expander::scope::TokenScope;
use task_expander::token_expander::TokenExpander;

fn s(text: &str) -> String {
    text.to_string()
}

fn list(items: &[&str]) -> Vec<String> {
    items.iter().map(|i| i.to_string()).collect()
}

fn group(id: &str, files: &[&str], globs: &[&str], env: &[&str]) -> FileGroup {
    FileGroup { id: s(id), files: list(files), globs: list(globs), env: list(env) }
}

fn project(source: &str, groups: Vec<FileGroup>) -> Project {
    Project {
        id: s("app"),
        source: s(source),
        root: format!("/ws/{}", source),
        alias: None,
        language: s("typescript"),
        stack: s("frontend"),
        type_of: s("application"),
        metadata: None,
        file_groups: groups,
    }
}

fn task() -> Task {
    Task {
        target: Target { project_id: s("app"), task_id: s("build") },
        id: s("build"),
        command: s("build"),
        script: None,
        args: vec![],
        env: vec![],
        inputs: vec![],
        outputs: vec![],
        options: TaskOptions { run_from_workspace_root: false, allow_failure: false },
        platform: s("node"),
        type_of: s("build"),
    }
}

fn context() -> ExpansionContext {
    ExpansionContext {
        workspace_root: s("/ws"),
        working_dir: s("/ws/app"),
        vcs_branch: s("main"),
        vcs_repository: s("org/repo"),
        vcs_revision: s("abc123"),
    }
}

fn host() -> HostSnapshot {
    HostSnapshot {
        arch: s("x86_64"),
        os: s("linux"),
        os_family: s("unix"),
        env_vars: list(&["NODE_ENV", "PATH", "NODE_", "NODE_OPTIONS", "node_lower"]),
        now_millis: 1_431_648_000_999,
        dirs: vec![],
        files: vec![],
    }
}

fn host_with(dirs: &[&str], files: &[&str]) -> HostSnapshot {
    HostSnapshot { dirs: list(dirs), files: list(files), ..host() }
}

fn entry(key: &str, value: &str) -> Entry {
    Entry { key: s(key), value: s(value) }
}

fn scope_error(token: &str, scope: &str) -> TokenExpanderError {
    TokenExpanderError::InvalidTokenScope { target: s("app:build"), token: s(token), scope: s(scope) }
}

#[test]
fn command_replaces_project_and_task() {
    let p = project("app", vec![]);
    let c = context();
    let mut e = TokenExpander::new(&p, &c, host());
    let mut t = task();
    t.command = s("$project:$task");
    assert_eq!(e.expand_command(&t), Ok(s("app:build")));
    assert_eq!(e.scope, TokenScope::Command);
}

#[test]
fn new_expander_starts_in_args_scope() {
    let p = project("app", vec![]);
    let c = context();
    let e = TokenExpander::new(&p, &c, host());
    assert_eq!(e.scope, TokenScope::Args);
    assert_eq!(e.host.os, "linux");
}

#[test]
fn script_splices_files_of_a_group() {
    let p = project("app", vec![group("g", &["app/src/a.ts", "app/src/b.ts"], &[], &[])]);
    let c = context();
    let mut e = TokenExpander::new(&p, &c, host_with(&[], &["app/src/a.ts", "app/src/b.ts"]));
    let mut t = task();
    t.script = Some(s("tsc @files(g)"));
    assert_eq!(e.expand_script(&t), Ok(s("tsc ./src/a.ts ./src/b.ts")));
    assert_eq!(e.scope, TokenScope::Script);
}

#[test]
fn script_replaces_every_occurrence_of_the_token() {
    let p = project("app", vec![group("g", &[], &["app/**/*.ts"], &[])]);
    let c = context();
    let mut e = TokenExpander::new(&p, &c, host());
    let mut t = task();
    t.script = Some(s("a @globs(g) b @globs(g) $task ${X}"));
    t.env = vec![entry("X", "y")];
    assert_eq!(e.expand_script(&t), Ok(s("a ./**/*.ts b ./**/*.ts build y")));
}

#[test]
fn script_without_tokens_is_unchanged() {
    let p = project("app", vec![]);
    let c = context();
    let mut e = TokenExpander::new(&p, &c, host());
    let mut t = task();
    t.script = Some(s("echo hello > out.txt"));
    assert_eq!(e.expand_script(&t), Ok(s("echo hello > out.txt")));
}

#[test]
fn script_quotes_items_with_blanks() {
    let p = project("app", vec![group("g", &["app/my file.ts", "app/it's.ts"], &[], &[])]);
    let c = context();
    let mut e =
        TokenExpander::new(&p, &c, host_with(&[], &["app/my file.ts", "app/it's.ts"]));
    let mut t = task();
    t.script = Some(s("cat @files(g)"));
    assert_eq!(e.expand_script(&t), Ok(s("cat './my file.ts' './it'\\''s.ts'")));
}

#[test]
fn args_emit_one_argument_per_glob() {
    let p = project("lib", vec![group("g", &[], &["lib/**/*.js", "lib/**/*.map"], &[])]);
    let c = context();
    let mut e = TokenExpander::new(&p, &c, host());
    let mut t = task();
    t.args = list(&["--out", "@globs(g)"]);
    assert_eq!(e.expand_args(&t), Ok(list(&["--out", "./**/*.js", "./**/*.map"])));
    t.options.run_from_workspace_root = true;
    assert_eq!(e.expand_args(&t), Ok(list(&["--out", "./lib/**/*.js", "./lib/**/*.map"])));
    assert_eq!(e.scope, TokenScope::Args);
}

#[test]
fn args_keep_the_order_of_the_arguments() {
    let p = project(
        "app",
        vec![
            group("one", &["app/a", "app/b"], &["app/*.x"], &[]),
            group("two", &["app/c"], &[], &[]),
        ],
    );
    let c = context();
    let mut e = TokenExpander::new(&p, &c, host());
    let mut t = task();
    t.args = list(&["first", "@group(one)", "$task", "@group(two)", "last"]);
    assert_eq!(
        e.expand_args(&t),
        Ok(list(&["first", "./a", "./b", "./*.x", "build", "./c", "last"]))
    );
}

#[test]
fn args_with_other_base_args() {
    let p = project("app", vec![]);
    let c = context();
    let mut e = TokenExpander::new(&p, &c, host());
    let mut t = task();
    t.args = list(&["ignored"]);
    t.env = vec![entry("MODE", "fast")];
    let base = list(&["--mode=${MODE}", "$projectSource", "${OTHER}"]);
    assert_eq!(
        e.expand_args_with_task(&t, &base),
        Ok(list(&["--mode=fast", "app", "${OTHER}"]))
    );
}

#[test]
fn args_function_with_other_text_is_not_expanded() {
    let p = project("app", vec![group("g", &["app/a"], &[], &[])]);
    let c = context();
    let mut e = TokenExpander::new(&p, &c, host_with(&[], &["app/a"]));
    let mut t = task();
    t.args = list(&["--in=@files(g)"]);
    assert_eq!(e.expand_args(&t), Ok(list(&["--in=@files(g)"])));
    assert!(!e.has_token_function("--in=@files(g)"));
    assert!(e.has_token_function("@files(g)"));
    e.scope = TokenScope::Script;
    assert!(e.has_token_function("--in=@files(g)"));
}

#[test]
fn env_joins_files_with_commas() {
    let p = project("app", vec![group("g", &["app/a.ts", "app/b.ts"], &["app/*.json"], &[])]);
    let c = context();
    let mut e = TokenExpander::new(&p, &c, host_with(&[], &["app/a.ts", "app/b.ts"]));
    let mut t = task();
    t.env = vec![entry("FILES", "@files(g)"), entry("ALL", "@group(g)")];
    assert_eq!(
        e.expand_env(&t),
        Ok(vec![entry("FILES", "./a.ts,./b.ts"), entry("ALL", "./a.ts,./b.ts,./*.json")])
    );
    assert_eq!(e.scope, TokenScope::Env);
}

#[test]
fn env_replaces_variables_but_not_references() {
    let p = project("app", vec![]);
    let c = context();
    let mut e = TokenExpander::new(&p, &c, host());
    let mut t = task();
    t.env = vec![entry("A", "$project-${B}"), entry("B", "plain"), entry("C", "${A}")];
    assert_eq!(
        e.expand_env(&t),
        Ok(vec![entry("A", "app-${B}"), entry("B", "plain"), entry("C", "${A}")])
    );
    let base = vec![entry("X", "$vcsBranch")];
    assert_eq!(e.expand_env_with_task(&t, &base), Ok(vec![entry("X", "main")]));
}

#[test]
fn inputs_turn_a_directory_into_a_glob() {
    let p = project("app", vec![]);
    let c = context();
    let mut e = TokenExpander::new(&p, &c, host_with(&["app/assets"], &[]));
    let mut t = task();
    t.inputs = vec![InputPath::ProjectFile(s("assets"))];
    let r = e.expand_inputs(&t).unwrap();
    assert_eq!(r.globs, list(&["app/assets/**/*"]));
    assert_eq!(r.files, Vec::<String>::new());
    assert_eq!(e.scope, TokenScope::Inputs);
}

#[test]
fn inputs_keep_a_file_that_is_no_directory() {
    let p = project("app", vec![]);
    let c = context();
    let mut e = TokenExpander::new(&p, &c, host_with(&["app/other"], &["app/assets"]));
    let mut t = task();
    t.inputs = vec![
        InputPath::ProjectFile(s("assets")),
        InputPath::ProjectFile(s("missing")),
        InputPath::WorkspaceFile(s("app/other")),
    ];
    let r = e.expand_inputs(&t).unwrap();
    assert_eq!(r.files, list(&["app/assets", "app/missing"]));
    assert_eq!(r.globs, list(&["app/other/**/*"]));
}

#[test]
fn inputs_of_every_kind() {
    let p = project("app", vec![group("g", &["app/f"], &["app/*.g"], &["GROUP_VAR"])]);
    let c = context();
    let mut e = TokenExpander::new(&p, &c, host());
    let mut t = task();
    t.env = vec![entry("DIR", "deep")];
    t.inputs = vec![
        InputPath::EnvVar(s("HOME")),
        InputPath::EnvVarGlob(s("NODE_*")),
        InputPath::ProjectGlob(s("src/**/*")),
        InputPath::WorkspaceGlob(s("shared/${DIR}/*.$taskPlatform")),
        InputPath::TokenVar(s("$projectType")),
        InputPath::TokenFunc(s("@group(g)")),
    ];
    let r = e.expand_inputs(&t).unwrap();
    assert_eq!(
        r,
        ExpandedResult {
            env: list(&["HOME", "NODE_ENV", "NODE_OPTIONS", "GROUP_VAR"]),
            files: list(&["app/application", "app/f"]),
            globs: list(&["app/src/**/*", "shared/deep/*.node", "app/*.g"]),
            token: None,
            value: None,
        }
    );
}

#[test]
fn inputs_with_a_pattern_that_is_no_expression() {
    let p = project("app", vec![]);
    let c = context();
    let mut e = TokenExpander::new(&p, &c, host());
    e.scope = TokenScope::Command;
    let mut t = task();
    t.inputs = vec![InputPath::EnvVar(s("A")), InputPath::EnvVarGlob(s("NODE_(*"))];
    assert_eq!(e.try_expand_inputs(&t), None);
    assert_eq!(e.scope, TokenScope::Command);
    t.inputs = vec![InputPath::EnvVar(s("A")), InputPath::EnvVarGlob(s("*_ENV"))];
    let r = e.try_expand_inputs(&t).unwrap().unwrap();
    assert_eq!(r.env, list(&["A", "NODE_ENV"]));
    assert_eq!(e.scope, TokenScope::Inputs);
}

#[test]
fn inputs_envs_function_gives_the_names_of_a_group() {
    let p = project("app", vec![group("g", &[], &[], &["A", "B"])]);
    let c = context();
    let mut e = TokenExpander::new(&p, &c, host());
    let mut t = task();
    t.inputs = vec![InputPath::TokenFunc(s("@envs(g)"))];
    let r = e.expand_inputs(&t).unwrap();
    assert_eq!(r.env, list(&["A", "B"]));
}

#[test]
fn outputs_go_by_how_they_were_declared() {
    let p = project("app", vec![group("g", &["app/gone", "app/dir"], &["app/*.o"], &[])]);
    let c = context();
    let mut e = TokenExpander::new(&p, &c, host_with(&["app/dir", "app/build"], &[]));
    let mut t = task();
    t.outputs = vec![
        OutputPath::ProjectFile(s("build")),
        OutputPath::ProjectGlob(s("dist/**/*")),
        OutputPath::WorkspaceFile(s("shared/out")),
        OutputPath::WorkspaceGlob(s("cache/$project/*")),
        OutputPath::TokenVar(s("$task")),
        OutputPath::TokenFunc(s("@dirs(g)")),
        OutputPath::TokenFunc(s("@globs(g)")),
    ];
    let r = e.expand_outputs(&t).unwrap();
    assert_eq!(r.files, list(&["app/build", "shared/out", "app/build", "app/dir"]));
    assert_eq!(r.globs, list(&["app/dist/**/*", "cache/app/*", "app/*.o"]));
    assert_eq!(r.env, Vec::<String>::new());
    assert_eq!(e.scope, TokenScope::Outputs);
}

#[test]
fn script_follows_in_to_a_glob() {
    let p = project("crates/x", vec![]);
    let c = context();
    let mut e = TokenExpander::new(&p, &c, host());
    let mut t = task();
    t.inputs = vec![InputPath::ProjectGlob(s("**/*.rs"))];
    t.script = Some(s("rustfmt @in(0)"));
    assert_eq!(e.expand_script(&t), Ok(s("rustfmt ./**/*.rs")));
}

#[test]
fn script_follows_out_through_a_token_function() {
    let p = project("app", vec![group("g", &["app/a"], &["app/b/*"], &["E"])]);
    let c = context();
    let mut e = TokenExpander::new(&p, &c, host());
    let mut t = task();
    t.inputs = vec![InputPath::TokenFunc(s("@group(g)")), InputPath::WorkspaceFile(s("x/y"))];
    t.outputs = vec![OutputPath::TokenFunc(s("@in(0)")), OutputPath::ProjectFile(s("out"))];
    t.options.run_from_workspace_root = true;
    t.script = Some(s("run @out(0) @out(1) @in(1)"));
    assert_eq!(e.expand_script(&t), Ok(s("run ./app/a ./app/b/* ./app/out ./x/y")));
}

#[test]
fn unknown_variable_is_left_intact() {
    let p = project("app", vec![]);
    let c = context();
    let mut e = TokenExpander::new(&p, &c, host());
    let mut t = task();
    t.args = list(&["--flag=$unknown"]);
    assert_eq!(e.expand_args(&t), Ok(list(&["--flag=$unknown"])));
    assert_eq!(e.replace_variables(&t, "$unknown $project"), "$unknown $project");
    assert_eq!(e.replace_variable(&t, "no variable"), "no variable");
}

#[test]
fn meta_reads_the_metadata() {
    let mut p = project("app", vec![]);
    p.metadata = Some(ProjectMetadata {
        name: Some(s("App")),
        description: s(""),
        channel: None,
        owner: Some(s("team")),
        maintainers: list(&["ann", "bob"]),
        custom: vec![entry("customKey", "custom value")],
    });
    let c = context();
    let mut e = TokenExpander::new(&p, &c, host());
    let mut t = task();
    e.scope = TokenScope::Script;
    let r = e.replace_function(&t, "@meta(description)").unwrap();
    assert_eq!(r.value, None);
    assert_eq!(r.token, Some(s("@meta(description)")));
    assert_eq!(e.replace_function(&t, "@meta(customKey)").unwrap().value, Some(s("custom value")));
    assert_eq!(e.replace_function(&t, "@meta(name)").unwrap().value, Some(s("App")));
    assert_eq!(e.replace_function(&t, "@meta(owner)").unwrap().value, Some(s("team")));
    assert_eq!(e.replace_function(&t, "@meta(channel)").unwrap().value, None);
    assert_eq!(e.replace_function(&t, "@meta(maintainers)").unwrap().value, Some(s("ann,bob")));
    assert_eq!(e.replace_function(&t, "@meta(other)").unwrap().value, None);
    t.script = Some(s("echo @meta(description) @meta(customKey)"));
    assert_eq!(e.expand_script(&t), Ok(s("echo  'custom value'")));
    t.command = s("@meta(name)");
    assert_eq!(e.expand_command(&t), Ok(s("App")));
    t.command = s("@meta(description)");
    assert_eq!(e.expand_command(&t), Ok(s("@meta(description)")));
    t.args = list(&["@meta(owner)", "@meta(channel)"]);
    assert_eq!(e.expand_args(&t), Ok(list(&["team"])));
}

#[test]
fn meta_without_metadata_is_absent() {
    let p = project("app", vec![]);
    let c = context();
    let e = TokenExpander::new(&p, &c, host());
    let t = task();
    assert_eq!(e.replace_function(&t, "@meta(name)").unwrap().value, None);
    assert_eq!(e.replace_variables(&t, "[$projectName|$projectOwner|$projectChannel|$projectAlias]"), "[|||]");
}

#[test]
fn every_variable_has_its_value() {
    let mut p = project("app", vec![]);
    p.alias = Some(s("@scope/app"));
    p.metadata = Some(ProjectMetadata {
        name: Some(s("App")),
        description: s("d"),
        channel: Some(s("#app")),
        owner: Some(s("team")),
        maintainers: vec![],
        custom: vec![],
    });
    let c = context();
    let e = TokenExpander::new(&p, &c, host());
    let t = task();
    let cases = [
        ("$arch", "x86_64"),
        ("$os", "linux"),
        ("$osFamily", "unix"),
        ("$workingDir", "/ws/app"),
        ("$workspaceRoot", "/ws"),
        ("$language", "typescript"),
        ("$project", "app"),
        ("$projectAlias", "@scope/app"),
        ("$projectChannel", "#app"),
        ("$projectName", "App"),
        ("$projectOwner", "team"),
        ("$projectRoot", "/ws/app"),
        ("$projectSource", "app"),
        ("$projectStack", "frontend"),
        ("$projectType", "application"),
        ("$target", "app:build"),
        ("$task", "build"),
        ("$taskPlatform", "node"),
        ("$taskType", "build"),
        ("$date", "2015-05-15"),
        ("$datetime", "2015-05-15_00:00:00"),
        ("$time", "00:00:00"),
        ("$timestamp", "1431648000"),
        ("$vcsBranch", "main"),
        ("$vcsRepository", "org/repo"),
        ("$vcsRevision", "abc123"),
    ];
    for (token, value) in cases {
        assert_eq!(e.replace_variable(&t, token), value, "{}", token);
        assert_eq!(e.variable_value(&t, &token[1..]), Some(s(value)));
    }
    assert_eq!(e.variable_value(&t, "nothing"), None);
    assert_eq!(e.replace_variable(&t, "a $task b $task"), "a build b $task");
    assert_eq!(e.replace_variables(&t, "a $task b $task"), "a build b build");
    assert!(e.has_token_variable("a $task"));
    assert!(!e.has_token_variable("a $1 ${X} $"));
}

#[test]
fn variables_inside_values_are_replaced_too() {
    let mut p = project("app", vec![]);
    p.alias = Some(s("$project-$language"));
    let c = context();
    let e = TokenExpander::new(&p, &c, host());
    let t = task();
    assert_eq!(e.replace_variables(&t, "<$projectAlias>"), "<app-typescript>");
    assert_eq!(e.replace_variable(&t, "<$projectAlias>"), "<$project-$language>");
}

#[test]
fn a_variable_that_stands_for_itself_ends_the_passes() {
    let mut p = project("app", vec![]);
    p.id = s("$project");
    p.alias = Some(s("x$projectAlias"));
    let c = context();
    let e = TokenExpander::new(&p, &c, host());
    let t = task();
    assert_eq!(e.replace_variables(&t, "$project"), "$project");
    let grown = e.replace_variables(&t, "$projectAlias");
    assert_eq!(grown.len(), 4096 + "$projectAlias".len());
    assert!(grown.ends_with("x$projectAlias"));
}

#[test]
fn the_clock_beyond_what_can_be_written_leaves_the_variable() {
    let p = project("app", vec![]);
    let c = context();
    let mut h = host();
    h.now_millis = u64::MAX;
    let e = TokenExpander::new(&p, &c, h);
    let t = task();
    assert_eq!(e.replace_variable(&t, "$date"), "$date");
    assert_eq!(e.replace_variable(&t, "$timestamp"), "18446744073709551");
}

#[test]
fn in_is_not_allowed_in_env() {
    let p = project("app", vec![]);
    let c = context();
    let mut e = TokenExpander::new(&p, &c, host());
    let mut t = task();
    t.inputs = vec![InputPath::ProjectFile(s("a"))];
    t.env = vec![entry("A", "@in(0)")];
    assert_eq!(e.expand_env(&t), Err(scope_error("@in(0)", "env")));
}

#[test]
fn envs_is_not_allowed_in_args() {
    let p = project("app", vec![group("g", &[], &[], &["A"])]);
    let c = context();
    let mut e = TokenExpander::new(&p, &c, host());
    let mut t = task();
    t.args = list(&["ok", "@envs(g)", "@unknown(x)"]);
    assert_eq!(e.expand_args(&t), Err(scope_error("@envs(g)", "args")));
}

#[test]
fn scope_errors_name_the_scope() {
    let p = project("app", vec![group("g", &["app/a"], &[], &[])]);
    let c = context();
    let mut e = TokenExpander::new(&p, &c, host());
    let mut t = task();
    t.command = s("@files(g)");
    assert_eq!(e.expand_command(&t), Err(scope_error("@files(g)", "commands")));
    t.command = s("@files(nothing)");
    assert_eq!(e.expand_command(&t), Err(scope_error("@files(nothing)", "commands")));
    t.inputs = vec![InputPath::TokenFunc(s("@meta(name)"))];
    assert_eq!(e.expand_inputs(&t), Err(scope_error("@meta(name)", "inputs")));
    t.outputs = vec![OutputPath::TokenFunc(s("@out(0)"))];
    assert_eq!(e.expand_outputs(&t), Err(scope_error("@out(0)", "outputs")));
    t.script = Some(s("x @envs(g)"));
    assert_eq!(e.expand_script(&t), Err(scope_error("@envs(g)", "scripts")));
}

#[test]
fn unknown_token_and_group() {
    let p = project("app", vec![group("g", &[], &[], &[])]);
    let c = context();
    let mut e = TokenExpander::new(&p, &c, host());
    let mut t = task();
    t.args = list(&["@nothing(g)"]);
    assert_eq!(
        e.expand_args(&t),
        Err(TokenExpanderError::UnknownToken { token: s("@nothing(g)") })
    );
    assert_eq!(
        e.replace_function(&t, "no function here"),
        Err(TokenExpanderError::UnknownToken { token: s("no function here") })
    );
    t.args = list(&["@files(other)"]);
    assert_eq!(
        e.expand_args(&t),
        Err(TokenExpanderError::UnknownFileGroup { group: s("other"), token: s("@files(other)") })
    );
}

#[test]
fn index_errors() {
    let p = project("app", vec![]);
    let c = context();
    let mut e = TokenExpander::new(&p, &c, host());
    let mut t = task();
    t.inputs = vec![InputPath::EnvVar(s("A")), InputPath::TokenVar(s("$task"))];
    t.outputs = vec![OutputPath::TokenVar(s("$task"))];
    let target = s("app:build");
    t.args = list(&["@in(2)"]);
    assert_eq!(
        e.expand_args(&t),
        Err(TokenExpanderError::MissingInIndex { index: 2, target: target.clone(), token: s("@in(2)") })
    );
    t.args = list(&["@out(1)"]);
    assert_eq!(
        e.expand_args(&t),
        Err(TokenExpanderError::MissingOutIndex { index: 1, target: target.clone(), token: s("@out(1)") })
    );
    t.args = list(&["@in(one)"]);
    assert_eq!(
        e.expand_args(&t),
        Err(TokenExpanderError::InvalidTokenIndex {
            target: target.clone(),
            token: s("@in(one)"),
            index: s("one")
        })
    );
    t.args = list(&["@out(-1)"]);
    assert_eq!(
        e.expand_args(&t),
        Err(TokenExpanderError::InvalidTokenIndex {
            target: target.clone(),
            token: s("@out(-1)"),
            index: s("-1")
        })
    );
    for (arg, token) in [("@in(0)", "@in(0)"), ("@in(1)", "@in(1)"), ("@out(0)", "@out(0)")] {
        t.args = list(&[arg]);
        assert_eq!(
            e.expand_args(&t),
            Err(TokenExpanderError::InvalidTokenIndexReference {
                target: target.clone(),
                token: s(token)
            })
        );
    }
}

#[test]
fn a_chain_of_functions_that_never_ends_is_an_error() {
    let p = project("app", vec![]);
    let c = context();
    let mut e = TokenExpander::new(&p, &c, host());
    let mut t = task();
    t.inputs = vec![InputPath::TokenFunc(s("@in(0)"))];
    t.args = list(&["@in(0)"]);
    assert_eq!(
        e.expand_args(&t),
        Err(TokenExpanderError::InvalidTokenIndexReference { target: s("app:build"), token: s("@in(0)") })
    );
}

#[test]
fn a_chain_of_functions_within_the_depth_is_followed() {
    let p = project("app", vec![]);
    let c = context();
    let mut e = TokenExpander::new(&p, &c, host());
    let mut t = task();
    t.inputs = vec![
        InputPath::TokenFunc(s("@in(1)")),
        InputPath::TokenFunc(s("@in(2)")),
        InputPath::TokenFunc(s("@in(3)")),
        InputPath::TokenFunc(s("@in(+4)")),
        InputPath::ProjectFile(s("end")),
    ];
    t.args = list(&["@in(0)"]);
    assert_eq!(e.expand_args(&t), Ok(list(&["./end"])));
}

#[test]
fn file_group_errors_come_through() {
    let p = project(
        "app",
        vec![group("empty", &[], &[], &[]), group("g", &["app/here", "app/gone"], &[], &[])],
    );
    let c = context();
    let mut e = TokenExpander::new(&p, &c, host_with(&[], &["app/here"]));
    let mut t = task();
    let cases = [
        ("@root(empty)", FileGroupError::NoFilesOrGlobs { group: s("empty") }),
        ("@globs(empty)", FileGroupError::NoGlobs { group: s("empty") }),
        ("@files(g)", FileGroupError::MissingPath { group: s("g"), path: s("app/gone") }),
        ("@dirs(g)", FileGroupError::MissingPath { group: s("g"), path: s("app/gone") }),
    ];
    for (arg, error) in cases {
        t.args = list(&[arg]);
        assert_eq!(e.expand_args(&t), Err(TokenExpanderError::FileGroup(error)));
    }
    t.inputs = vec![InputPath::TokenFunc(s("@envs(g)"))];
    assert_eq!(
        e.expand_inputs(&t),
        Err(TokenExpanderError::FileGroup(FileGroupError::NoEnvVars { group: s("g") }))
    );
    t.outputs = vec![OutputPath::TokenFunc(s("@files(g)"))];
    assert_eq!(e.expand_outputs(&t).unwrap().files, list(&["app/here"]));
}

#[test]
fn root_of_a_group() {
    let p = project(
        "app",
        vec![
            group("near", &["app/src/a.ts", "app/src/ab.ts"], &["app/src/**/*.ts"], &[]),
            group("far", &["app/a.ts", "lib/b.ts"], &[], &[]),
        ],
    );
    let c = context();
    let mut e = TokenExpander::new(&p, &c, host());
    let mut t = task();
    t.args = list(&["@root(near)", "@root(far)"]);
    assert_eq!(e.expand_args(&t), Ok(list(&["./src", "./"])));
}

#[test]
fn a_path_outside_the_project_is_written_from_the_project() {
    let p = project("app", vec![group("g", &[], &["lib/*.ts", "application/x"], &[])]);
    let c = context();
    let e = TokenExpander::new(&p, &c, host());
    let mut t = task();
    assert_eq!(e.resolve_path_for_task(&t, "lib/x.ts"), "../lib/x.ts");
    assert_eq!(e.resolve_path_for_task(&t, "app/x.ts"), "./x.ts");
    assert_eq!(e.resolve_path_for_task(&t, "application/x.ts"), "../application/x.ts");
    t.options.run_from_workspace_root = true;
    assert_eq!(e.resolve_path_for_task(&t, "lib/x.ts"), "./lib/x.ts");
    t.options.run_from_workspace_root = false;
    let r = e.replace_function(&t, "@globs(g)").unwrap();
    assert_eq!(e.render_items(&t, &r), list(&["../lib/*.ts", "../application/x"]));
}

#[test]
fn default_result_is_empty() {
    let r = ExpandedResult::default();
    assert_eq!(
        r,
        ExpandedResult { env: vec![], files: vec![], globs: vec![], token: None, value: None }
    );
}

#[test]
fn field_expanders_are_repeatable() {
    let p = project("app", vec![group("g", &["app/a"], &["app/*"], &["E"])]);
    let c = context();
    let mut one = TokenExpander::new(&p, &c, host_with(&[], &["app/a"]));
    let mut two = TokenExpander::new(&p, &c, host_with(&[], &["app/a"]));
    let mut t = task();
    t.command = s("$datetime $timestamp");
    t.script = Some(s("run @group(g) $date"));
    t.args = list(&["@files(g)", "$time"]);
    t.env = vec![entry("A", "@globs(g)")];
    t.inputs = vec![InputPath::TokenFunc(s("@group(g)")), InputPath::EnvVarGlob(s("*"))];
    t.outputs = vec![OutputPath::ProjectFile(s("out"))];
    assert_eq!(one.expand_command(&t), two.expand_command(&t));
    assert_eq!(one.expand_script(&t), two.expand_script(&t));
    assert_eq!(one.expand_args(&t), two.expand_args(&t));
    assert_eq!(one.expand_env(&t), two.expand_env(&t));
    assert_eq!(one.expand_inputs(&t), two.expand_inputs(&t));
    assert_eq!(one.expand_outputs(&t), two.expand_outputs(&t));
    assert_eq!(one.expand_inputs(&t), one.expand_inputs(&t));
}

#[test]
fn paths_to_probe_lists_group_files_and_input_files() {
    let p = project(
        "app",
        vec![group("one", &["app/a", "app/b"], &["app/*"], &[]), group("two", &["lib/c"], &[], &[])],
    );
    let c = context();
    let e = TokenExpander::new(&p, &c, host());
    let mut t = task();
    t.inputs = vec![
        InputPath::ProjectFile(s("$task/x")),
        InputPath::ProjectGlob(s("**/*")),
        InputPath::WorkspaceFile(s("shared")),
        InputPath::TokenVar(s("$task")),
    ];
    assert_eq!(e.paths_to_probe(&t), list(&["app/a", "app/b", "lib/c", "app/build/x", "shared"]));
    t.inputs = vec![];
    let empty = project("app", vec![]);
    let e = TokenExpander::new(&empty, &c, host());
    assert_eq!(e.paths_to_probe(&t), Vec::<String>::new());
}

#[test]
fn text_without_tokens_passes_every_expander() {
    let p = project("app", vec![]);
    let c = context();
    let mut e = TokenExpander::new(&p, &c, host());
    let mut t = task();
    let plain = "plain --text=1 {x} (y) 'z' #";
    t.env = vec![entry("A", plain)];
    t.command = s(plain);
    t.script = Some(s(plain));
    t.args = list(&[plain, ""]);
    t.inputs = vec![InputPath::WorkspaceGlob(s(plain)), InputPath::WorkspaceFile(s(plain))];
    t.outputs = vec![OutputPath::WorkspaceGlob(s(plain)), OutputPath::WorkspaceFile(s(plain))];
    assert_eq!(e.expand_command(&t), Ok(s(plain)));
    assert_eq!(e.expand_script(&t), Ok(s(plain)));
    assert_eq!(e.expand_args(&t), Ok(list(&[plain, ""])));
    assert_eq!(e.expand_env(&t), Ok(vec![entry("A", plain)]));
    let inputs = e.expand_inputs(&t).unwrap();
    assert_eq!((inputs.globs, inputs.files), (list(&[plain]), list(&[plain])));
    let outputs = e.expand_outputs(&t).unwrap();
    assert_eq!((outputs.globs, outputs.files), (list(&[plain]), list(&[plain])));
    assert_eq!(e.replace_all_variables(&t, plain), plain);
}

#[test]
fn expanded_paths_are_relative_to_the_workspace() {
    let p = project(
        "app",
        vec![group("g", &["app/src/a.ts", "app/src/dir"], &["app/src/**/*.ts"], &["E"])],
    );
    let c = context();
    let mut e = TokenExpander::new(&p, &c, host_with(&["app/src/dir", "app/x"], &["app/src/a.ts"]));
    let mut t = task();
    t.env = vec![entry("SUB", "deep/er")];
    t.inputs = vec![
        InputPath::ProjectFile(s("/x")),
        InputPath::ProjectGlob(s("$projectType/${SUB}/*")),
        InputPath::WorkspaceFile(s("a/$workspaceRoot")),
        InputPath::WorkspaceGlob(s("")),
        InputPath::TokenVar(s("$workspaceRoot")),
        InputPath::TokenFunc(s("@group(g)")),
        InputPath::TokenFunc(s("@root(g)")),
        InputPath::TokenFunc(s("@dirs(g)")),
    ];
    t.outputs = vec![
        OutputPath::ProjectFile(s("$workingDir")),
        OutputPath::WorkspaceGlob(s("out/**")),
        OutputPath::TokenVar(s("$projectRoot")),
        OutputPath::TokenFunc(s("@files(g)")),
    ];
    let inputs = e.expand_inputs(&t).unwrap();
    assert_eq!(
        inputs.files,
        list(&["a//ws", "app/ws", "app/src/a.ts", "app/src/dir", "app/src", "app/src/dir"])
    );
    assert_eq!(
        inputs.globs,
        list(&["app/x/**/*", "app/application/deep/er/*", "", "app/src/**/*.ts"])
    );
    let outputs = e.expand_outputs(&t).unwrap();
    assert_eq!(outputs.files, list(&["app//ws/app", "app/ws/app", "app/src/a.ts"]));
    assert_eq!(outputs.globs, list(&["out/**"]));
    for path in inputs.files.iter().chain(&inputs.globs).chain(&outputs.files).chain(&outputs.globs)
    {
        assert!(!path.starts_with('/') && !path.contains('\\'), "{}", path);
    }
}

#[test]
fn a_path_that_starts_with_a_variable_can_leave_the_workspace() {
    let p = project("app", vec![]);
    let c = context();
    let mut e = TokenExpander::new(&p, &c, host());
    let mut t = task();
    t.inputs = vec![InputPath::WorkspaceFile(s("$workspaceRoot/x"))];
    assert_eq!(e.expand_inputs(&t).unwrap().files, list(&["/ws/x"]));
}
