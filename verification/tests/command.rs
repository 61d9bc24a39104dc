use nocobase_desktop::command::{
    command_env, launcher_text, login_shell_path, marked_path, node_command, shell_query, EnvValue,
    Job, ProcessOutput,
};
use nocobase_desktop::config::DatabaseConfig;
use nocobase_desktop::effect::{Effect, Reply, Step};
use nocobase_desktop::launch::{launch, launch_next};
use nocobase_desktop::layout::{bundled_resource, runtime_dir, Host};

fn host() -> Host {
    Host { unix: true, home_found: true, resources: Ok(()), version: "1.2.3".to_string() }
}

fn config(dialect: &str) -> DatabaseConfig {
    DatabaseConfig {
        dialect: dialect.to_string(),
        host: "db.example".to_string(),
        port: 3306,
        database: "data".to_string(),
        user: "me".to_string(),
        password: "p w".to_string(),
        app_key: "key".to_string(),
    }
}

fn shown(value: &EnvValue) -> String {
    match value {
        EnvValue::Text(t) => t.clone(),
        EnvValue::Path(p) => format!("~/{}", p.parts.join("/")),
    }
}

fn env(dialect: &str) -> Vec<(String, String)> {
    command_env(&runtime_dir(&host()).unwrap(), &config(dialect))
        .iter()
        .map(|v| (v.name.clone(), shown(&v.value)))
        .collect()
}

#[test]
fn server_is_told_all_it_needs() {
    let expected = [
        ("APP_ENV", "development"),
        ("APP_HOST", "127.0.0.1"),
        ("APP_PORT", "14300"),
        ("API_BASE_PATH", "/api/"),
        ("APP_KEY", "key"),
        ("APP_LAUNCH_MODE", "node"),
        ("APP_PACKAGE_ROOT", "node_modules/@nocobase/app"),
        ("NODE_MODULES_PATH", "~/.nocobase-desktop/runtime/node_modules"),
        ("STORAGE_PATH", "~/.nocobase-desktop/runtime/storage"),
        ("DB_DIALECT", "postgres"),
        ("DB_HOST", "db.example"),
        ("DB_PORT", "3306"),
        ("DB_DATABASE", "data"),
        ("DB_USER", "me"),
        ("DB_PASSWORD", "p w"),
        ("PLUGIN_PACKAGE_PREFIX", "@nocobase/plugin-,@nocobase/preset-,@tommyfgj/plugin-"),
    ];
    let expected: Vec<(String, String)> =
        expected.iter().map(|(n, v)| (n.to_string(), v.to_string())).collect();
    assert_eq!(env("postgres"), expected);
}

#[test]
fn underscores_are_for_the_mysql_family() {
    let underscored = ("DB_UNDERSCORED".to_string(), "true".to_string());
    assert_eq!(env("mysql").last(), Some(&underscored));
    assert_eq!(env("mariadb").last(), Some(&underscored));
    assert!(!env("postgres").contains(&underscored));
    assert!(!env("MySQL").contains(&underscored));
    assert_eq!(env("mysql").len(), 17);
}

#[test]
fn names_of_variables_are_distinct() {
    let mut names: Vec<String> = env("mysql").into_iter().map(|v| v.0).collect();
    names.push("PATH".to_string());
    let count = names.len();
    names.sort();
    names.dedup();
    assert_eq!(names.len(), count);
}

fn output(success: bool, stdout: &[u8]) -> Option<ProcessOutput> {
    Some(ProcessOutput { success, stdout: stdout.to_vec() })
}

#[test]
fn search_path_stands_behind_the_last_mark() {
    let path = Some("/usr/bin:/bin".to_string());
    assert_eq!(
        login_shell_path(output(true, b"welcome\n__NOCOBASE_DESKTOP_PATH__/usr/bin:/bin\n")),
        path
    );
    let twice = b"__NOCOBASE_DESKTOP_PATH__/old __NOCOBASE_DESKTOP_PATH__ /usr/bin:/bin ";
    assert_eq!(login_shell_path(output(true, twice)), path);
    assert_eq!(marked_path("噪音__NOCOBASE_DESKTOP_PATH__/路径"), Some("/路径".to_string()));
}

#[test]
fn without_a_usable_answer_there_is_no_search_path() {
    assert_eq!(login_shell_path(None), None);
    assert_eq!(login_shell_path(output(false, b"__NOCOBASE_DESKTOP_PATH__/bin")), None);
    assert_eq!(login_shell_path(output(true, b"/bin")), None);
    assert_eq!(login_shell_path(output(true, b"__NOCOBASE_DESKTOP_PATH__ \n")), None);
    assert_eq!(login_shell_path(output(true, b"\xff__NOCOBASE_DESKTOP_PATH__/bin")), None);
}

#[test]
fn login_shell_is_asked_for_its_path() {
    let (program, args) = shell_query();
    assert_eq!(program, "/bin/zsh");
    assert_eq!(args, vec!["-lc", "printf '__NOCOBASE_DESKTOP_PATH__%s' \"$PATH\""]);
}

#[test]
fn jobs_have_their_scripts_and_arguments() {
    assert_eq!(Job::Install.arg_list(), vec!["install"]);
    assert_eq!(
        Job::EnablePlugin.arg_list(),
        vec!["pm", "enable", "@tommyfgj/plugin-data-source-readonly-mysql"]
    );
    assert_eq!(
        Job::Serve.arg_list(),
        vec!["start", "--launch-mode", "node", "--port", "14300"]
    );
    assert_eq!(
        Job::Register.arg_list(),
        vec![
            "init",
            "--env",
            "desktop",
            "--yes",
            "--setup-mode",
            "connect-remote",
            "--api-base-url",
            "http://127.0.0.1:14300/api",
            "--auth-type",
            "basic",
            "--username",
            "nocobase",
            "--password",
            "admin123",
            "--skip-skills",
            "--force",
        ]
    );
    assert_eq!(Job::Register.script_text(), "node_modules/@nocobase/cli/bin/run.js");
    assert_eq!(Job::Install.script_text(), "node_modules/@nocobase/cli-v1/bin/index.js");
    assert_eq!(Job::Serve.script_text(), Job::EnablePlugin.script_text());
}

#[test]
fn failed_jobs_are_named() {
    assert_eq!(Job::Install.failure_text(), "NocoBase 命令执行失败：install");
    assert_eq!(
        Job::EnablePlugin.failure_text(),
        "NocoBase 命令执行失败：pm enable @tommyfgj/plugin-data-source-readonly-mysql"
    );
    assert_eq!(Job::Register.failure_text(), "nb desktop 环境注册失败");
}

#[test]
fn command_runs_node_in_the_runtime() {
    let runtime = runtime_dir(&host()).unwrap();
    let command = node_command(
        bundled_resource("node", true),
        runtime.clone(),
        &config("postgres"),
        Some("/bin".to_string()),
        true,
        Job::Install,
    );
    assert_eq!(command.program, bundled_resource("node", true));
    assert_eq!(command.dir, runtime.clone());
    assert!(command.own_group);
    assert_eq!(command.args, vec!["node_modules/@nocobase/cli-v1/bin/index.js", "install"]);
    assert_eq!(command.env[0].name, "PATH");
    assert_eq!(command.env[0].value, EnvValue::Text("/bin".to_string()));
    assert_eq!(command.env.len(), 17);

    let plain = node_command(
        bundled_resource("node", false),
        runtime,
        &config("postgres"),
        None,
        false,
        Job::Serve,
    );
    assert_eq!(plain.env.len(), 16);
    assert!(!plain.own_group);
}

#[test]
fn launcher_enters_the_runtime_and_runs_node() {
    assert_eq!(
        launcher_text("/home/me/rt", "/opt/app/node"),
        "#!/bin/sh\ncd '/home/me/rt'\nexec '/opt/app/node' 'node_modules/@nocobase/cli/bin/run.js' \"$@\"\n"
    );
}

fn launched(job: Job, success: bool) -> (Vec<String>, Result<(), String>) {
    let host = host();
    let config = config("postgres");
    let mut paths: Vec<String> = Vec::new();
    let mut step = launch(&host);
    loop {
        match step {
            Step::Perform(phase, effect) => {
                let reply = match effect {
                    Effect::Exists(p) => Reply::Answer(p == bundled_resource("node", true)),
                    Effect::Capture(_, _) => {
                        Reply::Output(output(true, b"hi __NOCOBASE_DESKTOP_PATH__/opt/bin\n"))
                    }
                    Effect::Run(c) => {
                        paths.push(shown(&c.env[0].value));
                        Reply::Status(Ok(success))
                    }
                    Effect::Spawn(c) => {
                        paths.push(shown(&c.env[0].value));
                        Reply::Done(Ok(()))
                    }
                    _ => Reply::Done(Ok(())),
                };
                step = launch_next(&host, &config, job, phase, reply);
            }
            Step::Finished(result) => return (paths, result),
        }
    }
}

#[test]
fn command_gets_the_search_path_of_the_shell() {
    let path = vec!["/opt/bin".to_string()];
    assert_eq!(launched(Job::Install, true), (path.clone(), Ok(())));
    assert_eq!(launched(Job::Serve, true), (path.clone(), Ok(())));
    let (paths, result) = launched(Job::Register, false);
    assert_eq!(paths, path);
    assert_eq!(result, Err("nb desktop 环境注册失败".to_string()));
}
