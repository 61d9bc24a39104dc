//! The commands that the application runs with the bundled Node.js.
use vstd::prelude::*;

use crate::config::{ConfigView, DatabaseConfig};
use crate::layout::APP_PORT;
use crate::path::{FilePath, PathView};
use crate::text::{
    decimal, decimal_digits, holds_part, is_last_occurrence, join_words, joined, last_occurrence,
    option_view, same_text, texts, trim, trimmed, Text,
};

verus! {

/// The value of an environment variable.
#[derive(Debug, PartialEq, Eq)]
pub enum EnvValue {
    Text(String),
    Path(FilePath),
}

/// The mathematical model of an `EnvValue`.
pub enum EnvValueView {
    Text(Text),
    Path(PathView),
}

impl View for EnvValue {
    type V = EnvValueView;

    open spec fn view(&self) -> EnvValueView {
        match self {
            EnvValue::Text(t) => EnvValueView::Text(t@),
            EnvValue::Path(p) => EnvValueView::Path(p@),
        }
    }
}

/// An environment variable.
#[derive(Debug, PartialEq, Eq)]
pub struct EnvVar {
    pub name: String,
    pub value: EnvValue,
}

/// The mathematical model of an `EnvVar`.
pub struct EnvVarView {
    pub name: Text,
    pub value: EnvValueView,
}

impl View for EnvVar {
    type V = EnvVarView;

    open spec fn view(&self) -> EnvVarView {
        EnvVarView { name: self.name@, value: self.value@ }
    }
}

/// The views of a list of variables.
pub open spec fn vars(env: Seq<EnvVar>) -> Seq<EnvVarView> {
    env.map_values(|v: EnvVar| v@)
}

/// A variable that holds a text.
pub open spec fn text_var(name: Text, value: Text) -> EnvVarView {
    EnvVarView { name, value: EnvValueView::Text(value) }
}

/// A variable that holds a path.
pub open spec fn path_var(name: Text, value: PathView) -> EnvVarView {
    EnvVarView { name, value: EnvValueView::Path(value) }
}

/// The variables of every command.
pub open spec fn base_env(runtime: PathView, config: ConfigView) -> Seq<EnvVarView> {
    seq![
        text_var("APP_ENV"@, "development"@),
        text_var("APP_HOST"@, "127.0.0.1"@),
        text_var("APP_PORT"@, decimal_digits(APP_PORT as nat)),
        text_var("API_BASE_PATH"@, "/api/"@),
        text_var("APP_KEY"@, config.app_key),
        text_var("APP_LAUNCH_MODE"@, "node"@),
        text_var("APP_PACKAGE_ROOT"@, "node_modules/@nocobase/app"@),
        path_var("NODE_MODULES_PATH"@, runtime.join("node_modules"@)),
        path_var("STORAGE_PATH"@, runtime.join("storage"@)),
        text_var("DB_DIALECT"@, config.dialect),
        text_var("DB_HOST"@, config.host),
        text_var("DB_PORT"@, decimal_digits(config.port as nat)),
        text_var("DB_DATABASE"@, config.database),
        text_var("DB_USER"@, config.user),
        text_var("DB_PASSWORD"@, config.password),
        text_var(
            "PLUGIN_PACKAGE_PREFIX"@,
            "@nocobase/plugin-,@nocobase/preset-,@tommyfgj/plugin-"@,
        ),
    ]
}

/// The database is of the MySQL family, whose columns are named with underscores.
pub open spec fn is_mysql_family(dialect: Text) -> bool {
    dialect == "mysql"@ || dialect == "mariadb"@
}

/// The variables that tell the server where it runs and how it reaches its database.
pub open spec fn server_env(runtime: PathView, config: ConfigView) -> Seq<EnvVarView> {
    if is_mysql_family(config.dialect) {
        base_env(runtime, config).push(text_var("DB_UNDERSCORED"@, "true"@))
    } else {
        base_env(runtime, config)
    }
}

fn text_entry(name: &str, value: &str) -> (r: EnvVar)
    ensures
        r@ == text_var(name@, value@),
{
    EnvVar { name: name.to_owned(), value: EnvValue::Text(value.to_owned()) }
}

fn path_entry(name: &str, value: FilePath) -> (r: EnvVar)
    ensures
        r@ == path_var(name@, value@),
{
    EnvVar { name: name.to_owned(), value: EnvValue::Path(value) }
}

/// The variables that tell the server where it runs and how it reaches its database.
pub fn command_env(runtime: &FilePath, config: &DatabaseConfig) -> (r: Vec<EnvVar>)
    ensures
        vars(r@) == server_env(runtime@, config@),
{
    let mut env: Vec<EnvVar> = Vec::new();
    env.push(text_entry("APP_ENV", "development"));
    env.push(text_entry("APP_HOST", "127.0.0.1"));
    env.push(text_entry("APP_PORT", decimal(APP_PORT).as_str()));
    env.push(text_entry("API_BASE_PATH", "/api/"));
    env.push(text_entry("APP_KEY", config.app_key.as_str()));
    env.push(text_entry("APP_LAUNCH_MODE", "node"));
    env.push(text_entry("APP_PACKAGE_ROOT", "node_modules/@nocobase/app"));
    env.push(path_entry("NODE_MODULES_PATH", runtime.join("node_modules")));
    env.push(path_entry("STORAGE_PATH", runtime.join("storage")));
    env.push(text_entry("DB_DIALECT", config.dialect.as_str()));
    env.push(text_entry("DB_HOST", config.host.as_str()));
    env.push(text_entry("DB_PORT", decimal(config.port).as_str()));
    env.push(text_entry("DB_DATABASE", config.database.as_str()));
    env.push(text_entry("DB_USER", config.user.as_str()));
    env.push(text_entry("DB_PASSWORD", config.password.as_str()));
    env.push(
        text_entry(
            "PLUGIN_PACKAGE_PREFIX",
            "@nocobase/plugin-,@nocobase/preset-,@tommyfgj/plugin-",
        ),
    );
    assert(vars(env@) =~= base_env(runtime@, config@));
    let dialect = config.dialect.as_str();
    if same_text(dialect, "mysql") || same_text(dialect, "mariadb") {
        env.push(text_entry("DB_UNDERSCORED", "true"));
    }
    assert(vars(env@) =~= server_env(runtime@, config@));
    env
}

/// What a process left behind: whether it succeeded, and what it wrote.
#[derive(Debug, PartialEq, Eq)]
pub struct ProcessOutput {
    pub success: bool,
    pub stdout: Vec<u8>,
}

/// The mathematical model of a `ProcessOutput`.
pub struct OutputView {
    pub success: bool,
    pub stdout: Seq<u8>,
}

impl View for ProcessOutput {
    type V = OutputView;

    open spec fn view(&self) -> OutputView {
        OutputView { success: self.success, stdout: self.stdout@ }
    }
}

/// What stands in front of the search path in the answer of the login shell.
pub open spec fn path_mark() -> Text {
    "__NOCOBASE_DESKTOP_PATH__"@
}

/// What follows the last mark in `printed`, without the white space around it. `None` where
/// there is no mark or nothing behind it.
pub open spec fn path_behind_mark(printed: Text) -> Option<Text> {
    if holds_part(printed, path_mark()) {
        let i = choose|i: int| is_last_occurrence(printed, path_mark(), i);
        let path = trimmed(printed.skip(i + path_mark().len()));
        if path.len() == 0 {
            None
        } else {
            Some(path)
        }
    } else {
        None
    }
}

/// The search path in the answer of the login shell. `None` where the shell did not run,
/// failed, did not print UTF-8, or printed no path behind a mark.
pub open spec fn shell_path(output: Option<OutputView>) -> Option<Text> {
    match output {
        Some(o) => if o.success && vstd::utf8::valid_utf8(o.stdout) {
            path_behind_mark(vstd::utf8::decode_utf8(o.stdout))
        } else {
            None
        },
        None => None,
    }
}

/// Calls `String::from_utf8`. Trusted: it succeeds exactly on valid UTF-8, and the string
/// then holds the characters that the bytes encode.
#[verifier::external_body]
fn utf8_text(bytes: Vec<u8>) -> (r: Option<String>)
    ensures
        r is Some <==> vstd::utf8::valid_utf8(bytes@),
        r matches Some(s) ==> s@ == vstd::utf8::decode_utf8(bytes@),
{
    String::from_utf8(bytes).ok()
}

/// What follows the last mark in `printed`, without the white space around it.
pub fn marked_path(printed: &str) -> (r: Option<String>)
    ensures
        option_view(r) == path_behind_mark(printed@),
{
    proof {
        reveal_strlit("__NOCOBASE_DESKTOP_PATH__");
    }
    match last_occurrence(printed, "__NOCOBASE_DESKTOP_PATH__") {
        None => None,
        Some(i) => {
            assert(is_last_occurrence(printed@, path_mark(), i as int));
            assert(holds_part(printed@, path_mark()));
            let end: usize = printed.unicode_len();
            let rest = printed.substring_char(i + 25, end);
            assert(rest@ =~= printed@.skip(i + path_mark().len()));
            let path = trim(rest);
            if path.is_empty() {
                None
            } else {
                Some(path.to_owned())
            }
        },
    }
}

/// The search path in the answer of the login shell.
pub fn login_shell_path(output: Option<ProcessOutput>) -> (r: Option<String>)
    ensures
        option_view(r) == shell_path(option_view(output)),
{
    match output {
        None => None,
        Some(o) => {
            if !o.success {
                return None;
            }
            match utf8_text(o.stdout) {
                None => None,
                Some(printed) => marked_path(printed.as_str()),
            }
        },
    }
}

/// The program and the arguments that ask the login shell for its search path.
pub fn shell_query() -> (r: (String, Vec<String>))
    ensures
        r.0@ == "/bin/zsh"@,
        texts(r.1@) == shell_query_args(),
{
    let mut args: Vec<String> = Vec::new();
    args.push("-lc".to_owned());
    args.push("printf '__NOCOBASE_DESKTOP_PATH__%s' \"$PATH\"".to_owned());
    assert(texts(args@) =~= shell_query_args());
    ("/bin/zsh".to_owned(), args)
}

/// The arguments by which the login shell prints the mark and its search path.
pub open spec fn shell_query_args() -> Seq<Text> {
    seq!["-lc"@, "printf '__NOCOBASE_DESKTOP_PATH__%s' \"$PATH\""@]
}

/// What the bundled Node.js is asked to do.
#[derive(Clone, Copy, Debug, PartialEq, Eq, Structural)]
pub enum Job {
    /// Create the tables of NocoBase.
    Install,
    /// Enable the plugin for read-only data sources.
    EnablePlugin,
    /// Register the local server with the `nb` command.
    Register,
    /// Serve.
    Serve,
}

/// The script of the server's own command.
pub open spec fn server_script() -> Text {
    "node_modules/@nocobase/cli-v1/bin/index.js"@
}

/// The script of the `nb` command.
pub open spec fn nb_script() -> Text {
    "node_modules/@nocobase/cli/bin/run.js"@
}

impl Job {
    /// The script that does the job.
    pub open spec fn script(self) -> Text {
        match self {
            Job::Register => nb_script(),
            _ => server_script(),
        }
    }

    /// The arguments of the script.
    pub open spec fn args(self) -> Seq<Text> {
        match self {
            Job::Install => seq!["install"@],
            Job::EnablePlugin => seq![
                "pm"@,
                "enable"@,
                "@tommyfgj/plugin-data-source-readonly-mysql"@,
            ],
            Job::Register => seq![
                "init"@,
                "--env"@,
                "desktop"@,
                "--yes"@,
                "--setup-mode"@,
                "connect-remote"@,
                "--api-base-url"@,
                "http://127.0.0.1:14300/api"@,
                "--auth-type"@,
                "basic"@,
                "--username"@,
                "nocobase"@,
                "--password"@,
                "admin123"@,
                "--skip-skills"@,
                "--force"@,
            ],
            Job::Serve => seq![
                "start"@,
                "--launch-mode"@,
                "node"@,
                "--port"@,
                decimal_digits(APP_PORT as nat),
            ],
        }
    }

    /// The message where the script ran and did not succeed.
    pub open spec fn failure(self) -> Text {
        match self {
            Job::Register => "nb desktop 环境注册失败"@,
            _ => "NocoBase 命令执行失败："@ + joined(self.args(), " "@),
        }
    }

    /// The script that does the job.
    pub fn script_text(self) -> (r: String)
        ensures
            r@ == self.script(),
    {
        match self {
            Job::Register => "node_modules/@nocobase/cli/bin/run.js".to_owned(),
            _ => "node_modules/@nocobase/cli-v1/bin/index.js".to_owned(),
        }
    }

    /// The arguments of the script.
    pub fn arg_list(self) -> (r: Vec<String>)
        ensures
            texts(r@) == self.args(),
    {
        let mut args: Vec<String> = Vec::new();
        match self {
            Job::Install => {
                args.push("install".to_owned());
            },
            Job::EnablePlugin => {
                args.push("pm".to_owned());
                args.push("enable".to_owned());
                args.push("@tommyfgj/plugin-data-source-readonly-mysql".to_owned());
            },
            Job::Register => {
                args.push("init".to_owned());
                args.push("--env".to_owned());
                args.push("desktop".to_owned());
                args.push("--yes".to_owned());
                args.push("--setup-mode".to_owned());
                args.push("connect-remote".to_owned());
                args.push("--api-base-url".to_owned());
                args.push("http://127.0.0.1:14300/api".to_owned());
                args.push("--auth-type".to_owned());
                args.push("basic".to_owned());
                args.push("--username".to_owned());
                args.push("nocobase".to_owned());
                args.push("--password".to_owned());
                args.push("admin123".to_owned());
                args.push("--skip-skills".to_owned());
                args.push("--force".to_owned());
            },
            Job::Serve => {
                args.push("start".to_owned());
                args.push("--launch-mode".to_owned());
                args.push("node".to_owned());
                args.push("--port".to_owned());
                args.push(decimal(APP_PORT));
            },
        }
        assert(texts(args@) =~= self.args());
        args
    }

    /// The message where the script ran and did not succeed.
    pub fn failure_text(self) -> (r: String)
        ensures
            r@ == self.failure(),
    {
        match self {
            Job::Register => "nb desktop 环境注册失败".to_owned(),
            _ => "NocoBase 命令执行失败：".to_owned().concat(
                join_words(&self.arg_list(), " ").as_str(),
            ),
        }
    }
}

/// A run of the bundled Node.js. The variables are added to those of the application, and
/// a later one of the same name replaces an earlier one.
#[derive(Debug, PartialEq, Eq)]
pub struct NodeCommand {
    pub program: FilePath,
    pub dir: FilePath,
    pub env: Vec<EnvVar>,
    /// The process leads a process group of its own.
    pub own_group: bool,
    pub args: Vec<String>,
}

/// The mathematical model of a `NodeCommand`.
#[verifier::ext_equal]
pub struct CommandView {
    pub program: PathView,
    pub dir: PathView,
    pub env: Seq<EnvVarView>,
    pub own_group: bool,
    pub args: Seq<Text>,
}

impl View for NodeCommand {
    type V = CommandView;

    open spec fn view(&self) -> CommandView {
        CommandView {
            program: self.program@,
            dir: self.dir@,
            env: vars(self.env@),
            own_group: self.own_group,
            args: texts(self.args@),
        }
    }
}

/// The run of `node` in `runtime` that does `job`, with the search path of the login shell
/// where one is known.
pub open spec fn job_command(
    node: PathView,
    runtime: PathView,
    config: ConfigView,
    path: Option<Text>,
    unix: bool,
    job: Job,
) -> CommandView {
    CommandView {
        program: node,
        dir: runtime,
        env: match path {
            Some(p) => seq![text_var("PATH"@, p)],
            None => Seq::empty(),
        } + server_env(runtime, config),
        own_group: unix,
        args: seq![job.script()] + job.args(),
    }
}

/// The run of `node` in `runtime` that does `job`, with the search path of the login shell
/// where one is known.
pub fn node_command(
    node: FilePath,
    runtime: FilePath,
    config: &DatabaseConfig,
    path: Option<String>,
    unix: bool,
    job: Job,
) -> (r: NodeCommand)
    ensures
        r@ == job_command(node@, runtime@, config@, option_view(path), unix, job),
{
    let mut env: Vec<EnvVar> = Vec::new();
    let ghost shown = option_view(path);
    match path {
        Some(p) => {
            env.push(text_entry("PATH", p.as_str()));
        },
        None => {},
    }
    let mut rest = command_env(&runtime, config);
    let ghost first = env@;
    let ghost second = rest@;
    env.append(&mut rest);
    assert(vars(env@) =~= vars(first) + vars(second));
    let mut args: Vec<String> = Vec::new();
    args.push(job.script_text());
    let mut more = job.arg_list();
    let ghost tail = more@;
    args.append(&mut more);
    assert(texts(args@) =~= seq![job.script()] + texts(tail));
    let r = NodeCommand { program: node, dir: runtime, env, own_group: unix, args };
    assert(r@ =~= job_command(node@, runtime@, config@, shown, unix, job));
    r
}

/// The shell script that runs the `nb` command, where the paths of the runtime and of
/// Node.js read as given.
pub open spec fn launcher_script(runtime: Text, node: Text) -> Text {
    "#!/bin/sh\ncd '"@ + runtime + "'\nexec '"@ + node
        + "' 'node_modules/@nocobase/cli/bin/run.js' \"$@\"\n"@
}

/// The shell script that runs the `nb` command, where the paths of the runtime and of
/// Node.js read as given.
pub fn launcher_text(runtime: &str, node: &str) -> (r: String)
    ensures
        r@ == launcher_script(runtime@, node@),
{
    "#!/bin/sh\ncd '".to_owned().concat(runtime).concat("'\nexec '").concat(node).concat(
        "' 'node_modules/@nocobase/cli/bin/run.js' \"$@\"\n",
    )
}

} // verus!
