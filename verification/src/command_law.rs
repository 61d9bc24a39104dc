//! What holds of the commands and their variables, whatever the configuration.
use vstd::prelude::*;

use crate::command::{
    base_env, command_env, is_mysql_family, job_command, launcher_script, launcher_text,
    login_shell_path, marked_path, node_command, path_behind_mark, path_mark, server_env,
    shell_path, shell_query, shell_query_args, vars, EnvValueView, EnvVar, EnvVarView, Job,
    NodeCommand, OutputView, ProcessOutput,
};
use crate::config::{ConfigView, DatabaseConfig};
use crate::layout::APP_PORT;
use crate::path::{FilePath, PathView};
use crate::status::server_url;
use crate::text::{
    decimal_digits, holds_part, is_last_occurrence, joined, occurs_at, option_view, texts, trimmed,
    Text,
};

verus! {

/// Enough of a variable's name to tell the names apart: its length, its last character and
/// the fourth from the end.
spec fn trait_of(name: Text) -> (nat, char, char) {
    (name.len(), name[name.len() - 1], name[name.len() - 4])
}

/// The traits of the names of the variables, in their order.
spec fn traits() -> Seq<(nat, char, char)> {
    seq![
        (7, 'V', '_'),
        (8, 'T', 'H'),
        (8, 'T', 'P'),
        (13, 'H', 'P'),
        (7, 'Y', '_'),
        (15, 'E', 'M'),
        (16, 'T', 'R'),
        (17, 'H', 'P'),
        (12, 'H', 'P'),
        (10, 'T', 'L'),
        (7, 'T', 'H'),
        (7, 'T', 'P'),
        (11, 'E', 'B'),
        (7, 'R', 'U'),
        (11, 'D', 'W'),
        (21, 'X', 'E'),
    ]
}

proof fn lemma_traits(runtime: PathView, config: ConfigView)
    ensures
        base_env(runtime, config).len() == 16,
        traits().len() == 16,
        forall|i: int|
            0 <= i < 16 ==> trait_of(#[trigger] base_env(runtime, config)[i].name) == traits()[i],
        trait_of("DB_UNDERSCORED"@) == (14nat, 'D', 'O'),
        trait_of("PATH"@) == (4nat, 'H', 'P'),
{
    reveal_strlit("APP_ENV");
    reveal_strlit("APP_HOST");
    reveal_strlit("APP_PORT");
    reveal_strlit("API_BASE_PATH");
    reveal_strlit("APP_KEY");
    reveal_strlit("APP_LAUNCH_MODE");
    reveal_strlit("APP_PACKAGE_ROOT");
    reveal_strlit("NODE_MODULES_PATH");
    reveal_strlit("STORAGE_PATH");
    reveal_strlit("DB_DIALECT");
    reveal_strlit("DB_HOST");
    reveal_strlit("DB_PORT");
    reveal_strlit("DB_DATABASE");
    reveal_strlit("DB_USER");
    reveal_strlit("DB_PASSWORD");
    reveal_strlit("PLUGIN_PACKAGE_PREFIX");
    reveal_strlit("DB_UNDERSCORED");
    reveal_strlit("PATH");
}

/// No two variables of a command have the same name, so their order does not matter.
pub proof fn law_variables_are_distinct(
    node: PathView,
    runtime: PathView,
    config: ConfigView,
    path: Option<Text>,
    unix: bool,
    job: Job,
    i: int,
    j: int,
)
    requires
        0 <= i < j < job_command(node, runtime, config, path, unix, job).env.len(),
    ensures
        job_command(node, runtime, config, path, unix, job).env[i].name != job_command(
            node,
            runtime,
            config,
            path,
            unix,
            job,
        ).env[j].name,
{
    lemma_traits(runtime, config);
    let env = job_command(node, runtime, config, path, unix, job).env;
    let base = base_env(runtime, config);
    let shift: int = if path is Some {
        1
    } else {
        0
    };
    assert forall|k: int| shift <= k < shift + 16 implies trait_of(#[trigger] env[k].name)
        == traits()[k - shift] by {
        assert(env[k] == base[k - shift]);
    }
    if env.len() > shift + 16 {
        assert(env[shift + 16].name == "DB_UNDERSCORED"@);
    }
    assert(trait_of(env[i].name) != trait_of(env[j].name));
}

/// The server is told to name columns with underscores exactly where the database is of the
/// MySQL family.
pub proof fn law_underscores_follow_the_dialect(runtime: PathView, config: ConfigView)
    ensures
        (exists|i: int|
            0 <= i < server_env(runtime, config).len() && (#[trigger] server_env(
                runtime,
                config,
            )[i]).name == "DB_UNDERSCORED"@) <==> is_mysql_family(config.dialect),
{
    lemma_traits(runtime, config);
    let env = server_env(runtime, config);
    if is_mysql_family(config.dialect) {
        assert(env[16].name == "DB_UNDERSCORED"@);
    } else {
        assert forall|i: int| 0 <= i < env.len() implies (#[trigger] env[i]).name
            != "DB_UNDERSCORED"@ by {
            assert(env[i] == base_env(runtime, config)[i]);
            assert(trait_of(env[i].name) == traits()[i]);
        }
    }
}

/// The server listens where everyone looks for it: the address that is shown, the port that
/// the server is told, and the address that is registered with `nb` all name the one port.
pub proof fn law_one_port()
    ensures
        decimal_digits(APP_PORT as nat) == "14300"@,
        server_url() == "http://127.0.0.1:14300"@,
        Job::Register.args()[7] == server_url() + "/api"@,
        Job::Serve.args()[4] == "14300"@,
{
    reveal_strlit("14300");
    reveal_strlit("/api");
    reveal_strlit("http://127.0.0.1:");
    reveal_strlit("http://127.0.0.1:14300");
    reveal_strlit("http://127.0.0.1:14300/api");
    reveal_with_fuel(decimal_digits, 6);
    assert(decimal_digits(14300) =~= "14300"@);
    assert(server_url() =~= "http://127.0.0.1:14300"@);
    assert(Job::Register.args()[7] =~= server_url() + "/api"@);
}

/// Whatever the login shell prints before the last mark does not change the search path.
pub proof fn law_noise_of_the_shell_is_ignored(noise: Text, path: Text)
    requires
        forall|j: int|
            noise.len() < j ==> !#[trigger] occurs_at(noise + path_mark() + path, path_mark(), j),
        trimmed(path).len() > 0,
    ensures
        path_behind_mark(noise + path_mark() + path) == Some(trimmed(path)),
{
    let printed = noise + path_mark() + path;
    let n = noise.len() as int;
    assert(printed.subrange(n, n + path_mark().len()) =~= path_mark());
    assert(occurs_at(printed, path_mark(), n));
    assert(is_last_occurrence(printed, path_mark(), n));
    let i = choose|i: int| is_last_occurrence(printed, path_mark(), i);
    assert(i == n);
    assert(printed.skip(n + path_mark().len()) =~= path);
}

/// The question that the login shell is asked makes it print the mark.
pub proof fn law_question_holds_the_mark()
    ensures
        holds_part(shell_query_args()[1], path_mark()),
{
    reveal_strlit("__NOCOBASE_DESKTOP_PATH__");
    reveal_strlit("printf '__NOCOBASE_DESKTOP_PATH__%s' \"$PATH\"");
    assert(shell_query_args()[1].subrange(8, 33) =~= path_mark());
    assert(occurs_at(shell_query_args()[1], path_mark(), 8));
}

/// The variable `name` is set, to `value` and to nothing else.
pub open spec fn sets(env: Seq<EnvVarView>, name: Text, value: EnvValueView) -> bool {
    &&& exists|i: int| 0 <= i < env.len() && (#[trigger] env[i]).name == name
    &&& forall|i: int|
        0 <= i < env.len() && (#[trigger] env[i]).name == name ==> env[i].value == value
}

/// The variable `name` is not set.
pub open spec fn lacks(env: Seq<EnvVarView>, name: Text) -> bool {
    forall|i: int| 0 <= i < env.len() ==> (#[trigger] env[i]).name != name
}

/// The variable at `k` is the only one of its name.
proof fn lemma_sets(
    node: PathView,
    runtime: PathView,
    config: ConfigView,
    path: Option<Text>,
    unix: bool,
    job: Job,
    k: int,
)
    requires
        0 <= k < job_command(node, runtime, config, path, unix, job).env.len(),
    ensures
        ({
            let env = job_command(node, runtime, config, path, unix, job).env;
            sets(env, env[k].name, env[k].value)
        }),
{
    let env = job_command(node, runtime, config, path, unix, job).env;
    assert forall|i: int| 0 <= i < env.len() && (#[trigger] env[i]).name
        == env[k].name implies env[i].value == env[k].value by {
        if i < k {
            law_variables_are_distinct(node, runtime, config, path, unix, job, i, k);
        } else if k < i {
            law_variables_are_distinct(node, runtime, config, path, unix, job, k, i);
        }
    }
}

/// The environment that the server of `config` in `runtime` has to find.
#[verifier::opaque]
pub open spec fn tells_the_server(
    env: Seq<EnvVarView>,
    runtime: PathView,
    config: ConfigView,
) -> bool {
    &&& sets(env, "APP_ENV"@, EnvValueView::Text("development"@))
    &&& sets(env, "APP_HOST"@, EnvValueView::Text("127.0.0.1"@))
    &&& sets(env, "APP_PORT"@, EnvValueView::Text("14300"@))
    &&& sets(env, "API_BASE_PATH"@, EnvValueView::Text("/api/"@))
    &&& sets(env, "APP_KEY"@, EnvValueView::Text(config.app_key))
    &&& sets(env, "APP_LAUNCH_MODE"@, EnvValueView::Text("node"@))
    &&& sets(env, "APP_PACKAGE_ROOT"@, EnvValueView::Text("node_modules/@nocobase/app"@))
    &&& sets(
        env,
        "NODE_MODULES_PATH"@,
        EnvValueView::Path(
            PathView { root: runtime.root, parts: runtime.parts.push("node_modules"@) },
        ),
    )
    &&& sets(
        env,
        "STORAGE_PATH"@,
        EnvValueView::Path(PathView { root: runtime.root, parts: runtime.parts.push("storage"@) }),
    )
    &&& sets(env, "DB_DIALECT"@, EnvValueView::Text(config.dialect))
    &&& sets(env, "DB_HOST"@, EnvValueView::Text(config.host))
    &&& sets(env, "DB_PORT"@, EnvValueView::Text(decimal_digits(config.port as nat)))
    &&& sets(env, "DB_DATABASE"@, EnvValueView::Text(config.database))
    &&& sets(env, "DB_USER"@, EnvValueView::Text(config.user))
    &&& sets(env, "DB_PASSWORD"@, EnvValueView::Text(config.password))
    &&& sets(
        env,
        "PLUGIN_PACKAGE_PREFIX"@,
        EnvValueView::Text("@nocobase/plugin-,@nocobase/preset-,@tommyfgj/plugin-"@),
    )
    &&& if config.dialect == "mysql"@ || config.dialect == "mariadb"@ {
        sets(env, "DB_UNDERSCORED"@, EnvValueView::Text("true"@))
    } else {
        lacks(env, "DB_UNDERSCORED"@)
    }
}

/// Every variable of a command has the value that the configuration, the runtime and the login
/// shell give it, under the dialect there is, and there is no variable besides.
pub proof fn law_variables_hold_what_is_configured(
    node: PathView,
    runtime: PathView,
    config: ConfigView,
    path: Option<Text>,
    unix: bool,
    job: Job,
)
    ensures
        ({
            let env = job_command(node, runtime, config, path, unix, job).env;
            &&& tells_the_server(env, runtime, config)
            &&& match path {
                Some(p) => sets(env, "PATH"@, EnvValueView::Text(p)),
                None => lacks(env, "PATH"@),
            }
            &&& env.len() == 16 + (if config.dialect == "mysql"@ || config.dialect == "mariadb"@ {
                1int
            } else {
                0
            }) + (if path is Some {
                1int
            } else {
                0
            })
        }),
{
    reveal(tells_the_server);
    law_one_port();
    lemma_traits(runtime, config);
    let env = job_command(node, runtime, config, path, unix, job).env;
    let base = base_env(runtime, config);
    let shift: int = if path is Some {
        1
    } else {
        0
    };
    assert forall|k: int| shift <= k < env.len() implies sets(
        env,
        (#[trigger] env[k]).name,
        env[k].value,
    ) by {
        lemma_sets(node, runtime, config, path, unix, job, k);
    }
    assert(env[shift] == base[0]);
    assert(env[shift + 1] == base[1]);
    assert(env[shift + 2] == base[2]);
    assert(env[shift + 3] == base[3]);
    assert(env[shift + 4] == base[4]);
    assert(env[shift + 5] == base[5]);
    assert(env[shift + 6] == base[6]);
    assert(env[shift + 7] == base[7]);
    assert(env[shift + 8] == base[8]);
    assert(env[shift + 9] == base[9]);
    assert(env[shift + 10] == base[10]);
    assert(env[shift + 11] == base[11]);
    assert(env[shift + 12] == base[12]);
    assert(env[shift + 13] == base[13]);
    assert(env[shift + 14] == base[14]);
    assert(env[shift + 15] == base[15]);
    assert(base[11].value == EnvValueView::Text(decimal_digits(config.port as nat)));
    if is_mysql_family(config.dialect) {
        assert(env[shift + 16].name == "DB_UNDERSCORED"@);
    } else {
        assert forall|i: int| 0 <= i < env.len() implies (#[trigger] env[i]).name
            != "DB_UNDERSCORED"@ by {
            if i >= shift {
                assert(env[i] == base[i - shift]);
                assert(trait_of(env[i].name) == traits()[i - shift]);
            }
        }
    }
    if path is Some {
        lemma_sets(node, runtime, config, path, unix, job, 0);
        assert(env[0].name == "PATH"@);
    } else {
        assert forall|i: int| 0 <= i < env.len() implies (#[trigger] env[i]).name != "PATH"@ by {
            if i < 16 {
                assert(env[i] == base[i]);
                assert(trait_of(env[i].name) == traits()[i]);
            }
        }
    }
}

/// What the executable environment holds, variable by variable.
pub proof fn law_environment_is_that_of_the_configuration(
    runtime: &FilePath,
    config: &DatabaseConfig,
    env: Vec<EnvVar>,
)
    requires
        call_ensures(command_env, (runtime, config), env),
    ensures
        tells_the_server(vars(env@), runtime@, config@),
        lacks(vars(env@), "PATH"@),
        vars(env@).len() == env@.len(),
        forall|i: int|
            0 <= i < env@.len() ==> (#[trigger] vars(env@)[i]).name == env@[i].name@ && vars(
                env@,
            )[i].value == env@[i].value@,
        env@.len() == 16 + (if config.dialect@ == "mysql"@ || config.dialect@ == "mariadb"@ {
            1int
        } else {
            0
        }),
{
    law_variables_hold_what_is_configured(
        runtime@,
        runtime@,
        config@,
        None,
        true,
        Job::Install,
    );
    assert(job_command(runtime@, runtime@, config@, None, true, Job::Install).env =~= server_env(
        runtime@,
        config@,
    ));
}

/// The words of the command line behind Node.js, for each job.
pub open spec fn command_line(job: Job) -> Seq<Text> {
    match job {
        Job::Install => seq!["node_modules/@nocobase/cli-v1/bin/index.js"@, "install"@],
        Job::EnablePlugin => seq![
            "node_modules/@nocobase/cli-v1/bin/index.js"@,
            "pm"@,
            "enable"@,
            "@tommyfgj/plugin-data-source-readonly-mysql"@,
        ],
        Job::Register => seq![
            "node_modules/@nocobase/cli/bin/run.js"@,
            "init"@,
            "--env"@,
            "desktop"@,
            "--yes"@,
            "--setup-mode"@,
            "connect-remote"@,
            "--api-base-url"@,
            "http://127.0.0.1:14300/api"@,
            "--auth-type"@,
            "basic"@,
            "--username"@,
            "nocobase"@,
            "--password"@,
            "admin123"@,
            "--skip-skills"@,
            "--force"@,
        ],
        Job::Serve => seq![
            "node_modules/@nocobase/cli-v1/bin/index.js"@,
            "start"@,
            "--launch-mode"@,
            "node"@,
            "--port"@,
            "14300"@,
        ],
    }
}

/// A command runs the given Node.js in the given runtime with the words of its job, leads a group
/// of its own exactly where there are groups, and has the environment of its configuration.
pub proof fn law_command_is_that_of_its_job(
    node: FilePath,
    runtime: FilePath,
    config: &DatabaseConfig,
    path: Option<String>,
    unix: bool,
    job: Job,
    r: NodeCommand,
)
    requires
        call_ensures(node_command, (node, runtime, config, path, unix, job), r),
    ensures
        r@ == job_command(node@, runtime@, config@, option_view(path), unix, job),
        r.program@ == node@,
        r.dir@ == runtime@,
        r.own_group == unix,
        texts(r.args@) == command_line(job),
        tells_the_server(vars(r.env@), runtime@, config@),
        match path {
            Some(p) => sets(vars(r.env@), "PATH"@, EnvValueView::Text(p@)),
            None => lacks(vars(r.env@), "PATH"@),
        },
{
    let shown = option_view(path);
    let c = job_command(node@, runtime@, config@, shown, unix, job);
    assert(r@ == c);
    assert(tells_the_server(c.env, runtime@, config@) && match shown {
        Some(p) => sets(c.env, "PATH"@, EnvValueView::Text(p)),
        None => lacks(c.env, "PATH"@),
    }) by {
        law_variables_hold_what_is_configured(node@, runtime@, config@, shown, unix, job);
    }
    assert(c.program == node@ && c.dir == runtime@ && c.own_group == unix && c.args == command_line(
        job,
    )) by {
        law_commands_have_their_words(node@, runtime@, config@, shown, unix, job);
    }
}

/// The command of a job, as the procedures ask for it, has the words of that job.
pub proof fn law_commands_have_their_words(
    node: PathView,
    runtime: PathView,
    config: ConfigView,
    path: Option<Text>,
    unix: bool,
    job: Job,
)
    ensures
        ({
            let c = job_command(node, runtime, config, path, unix, job);
            &&& c.program == node
            &&& c.dir == runtime
            &&& c.own_group == unix
            &&& c.args == command_line(job)
        }),
{
    law_one_port();
    assert(seq![job.script()] + job.args() =~= command_line(job));
}

/// A job that did not succeed is told with its words, and the registration by its name.
pub proof fn law_failures_name_their_job(job: Job, r: String)
    requires
        call_ensures(Job::failure_text, (job,), r),
    ensures
        r@ == job.failure(),
        job == Job::Install ==> r@ == "NocoBase 命令执行失败：install"@,
        job == Job::EnablePlugin ==> r@
            == "NocoBase 命令执行失败：pm enable @tommyfgj/plugin-data-source-readonly-mysql"@,
        job == Job::Register ==> r@ == "nb desktop 环境注册失败"@,
{
    lemma_failures();
}

proof fn lemma_failures()
    ensures
        Job::Install.failure() == "NocoBase 命令执行失败：install"@,
        Job::EnablePlugin.failure()
            == "NocoBase 命令执行失败：pm enable @tommyfgj/plugin-data-source-readonly-mysql"@,
{
    reveal_strlit("NocoBase 命令执行失败：");
    reveal_strlit("NocoBase 命令执行失败：install");
    reveal_strlit(
        "NocoBase 命令执行失败：pm enable @tommyfgj/plugin-data-source-readonly-mysql",
    );
    reveal_strlit("install");
    reveal_strlit("pm");
    reveal_strlit("enable");
    reveal_strlit("@tommyfgj/plugin-data-source-readonly-mysql");
    reveal_strlit(" ");
    reveal_with_fuel(joined, 4);
    assert(Job::Install.failure() =~= "NocoBase 命令执行失败：install"@);
    assert(Job::EnablePlugin.args().drop_last().drop_last()[0] == "pm"@);
    assert(Job::EnablePlugin.failure()
        =~= "NocoBase 命令执行失败：pm enable @tommyfgj/plugin-data-source-readonly-mysql"@);
}

/// The messages of the jobs, as the procedures end with them.
pub proof fn law_failure_messages()
    ensures
        Job::Install.failure() == "NocoBase 命令执行失败：install"@,
        Job::EnablePlugin.failure()
            == "NocoBase 命令执行失败：pm enable @tommyfgj/plugin-data-source-readonly-mysql"@,
        Job::Register.failure() == "nb desktop 环境注册失败"@,
{
    lemma_failures();
}

/// The launcher is a shell script that enters the given runtime first and then runs the given
/// Node.js with the script of `nb` and all its own arguments.
pub proof fn law_launcher_enters_the_runtime_and_runs_node(runtime: &str, node: &str, r: String)
    requires
        call_ensures(launcher_text, (runtime, node), r),
    ensures
        r@ == launcher_script(runtime@, node@),
        r@ == ("#!/bin/sh\ncd '"@ + runtime@ + "'\n"@) + ("exec '"@ + node@
            + "' 'node_modules/@nocobase/cli/bin/run.js' \"$@\"\n"@),
{
    law_launcher_script_is_whole(runtime@, node@);
}

/// The script of the launcher, for all paths.
pub proof fn law_launcher_script_is_whole(runtime: Text, node: Text)
    ensures
        launcher_script(runtime, node) == ("#!/bin/sh\ncd '"@ + runtime + "'\n"@) + ("exec '"@
            + node + "' 'node_modules/@nocobase/cli/bin/run.js' \"$@\"\n"@),
{
    reveal_strlit("#!/bin/sh\ncd '");
    reveal_strlit("'\n");
    reveal_strlit("exec '");
    reveal_strlit("'\nexec '");
    reveal_strlit("' 'node_modules/@nocobase/cli/bin/run.js' \"$@\"\n");
    assert("'\nexec '"@ =~= "'\n"@ + "exec '"@);
    assert(launcher_script(runtime, node) =~= ("#!/bin/sh\ncd '"@ + runtime + "'\n"@) + ("exec '"@
        + node + "' 'node_modules/@nocobase/cli/bin/run.js' \"$@\"\n"@));
}

/// The search path is what stands behind the last mark, trimmed; there is none where nothing is
/// left of it or where there is no mark at all.
pub proof fn law_path_stands_behind_the_last_mark(printed: Text, noise: Text, path: Text)
    ensures
        !holds_part(printed, "__NOCOBASE_DESKTOP_PATH__"@) ==> path_behind_mark(printed) is None,
        printed == noise + "__NOCOBASE_DESKTOP_PATH__"@ + path && (forall|j: int|
            noise.len() < j ==> !#[trigger] occurs_at(printed, "__NOCOBASE_DESKTOP_PATH__"@, j))
            ==> path_behind_mark(printed) == if trimmed(path).len() > 0 {
            Some(trimmed(path))
        } else {
            None
        },
{
    let mark = "__NOCOBASE_DESKTOP_PATH__"@;
    if printed == noise + mark + path && (forall|j: int|
        noise.len() < j ==> !#[trigger] occurs_at(printed, mark, j)) {
        let n = noise.len() as int;
        assert(printed.subrange(n, n + mark.len()) =~= mark);
        assert(is_last_occurrence(printed, mark, n));
        let i = choose|i: int| is_last_occurrence(printed, path_mark(), i);
        assert(i == n);
        assert(printed.skip(n + mark.len()) =~= path);
    }
}

/// The shell's answer counts exactly where the shell ran and succeeded and printed text; then the
/// search path is the one in the text that was printed.
pub proof fn law_shell_answer_is_read(
    output: Option<ProcessOutput>,
    r: Option<String>,
    printed: Text,
)
    requires
        call_ensures(login_shell_path, (output,), r),
    ensures
        option_view(r) == shell_path(option_view(output)),
        output is None ==> r is None,
        output matches Some(o) ==> (!o.success || !vstd::utf8::valid_utf8(o.stdout@) ==> r is None),
        output matches Some(o) ==> (o.success && o.stdout@ == vstd::utf8::encode_utf8(printed)
            ==> option_view(r) == path_behind_mark(printed)),
{
    broadcast use vstd::utf8::encode_utf8_decode_utf8;
    broadcast use vstd::utf8::encode_utf8_valid_utf8;

}

/// The same of the answer as the procedures take it.
pub proof fn law_shell_answers(printed: Text, bytes: Seq<u8>)
    ensures
        shell_path(None) is None,
        shell_path(Some(OutputView { success: false, stdout: bytes })) is None,
        !vstd::utf8::valid_utf8(bytes) ==> shell_path(
            Some(OutputView { success: true, stdout: bytes }),
        ) is None,
        shell_path(
            Some(OutputView { success: true, stdout: vstd::utf8::encode_utf8(printed) }),
        ) == path_behind_mark(printed),
{
    broadcast use vstd::utf8::encode_utf8_decode_utf8;
    broadcast use vstd::utf8::encode_utf8_valid_utf8;

}

/// The login shell is `zsh`, and it is asked to print the mark and its search path behind it.
pub proof fn law_shell_is_asked(r: (String, Vec<String>))
    requires
        call_ensures(shell_query, (), r),
    ensures
        r.0@ == "/bin/zsh"@,
        texts(r.1@) == seq!["-lc"@, "printf '__NOCOBASE_DESKTOP_PATH__%s' \"$PATH\""@],
        shell_query_args() == seq!["-lc"@, "printf '__NOCOBASE_DESKTOP_PATH__%s' \"$PATH\""@],
{
}

/// The text behind the mark is found by the executable search.
pub proof fn law_marked_path_is_found(printed: &str, r: Option<String>, noise: Text, path: Text)
    requires
        call_ensures(marked_path, (printed,), r),
    ensures
        !holds_part(printed@, "__NOCOBASE_DESKTOP_PATH__"@) ==> r is None,
        printed@ == noise + "__NOCOBASE_DESKTOP_PATH__"@ + path && (forall|j: int|
            noise.len() < j ==> !#[trigger] occurs_at(printed@, "__NOCOBASE_DESKTOP_PATH__"@, j))
            ==> option_view(r) == if trimmed(path).len() > 0 {
            Some(trimmed(path))
        } else {
            None
        },
{
    law_path_stands_behind_the_last_mark(printed@, noise, path);
}

} // verus!
