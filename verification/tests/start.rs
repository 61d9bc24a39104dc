use nocobase_desktop::cli::{install_nb_cli, install_nb_cli_next};
use nocobase_desktop::config::DatabaseConfig;
use nocobase_desktop::effect::{ChildState, Effect, Reply, Step};
use nocobase_desktop::layout::{bundled_resource, Host};
use nocobase_desktop::path::FilePath;
use nocobase_desktop::start::{start_runtime, start_runtime_next};
use nocobase_desktop::status::{runtime_status, runtime_status_next, url, StatusPhase};
use nocobase_desktop::window::{
    open_nocobase, open_nocobase_next, WindowPhase, ADDRESS_BAR_SCRIPT,
};

const READY: &str = "HTTP/1.1 200 OK\r\nContent-Type: application/json\r\n\r\n{}";

fn host(unix: bool) -> Host {
    Host { unix, home_found: true, resources: Ok(()), version: "1.2.3".to_string() }
}

fn last(path: &FilePath) -> &str {
    path.parts.last().map_or("", |p| p.as_str())
}

/// A world that is told how it is, and writes down what it is asked.
struct World {
    marked: bool,
    registered: bool,
    child: ChildState,
    commands_succeed: bool,
    disk_full: bool,
    log: Vec<String>,
}

impl World {
    fn new(marked: bool, registered: bool, child: ChildState) -> World {
        World {
            marked,
            registered,
            child,
            commands_succeed: true,
            disk_full: false,
            log: Vec::new(),
        }
    }

    fn perform(&mut self, effect: Effect) -> Reply {
        match effect {
            Effect::Exists(p) => Reply::Answer(match last(&p) {
                ".nocobase-initialized" => self.marked,
                ".nb-desktop-initialized" => self.registered,
                "node" => p == bundled_resource("node", true),
                _ => false,
            }),
            Effect::ReadText(_) => Reply::Text(Ok(" 1.2.3\n".to_string())),
            Effect::CreateDirs(p) => {
                self.log.push(format!("create {}", last(&p)));
                Reply::Done(Ok(()))
            }
            Effect::EncodeConfig(_) => Reply::Bytes(Ok(vec![1])),
            Effect::WriteBytes(_, _) if self.disk_full => Reply::Done(Err("no space".to_string())),
            Effect::WriteBytes(p, b) => {
                self.log.push(format!("write {} {:?}", last(&p), b));
                Reply::Done(Ok(()))
            }
            Effect::WriteText(p, t) => {
                self.log.push(format!("write {} {}", last(&p), t.replace('\n', "|")));
                Reply::Done(Ok(()))
            }
            Effect::SetMode(p, m) => {
                self.log.push(format!("mode {} {:o}", last(&p), m));
                Reply::Done(Ok(()))
            }
            Effect::OpenLog(p) => {
                self.log.push(format!("log {}", last(&p)));
                Reply::Done(Ok(()))
            }
            Effect::Capture(program, _) => {
                self.log.push(format!("ask {}", program));
                Reply::Output(None)
            }
            Effect::Run(c) => {
                self.log.push(format!("run {}", c.args[1]));
                Reply::Status(Ok(self.commands_succeed))
            }
            Effect::Spawn(c) => {
                self.log.push(format!("spawn {}", c.args.join(" ")));
                Reply::Done(Ok(()))
            }
            Effect::Request(_) => {
                self.log.push("request".to_string());
                Reply::Text(Ok(READY.to_string()))
            }
            Effect::LockChild => {
                self.log.push("lock".to_string());
                Reply::Done(Ok(()))
            }
            Effect::UnlockChild => {
                self.log.push("unlock".to_string());
                Reply::Done(Ok(()))
            }
            Effect::PollChild => {
                self.log.push("poll".to_string());
                Reply::Child(Ok(self.child))
            }
            Effect::ForgetChild => {
                self.log.push("forget".to_string());
                Reply::Done(Ok(()))
            }
            Effect::Display(p) => Reply::Text(Ok(format!("/{}", p.parts.join("/")))),
            other => panic!("unexpected effect {:?}", other),
        }
    }

    fn start(&mut self, host: &Host) -> Result<(), String> {
        let config = DatabaseConfig::with_app_key("k".to_string());
        let mut step = start_runtime(host);
        loop {
            match step {
                Step::Perform(phase, effect) => {
                    let reply = self.perform(effect);
                    step = start_runtime_next(host, &config, "id", phase, reply);
                }
                Step::Finished(result) => return result,
            }
        }
    }
}

#[test]
fn first_start_sets_up_serves_and_registers() {
    let mut world = World::new(false, false, ChildState::Absent);
    assert_eq!(world.start(&host(true)), Ok(()));
    assert_eq!(
        world.log,
        vec![
            "create .nocobase-desktop",
            "write database.json [1]",
            "mode database.json 600",
            "ask /bin/zsh",
            "create logs",
            "log nocobase.log",
            "run install",
            "ask /bin/zsh",
            "create logs",
            "log nocobase.log",
            "run pm",
            "write .nocobase-initialized ok",
            "lock",
            "poll",
            "ask /bin/zsh",
            "create logs",
            "log nocobase.log",
            "spawn node_modules/@nocobase/cli-v1/bin/index.js start --launch-mode node --port 14300",
            "unlock",
            "request",
            "create bin",
            "write nb #!/bin/sh|cd '/.nocobase-desktop/runtime'|exec '/resources/node' 'node_modules/@nocobase/cli/bin/run.js' \"$@\"|",
            "mode nb 755",
            "ask /bin/zsh",
            "create logs",
            "log nocobase.log",
            "run init",
            "write .nb-desktop-initialized ok",
        ]
    );
}

#[test]
fn later_start_only_serves() {
    let mut world = World::new(true, true, ChildState::Exited);
    assert_eq!(world.start(&host(false)), Ok(()));
    assert_eq!(
        world.log,
        vec![
            "create .nocobase-desktop",
            "write database.json [1]",
            "lock",
            "poll",
            "create logs",
            "log nocobase.log",
            "spawn node_modules/@nocobase/cli-v1/bin/index.js start --launch-mode node --port 14300",
            "unlock",
            "request",
        ]
    );
}

#[test]
fn running_server_is_not_started_again() {
    let mut world = World::new(true, false, ChildState::Running);
    assert_eq!(world.start(&host(true)), Ok(()));
    assert_eq!(world.log.last(), Some(&"poll".to_string()));
}

#[test]
fn failed_save_ends_starting() {
    let mut world = World::new(false, false, ChildState::Absent);
    world.disk_full = true;
    assert_eq!(world.start(&host(true)), Err("no space".to_string()));
    assert_eq!(world.log, vec!["create .nocobase-desktop"]);
}

#[test]
fn configuration_is_written_once_however_starting_ends() {
    for (commands_succeed, child) in [
        (true, ChildState::Absent),
        (false, ChildState::Absent),
        (true, ChildState::Running),
    ] {
        let mut world = World::new(false, false, child);
        world.commands_succeed = commands_succeed;
        assert_eq!(world.start(&host(true)).is_ok(), commands_succeed);
        let writes = world.log.iter().filter(|l| l.starts_with("write database.json")).count();
        assert_eq!(writes, 1);
        assert_eq!(world.log[1], "write database.json [1]");
    }
}

#[test]
fn failed_setup_is_told_and_not_marked() {
    let mut world = World::new(false, false, ChildState::Absent);
    world.commands_succeed = false;
    assert_eq!(
        world.start(&host(true)),
        Err("NocoBase 命令执行失败：install".to_string())
    );
    assert!(!world.log.iter().any(|l| l.starts_with("write .nocobase")));
}

#[test]
fn failed_registration_is_told_and_not_marked() {
    let mut world = World::new(true, false, ChildState::Absent);
    world.commands_succeed = false;
    assert_eq!(world.start(&host(true)), Err("nb desktop 环境注册失败".to_string()));
    assert!(!world.log.iter().any(|l| l.starts_with("write .nb")));
}

#[test]
fn start_without_resources_is_told() {
    let mut bare = host(true);
    bare.resources = Err("no resources".to_string());
    let mut world = World::new(true, true, ChildState::Absent);
    assert_eq!(world.start(&bare), Err("no resources".to_string()));
}

fn status(host: &Host, child: ChildState, reachable: bool) -> (World, String) {
    let mut world = World::new(true, true, child);
    let mut step = runtime_status();
    loop {
        match step {
            Step::Perform(phase, effect) => {
                let reply = match effect {
                    Effect::Connect(port, millis) => {
                        assert_eq!((port, millis), (14300, 200));
                        Reply::Answer(reachable)
                    }
                    other => world.perform(other),
                };
                step = runtime_status_next(host, phase, reply);
            }
            Step::Finished(Ok(s)) => {
                let text = format!("{} {} {} {}", s.running, s.url, s.runtime_ready, s.log_path);
                return (world, text);
            }
            Step::Finished(Err(m)) => return (world, m),
        }
    }
}

#[test]
fn status_joins_child_and_port() {
    let host = host(true);
    let log = "/.nocobase-desktop/logs/nocobase.log";
    let (world, text) = status(&host, ChildState::Running, false);
    assert_eq!(text, format!("true http://127.0.0.1:14300 false {}", log));
    assert_eq!(world.log, vec!["lock", "poll"]);
    let (world, text) = status(&host, ChildState::Exited, false);
    assert_eq!(text, format!("false http://127.0.0.1:14300 false {}", log));
    assert_eq!(world.log, vec!["lock", "poll", "forget"]);
    let (_, text) = status(&host, ChildState::Absent, true);
    assert_eq!(text, format!("true http://127.0.0.1:14300 false {}", log));
}

#[test]
fn status_needs_a_home() {
    let mut lost = host(true);
    lost.home_found = false;
    assert_eq!(status(&lost, ChildState::Absent, true).1, "无法确定 HOME 目录");
}

#[test]
fn status_tells_failures_of_the_child() {
    let reply = Reply::Child(Err("lost".to_string()));
    assert_eq!(
        runtime_status_next(&host(true), StatusPhase::Poll, reply),
        Step::Finished(Err("lost".to_string()))
    );
}

#[test]
fn cli_is_installed_and_its_path_shown() {
    let host = host(true);
    let mut world = World::new(true, true, ChildState::Absent);
    let mut step = install_nb_cli(&host);
    let shown = loop {
        match step {
            Step::Perform(phase, effect) => {
                let reply = world.perform(effect);
                step = install_nb_cli_next(&host, "id", phase, reply);
            }
            Step::Finished(result) => break result,
        }
    };
    assert_eq!(shown, Ok("/.nocobase-desktop/bin/nb".to_string()));
    assert_eq!(world.log.last(), Some(&"mode nb 755".to_string()));
}

#[test]
fn open_window_is_reused() {
    assert_eq!(url(), "http://127.0.0.1:14300");
    let phase = match open_nocobase() {
        Step::Perform(phase, Effect::FindWindow(label)) => {
            assert_eq!(label, "nocobase");
            phase
        }
        other => panic!("unexpected step {:?}", other),
    };
    let phase = match open_nocobase_next(phase, Reply::Answer(true)) {
        Step::Perform(phase, Effect::Navigate(label, address)) => {
            assert_eq!(label, "nocobase");
            assert_eq!(address, url());
            phase
        }
        other => panic!("unexpected step {:?}", other),
    };
    let phase = match open_nocobase_next(phase, Reply::Done(Ok(()))) {
        Step::Perform(phase, Effect::FocusWindow(label)) => {
            assert_eq!(label, "nocobase");
            phase
        }
        other => panic!("unexpected step {:?}", other),
    };
    assert_eq!(open_nocobase_next(phase, Reply::Done(Ok(()))), Step::Finished(Ok(())));
}

#[test]
fn missing_window_is_opened() {
    match open_nocobase_next(WindowPhase::Find, Reply::Answer(false)) {
        Step::Perform(phase, Effect::OpenWindow(window)) => {
            assert_eq!(window.label, "nocobase");
            assert_eq!(window.title, "NocoBase");
            assert_eq!(window.url, url());
            assert_eq!((window.width, window.height), (1280, 840));
            assert_eq!(window.page_script, ADDRESS_BAR_SCRIPT);
            assert_eq!(
                open_nocobase_next(phase, Reply::Done(Err("no display".to_string()))),
                Step::Finished(Err("no display".to_string()))
            );
        }
        other => panic!("unexpected step {:?}", other),
    }
    assert!(ADDRESS_BAR_SCRIPT.contains("nocobase-desktop-address-bar"));
}
