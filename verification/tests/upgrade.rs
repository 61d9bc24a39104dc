use std::collections::BTreeMap;

use nocobase_desktop::effect::{Effect, Reply, Step};
use nocobase_desktop::layout::{runtime_dir, Host};
use nocobase_desktop::path::{FilePath, Root};
use nocobase_desktop::upgrade::{
    ensure_next, ensure_runtime, upgrade_id, EnsurePhase, Kept,
};

const ROOT: &str = "~/.nocobase-desktop";
const RUNTIME: &str = "~/.nocobase-desktop/runtime";

fn host(version: &str) -> Host {
    Host { unix: true, home_found: true, resources: Ok(()), version: version.to_string() }
}

fn shown(path: &FilePath) -> String {
    let root = match path.root {
        Root::Home => "~",
        Root::Resources => "@",
    };
    format!("{}/{}", root, path.parts.join("/"))
}

/// A disk of texts by their paths; a directory has the text `None`.
struct FakeDisk {
    files: BTreeMap<String, Option<String>>,
    failing: Option<usize>,
    log: Vec<String>,
}

impl FakeDisk {
    fn new(entries: &[(&str, Option<&str>)]) -> FakeDisk {
        FakeDisk {
            files: entries
                .iter()
                .map(|(p, t)| (p.to_string(), t.map(|t| t.to_string())))
                .collect(),
            failing: None,
            log: Vec::new(),
        }
    }

    fn text(&self, path: &str) -> Option<&str> {
        self.files.get(path).and_then(|t| t.as_deref())
    }

    fn tree(&self, dir: &str) -> Vec<String> {
        let below = format!("{}/", dir);
        self.files.keys().filter(|p| *p == dir || p.starts_with(&below)).cloned().collect()
    }

    fn perform(&mut self, effect: Effect) -> Reply {
        if self.failing == Some(self.log.len()) {
            self.log.push("failure".to_string());
            if let Effect::WriteText(p, t) = effect {
                self.files.insert(shown(&p), Some(t[..t.len() - 1].to_string()));
            }
            return Reply::Done(Err("no space".to_string()));
        }
        match effect {
            Effect::Exists(p) => {
                let p = shown(&p);
                self.log.push(format!("exists {}", p));
                Reply::Answer(self.files.contains_key(&p))
            }
            Effect::ReadText(p) => {
                let p = shown(&p);
                self.log.push(format!("read {}", p));
                Reply::Text(self.text(&p).map(|t| t.to_string()).ok_or("missing".to_string()))
            }
            Effect::CreateDirs(p) => {
                let p = shown(&p);
                self.log.push(format!("create {}", p));
                self.files.entry(p).or_insert(None);
                Reply::Done(Ok(()))
            }
            Effect::RemoveTree(p) => {
                let p = shown(&p);
                self.log.push(format!("remove {}", p));
                for q in self.tree(&p) {
                    self.files.remove(&q);
                }
                Reply::Done(Ok(()))
            }
            Effect::Rename(a, b) => {
                let (a, b) = (shown(&a), shown(&b));
                self.log.push(format!("move {} {}", a, b));
                for q in self.tree(&a) {
                    let text = self.files.remove(&q).unwrap();
                    self.files.insert(format!("{}{}", b, &q[a.len()..]), text);
                }
                Reply::Done(Ok(()))
            }
            Effect::WriteText(p, t) => {
                let p = shown(&p);
                self.log.push(format!("write {}", p));
                self.files.insert(p, Some(t));
                Reply::Done(Ok(()))
            }
            Effect::Unpack(a, p) => {
                let p = shown(&p);
                self.log.push(format!("unpack {} {}", shown(&a), p));
                self.files.insert(format!("{}/node_modules", p), None);
                self.files.insert(format!("{}/storage", p), None);
                self.files.insert(format!("{}/storage/sample", p), Some("new".to_string()));
                Reply::Done(Ok(()))
            }
            other => panic!("unexpected effect {:?}", other),
        }
    }

    fn ensure(&mut self, host: &Host, id: &str) -> Result<FilePath, String> {
        let mut step = ensure_runtime(host);
        loop {
            match step {
                Step::Perform(phase, effect) => {
                    let reply = self.perform(effect);
                    step = ensure_next(host, id, phase, reply);
                }
                Step::Finished(result) => return result,
            }
        }
    }
}

fn old_installation() -> FakeDisk {
    FakeDisk::new(&[
        ("~/.nocobase-desktop", None),
        ("~/.nocobase-desktop/database.json", Some("{}")),
        ("~/.nocobase-desktop/runtime", None),
        ("~/.nocobase-desktop/runtime/.desktop-runtime-ready", Some("1.0.0\n")),
        ("~/.nocobase-desktop/runtime/.nocobase-initialized", Some("ok")),
        ("~/.nocobase-desktop/runtime/old", Some("old")),
        ("~/.nocobase-desktop/runtime/storage", None),
        ("~/.nocobase-desktop/runtime/storage/mine", Some("precious")),
        ("@/resources/runtime.tar.gz", Some("archive")),
    ])
}

#[test]
fn runtime_of_the_same_version_is_left_alone() {
    let mut disk = old_installation();
    let before = disk.files.clone();
    let host = host("1.0.0");
    assert_eq!(disk.ensure(&host, "id"), runtime_dir(&host));
    assert_eq!(disk.files, before);
    assert_eq!(disk.log, vec!["read ~/.nocobase-desktop/runtime/.desktop-runtime-ready"]);
}

#[test]
fn replacing_the_runtime_keeps_the_files_of_the_user() {
    let mut disk = old_installation();
    let host = host("2.0.0");
    assert_eq!(disk.ensure(&host, "id"), runtime_dir(&host));
    assert_eq!(disk.text("~/.nocobase-desktop/runtime/storage/mine"), Some("precious"));
    assert!(disk.tree("~/.nocobase-desktop/.storage-upgrade-id").is_empty());
    assert_eq!(disk.text("~/.nocobase-desktop/runtime/storage/sample"), None);
    assert_eq!(disk.text("~/.nocobase-desktop/runtime/old"), None);
    assert_eq!(disk.text("~/.nocobase-desktop/runtime/.nocobase-initialized"), Some("ok"));
    assert_eq!(disk.text("~/.nocobase-desktop/runtime/.nb-desktop-initialized"), None);
    assert_eq!(disk.text("~/.nocobase-desktop/runtime/.desktop-runtime-ready"), Some("2.0.0"));
    assert_eq!(disk.text("~/.nocobase-desktop/database.json"), Some("{}"));
    assert_eq!(
        disk.log,
        vec![
            format!("read {}/.desktop-runtime-ready", RUNTIME),
            format!("exists {}/.nocobase-initialized", RUNTIME),
            format!("exists {}/.nb-desktop-initialized", RUNTIME),
            format!("exists {}/storage", RUNTIME),
            format!("move {}/storage {}/.storage-upgrade-id", RUNTIME, ROOT),
            format!("exists {}", RUNTIME),
            format!("remove {}", RUNTIME),
            format!("create {}", RUNTIME),
            "exists @/resources/runtime.tar.gz".to_string(),
            format!("unpack @/resources/runtime.tar.gz {}", RUNTIME),
            format!("exists {}/.storage-upgrade-id", ROOT),
            format!("exists {}/storage", RUNTIME),
            format!("remove {}/storage", RUNTIME),
            format!("move {}/.storage-upgrade-id {}/storage", ROOT, RUNTIME),
            format!("write {}/.nocobase-initialized", RUNTIME),
            format!("write {}/.desktop-runtime-ready", RUNTIME),
        ]
    );
}

#[test]
fn replaced_runtime_is_then_left_alone() {
    let mut disk = old_installation();
    let host = host("2.0.0");
    disk.ensure(&host, "id").unwrap();
    let after = disk.files.clone();
    disk.ensure(&host, "other").unwrap();
    assert_eq!(disk.files, after);
}

#[test]
fn first_runtime_is_unpacked_into_nothing() {
    let mut disk = FakeDisk::new(&[("@/runtime.tar.gz", Some("archive"))]);
    let host = host("2.0.0");
    assert_eq!(disk.ensure(&host, "id"), runtime_dir(&host));
    assert_eq!(disk.text("~/.nocobase-desktop/runtime/storage/sample"), Some("new"));
    assert_eq!(disk.text("~/.nocobase-desktop/runtime/.nocobase-initialized"), None);
    assert!(disk.log.contains(&format!("unpack @/runtime.tar.gz {}", RUNTIME)));
}

#[test]
fn both_marks_are_inherited() {
    let mut disk = old_installation();
    disk.files.insert(format!("{}/.nb-desktop-initialized", RUNTIME), Some("ok".to_string()));
    disk.ensure(&host("2.0.0"), "id").unwrap();
    assert_eq!(disk.text("~/.nocobase-desktop/runtime/.nb-desktop-initialized"), Some("ok"));
    assert_eq!(disk.text("~/.nocobase-desktop/runtime/.nocobase-initialized"), Some("ok"));
}

#[test]
fn failure_at_any_point_loses_nothing_of_the_user() {
    for failing in [4, 6, 7, 9, 12, 13, 14, 15] {
        let mut disk = old_installation();
        disk.failing = Some(failing);
        assert_eq!(disk.ensure(&host("2.0.0"), "id"), Err("no space".to_string()));
        let in_place = disk.text("~/.nocobase-desktop/runtime/storage/mine");
        let aside = disk.text("~/.nocobase-desktop/.storage-upgrade-id/mine");
        assert_eq!(in_place.or(aside), Some("precious"));
    }
}

#[test]
fn replaced_runtime_holds_what_the_archive_holds() {
    let mut disk = old_installation();
    disk.ensure(&host("2.0.0"), "id").unwrap();
    assert_eq!(
        disk.tree(RUNTIME),
        vec![
            RUNTIME.to_string(),
            format!("{}/.desktop-runtime-ready", RUNTIME),
            format!("{}/.nocobase-initialized", RUNTIME),
            format!("{}/node_modules", RUNTIME),
            format!("{}/storage", RUNTIME),
            format!("{}/storage/mine", RUNTIME),
        ]
    );
    let mut disk = FakeDisk::new(&[
        (ROOT, None),
        ("~/.nocobase-desktop/runtime", None),
        ("~/.nocobase-desktop/runtime/old", Some("old")),
    ]);
    disk.ensure(&host("2.0.0"), "id").unwrap();
    assert_eq!(
        disk.tree(RUNTIME),
        vec![
            RUNTIME.to_string(),
            format!("{}/.desktop-runtime-ready", RUNTIME),
            format!("{}/node_modules", RUNTIME),
            format!("{}/storage", RUNTIME),
            format!("{}/storage/sample", RUNTIME),
        ]
    );
}

#[test]
fn failed_replacement_is_not_marked() {
    for failing in [4, 6, 7, 9, 12, 13, 14, 15] {
        let mut disk = old_installation();
        disk.failing = Some(failing);
        assert!(disk.ensure(&host("2.0.0"), "id").is_err());
        let mark = disk.text("~/.nocobase-desktop/runtime/.desktop-runtime-ready");
        assert_ne!(mark, Some("2.0.0"));
        assert!(!disk.log.contains(&format!("write {}/.desktop-runtime-ready", RUNTIME)));
        disk.failing = None;
        disk.log.clear();
        assert!(disk.ensure(&host("2.0.0"), "other").is_ok());
        assert!(disk.log.contains(&format!("unpack @/resources/runtime.tar.gz {}", RUNTIME)));
    }
}

#[test]
fn unknown_directories_are_told() {
    let mut lost = host("2.0.0");
    lost.home_found = false;
    assert_eq!(
        ensure_runtime(&lost),
        Step::Finished(Err("无法确定 HOME 目录".to_string()))
    );
    let mut bare = host("2.0.0");
    bare.resources = Err("no resources".to_string());
    let kept = Kept { initialized: false, nb_initialized: false };
    assert_eq!(
        ensure_next(&bare, "id", EnsurePhase::CreateRuntime(kept), Reply::Done(Ok(()))),
        Step::Finished(Err("no resources".to_string()))
    );
}

#[test]
fn identifiers_of_replacements_differ() {
    let (a, b) = (upgrade_id(), upgrade_id());
    assert_ne!(a, b);
    assert_eq!(a.len(), 36);
}
