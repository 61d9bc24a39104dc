use nocobase_desktop::layout::{
    app_data_dir, bundled_resource, config_path, log_path, runtime_dir, storage_backup_path, Host,
    APP_PORT,
};
use nocobase_desktop::path::{FilePath, Root};

fn host(home_found: bool) -> Host {
    Host { unix: true, home_found, resources: Ok(()), version: "1.2.3".to_string() }
}

fn parts(path: &FilePath) -> Vec<&str> {
    path.parts.iter().map(|p| p.as_str()).collect()
}

#[test]
fn port_is_fixed() {
    assert_eq!(APP_PORT, 14300);
}

#[test]
fn everything_lies_in_the_data_directory() {
    let host = host(true);
    assert_eq!(parts(&app_data_dir(&host).unwrap()), vec![".nocobase-desktop"]);
    assert_eq!(parts(&runtime_dir(&host).unwrap()), vec![".nocobase-desktop", "runtime"]);
    assert_eq!(parts(&config_path(&host).unwrap()), vec![".nocobase-desktop", "database.json"]);
    assert_eq!(
        parts(&log_path(&host).unwrap()),
        vec![".nocobase-desktop", "logs", "nocobase.log"]
    );
    assert_eq!(log_path(&host).unwrap().root, Root::Home);
}

#[test]
fn without_a_home_there_is_no_path() {
    let host = host(false);
    let message = "无法确定 HOME 目录".to_string();
    assert_eq!(app_data_dir(&host), Err(message.clone()));
    assert_eq!(runtime_dir(&host), Err(message.clone()));
    assert_eq!(config_path(&host), Err(message.clone()));
    assert_eq!(log_path(&host), Err(message));
}

#[test]
fn backup_is_a_sibling_of_the_runtime() {
    let runtime = runtime_dir(&host(true)).unwrap();
    let backup = storage_backup_path(&runtime, "42").unwrap();
    assert_eq!(parts(&backup), vec![".nocobase-desktop", ".storage-upgrade-42"]);
    assert_eq!(
        storage_backup_path(&FilePath::at(Root::Home), "42"),
        Err("运行时目录没有父目录".to_string())
    );
}

#[test]
fn resources_are_nested_or_flat() {
    let nested = bundled_resource("node", true);
    assert_eq!(nested.root, Root::Resources);
    assert_eq!(parts(&nested), vec!["resources", "node"]);
    assert_eq!(parts(&bundled_resource("node", false)), vec!["node"]);
}

#[test]
fn joining_and_parent_undo_each_other() {
    let dir = FilePath::at(Root::Home).join("a");
    assert_eq!(dir.join("b").parent(), Some(dir.clone()));
    assert_eq!(FilePath::at(Root::Home).parent(), None);
}
