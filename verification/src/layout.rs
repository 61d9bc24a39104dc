//! Where the application keeps its files.
//!
//! Everything it writes lies in `~/.nocobase-desktop`: the runtime, the database
//! configuration, the log and the `nb` launcher.
use vstd::prelude::*;

use crate::path::{FilePath, PathView, Root};
use crate::text::{result_view, Text};

verus! {

/// The port of the local server, the same in every installation.
pub const APP_PORT: u16 = 14300;

/// What is known of the machine and of the installation when a command begins.
#[derive(Debug, PartialEq, Eq)]
pub struct Host {
    /// Files have modes, and processes have groups and signals.
    pub unix: bool,
    /// The home directory of the user is known.
    pub home_found: bool,
    /// The directory of the bundled resources is known; otherwise, why it is not.
    pub resources: Result<(), String>,
    /// The version of this application.
    pub version: String,
}

/// The mathematical model of a `Host`.
pub struct HostView {
    pub unix: bool,
    pub home_found: bool,
    pub resources: Result<(), Text>,
    pub version: Text,
}

impl View for Host {
    type V = HostView;

    open spec fn view(&self) -> HostView {
        HostView {
            unix: self.unix,
            home_found: self.home_found,
            resources: result_view(self.resources),
            version: self.version@,
        }
    }
}

/// The message of a command that needs the home directory where it is not known.
pub open spec fn home_unknown() -> Text {
    "无法确定 HOME 目录"@
}

/// `~/.nocobase-desktop`
pub open spec fn data_dir() -> PathView {
    PathView { root: Root::Home, parts: Seq::empty() }.join(".nocobase-desktop"@)
}

/// `~/.nocobase-desktop/runtime`
pub open spec fn runtime() -> PathView {
    data_dir().join("runtime"@)
}

/// `~/.nocobase-desktop/database.json`
pub open spec fn config_file() -> PathView {
    data_dir().join("database.json"@)
}

/// `~/.nocobase-desktop/logs`
pub open spec fn log_dir() -> PathView {
    data_dir().join("logs"@)
}

/// `~/.nocobase-desktop/logs/nocobase.log`
pub open spec fn log_file() -> PathView {
    log_dir().join("nocobase.log"@)
}

/// `~/.nocobase-desktop/bin`
pub open spec fn bin_dir() -> PathView {
    data_dir().join("bin"@)
}

/// `~/.nocobase-desktop/bin/nb`
pub open spec fn launcher_file() -> PathView {
    bin_dir().join("nb"@)
}

/// The file that holds the version by which the runtime was unpacked.
pub open spec fn ready_marker() -> PathView {
    runtime().join(".desktop-runtime-ready"@)
}

/// The file whose presence says that NocoBase has been set up.
pub open spec fn initialized_marker() -> PathView {
    runtime().join(".nocobase-initialized"@)
}

/// The file whose presence says that the `nb` environment has been registered.
pub open spec fn nb_marker() -> PathView {
    runtime().join(".nb-desktop-initialized"@)
}

/// The directory of the files that belong to the user.
pub open spec fn storage() -> PathView {
    runtime().join("storage"@)
}

/// Where the user's files stay while the runtime is replaced. `id` tells one replacement
/// from another.
pub open spec fn storage_backup(id: Text) -> PathView {
    data_dir().join(".storage-upgrade-"@ + id)
}

/// A bundled resource, in the nested directory or directly in the root.
pub open spec fn resource(name: Text, nested: bool) -> PathView {
    let root = PathView { root: Root::Resources, parts: Seq::empty() };
    if nested {
        root.join("resources"@).join(name)
    } else {
        root.join(name)
    }
}

/// What needs the home directory: `value` where it is known.
pub open spec fn with_home<T>(host: HostView, value: T) -> Result<T, Text> {
    if host.home_found {
        Ok(value)
    } else {
        Err(home_unknown())
    }
}

/// Whether the home directory is known.
pub fn need_home(host: &Host) -> (r: Result<(), String>)
    ensures
        result_view(r) == with_home(host@, ()),
{
    if host.home_found {
        Ok(())
    } else {
        Err("无法确定 HOME 目录".to_owned())
    }
}

/// Whether the directory of the bundled resources is known.
pub fn need_resources(host: &Host) -> (r: Result<(), String>)
    ensures
        result_view(r) == host@.resources,
{
    match &host.resources {
        Ok(_) => Ok(()),
        Err(m) => Err(m.clone()),
    }
}

pub(crate) fn data_dir_path() -> (r: FilePath)
    ensures
        r@ == data_dir(),
{
    FilePath::at(Root::Home).join(".nocobase-desktop")
}

pub(crate) fn runtime_path() -> (r: FilePath)
    ensures
        r@ == runtime(),
{
    data_dir_path().join("runtime")
}

pub(crate) fn config_file_path() -> (r: FilePath)
    ensures
        r@ == config_file(),
{
    data_dir_path().join("database.json")
}

pub(crate) fn log_dir_path() -> (r: FilePath)
    ensures
        r@ == log_dir(),
{
    data_dir_path().join("logs")
}

pub(crate) fn log_file_path() -> (r: FilePath)
    ensures
        r@ == log_file(),
{
    log_dir_path().join("nocobase.log")
}

pub(crate) fn bin_dir_path() -> (r: FilePath)
    ensures
        r@ == bin_dir(),
{
    data_dir_path().join("bin")
}

pub(crate) fn launcher_file_path() -> (r: FilePath)
    ensures
        r@ == launcher_file(),
{
    bin_dir_path().join("nb")
}

pub(crate) fn ready_marker_path() -> (r: FilePath)
    ensures
        r@ == ready_marker(),
{
    runtime_path().join(".desktop-runtime-ready")
}

pub(crate) fn initialized_marker_path() -> (r: FilePath)
    ensures
        r@ == initialized_marker(),
{
    runtime_path().join(".nocobase-initialized")
}

pub(crate) fn nb_marker_path() -> (r: FilePath)
    ensures
        r@ == nb_marker(),
{
    runtime_path().join(".nb-desktop-initialized")
}

pub(crate) fn storage_path() -> (r: FilePath)
    ensures
        r@ == storage(),
{
    runtime_path().join("storage")
}

/// `~/.nocobase-desktop`, where the home directory is known.
pub fn app_data_dir(host: &Host) -> (r: Result<FilePath, String>)
    ensures
        result_view(r) == with_home(host@, data_dir()),
{
    match need_home(host) {
        Ok(_) => Ok(data_dir_path()),
        Err(m) => Err(m),
    }
}

/// The directory of the unpacked runtime, where the home directory is known.
pub fn runtime_dir(host: &Host) -> (r: Result<FilePath, String>)
    ensures
        result_view(r) == with_home(host@, runtime()),
{
    match app_data_dir(host) {
        Ok(dir) => Ok(dir.join("runtime")),
        Err(m) => Err(m),
    }
}

/// The file of the database configuration, where the home directory is known.
pub fn config_path(host: &Host) -> (r: Result<FilePath, String>)
    ensures
        result_view(r) == with_home(host@, config_file()),
{
    match app_data_dir(host) {
        Ok(dir) => Ok(dir.join("database.json")),
        Err(m) => Err(m),
    }
}

/// The file of the log, where the home directory is known.
pub fn log_path(host: &Host) -> (r: Result<FilePath, String>)
    ensures
        result_view(r) == with_home(host@, log_file()),
{
    match app_data_dir(host) {
        Ok(dir) => Ok(dir.join("logs").join("nocobase.log")),
        Err(m) => Err(m),
    }
}

/// The sibling of `runtime` that keeps the user's files during a replacement, where
/// `runtime` lies in a directory.
pub fn storage_backup_path(runtime: &FilePath, id: &str) -> (r: Result<FilePath, String>)
    ensures
        result_view(r) == match runtime@.parent() {
            Some(dir) => Ok(dir.join(".storage-upgrade-"@ + id@)),
            None => Err("运行时目录没有父目录"@),
        },
{
    match runtime.parent() {
        Some(dir) => {
            let name = ".storage-upgrade-".to_owned().concat(id);
            Ok(dir.join(name.as_str()))
        },
        None => Err("运行时目录没有父目录".to_owned()),
    }
}

/// The path of the bundled resource `name`, where it is known whether the nested one is
/// there.
pub fn bundled_resource(name: &str, nested: bool) -> (r: FilePath)
    ensures
        r@ == resource(name@, nested),
{
    let root = FilePath::at(Root::Resources);
    if nested {
        root.join("resources").join(name)
    } else {
        root.join(name)
    }
}

} // verus!
