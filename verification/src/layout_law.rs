//! What holds of the places that the application uses.
use vstd::prelude::*;

use crate::cli::{cli_first, cli_step, CliView};
use crate::config::{is_random_id, ConfigView};
use crate::config_store::{save_first, save_step, SavePhase};
use crate::disk::{is_about_files, performs, same_at, Disk, Node};
use crate::effect::{asked, EffectView, ReplyView};
use crate::layout::{
    app_data_dir, bin_dir, bundled_resource, config_file, config_path, data_dir, home_unknown,
    initialized_marker, launcher_file, log_dir, log_file, log_path, nb_marker, need_home,
    need_resources, ready_marker, resource, runtime, runtime_dir, storage, storage_backup,
    storage_backup_path, Host, HostView,
};
use crate::path::{is_plain_name, FilePath, PathView, Root};
use crate::start::{start_first, start_step, StartView};
use crate::text::{texts, Text};
use crate::upgrade_law::law_other_files_lie_apart;

verus! {

/// No character of the name is a separator.
spec fn no_separator(name: Text) -> bool {
    forall|i: int| 0 <= i < name.len() ==> #[trigger] name[i] != '/' && name[i] != '\\'
}

proof fn lemma_plain(name: Text)
    requires
        name.len() > 2 || (name.len() == 2 && name[0] != '.'),
        no_separator(name),
    ensures
        is_plain_name(name),
{
    assert(seq!['.'].len() == 1);
    assert(seq!['.', '.'][0] == '.');
}

proof fn lemma_plain_names()
    ensures
        is_plain_name(".nocobase-desktop"@),
        is_plain_name("runtime"@),
        is_plain_name("database.json"@),
        is_plain_name("logs"@),
        is_plain_name("nocobase.log"@),
        is_plain_name("bin"@),
        is_plain_name("nb"@),
        is_plain_name(".desktop-runtime-ready"@),
        is_plain_name(".nocobase-initialized"@),
        is_plain_name(".nb-desktop-initialized"@),
        is_plain_name("storage"@),
{
    reveal_strlit(".nocobase-desktop");
    lemma_plain(".nocobase-desktop"@);
    reveal_strlit("runtime");
    lemma_plain("runtime"@);
    reveal_strlit("database.json");
    lemma_plain("database.json"@);
    reveal_strlit("logs");
    lemma_plain("logs"@);
    reveal_strlit("nocobase.log");
    lemma_plain("nocobase.log"@);
    reveal_strlit("bin");
    lemma_plain("bin"@);
    reveal_strlit("nb");
    lemma_plain("nb"@);
    reveal_strlit(".desktop-runtime-ready");
    lemma_plain(".desktop-runtime-ready"@);
    reveal_strlit(".nocobase-initialized");
    lemma_plain(".nocobase-initialized"@);
    reveal_strlit(".nb-desktop-initialized");
    lemma_plain(".nb-desktop-initialized"@);
    reveal_strlit("storage");
    lemma_plain("storage"@);
}

proof fn lemma_plain_backup(id: Text)
    requires
        is_random_id(id),
    ensures
        is_plain_name(".storage-upgrade-"@ + id),
{
    reveal_strlit(".storage-upgrade-");
    let name = ".storage-upgrade-"@ + id;
    assert forall|i: int| 0 <= i < name.len() implies name[i] != '/' && name[i] != '\\' by {
        if i >= 17 {
            assert(name[i] == id[i - 17]);
        } else {
            assert(name[i] == ".storage-upgrade-"@[i]);
        }
    }
    lemma_plain(name);
}

/// Every name of a path joins as one component, so that a path lies below its directory and
/// nowhere else.
pub proof fn law_paths_are_plain(id: Text)
    requires
        is_random_id(id),
    ensures
        data_dir().plain(),
        runtime().plain(),
        config_file().plain(),
        log_dir().plain(),
        log_file().plain(),
        bin_dir().plain(),
        launcher_file().plain(),
        ready_marker().plain(),
        initialized_marker().plain(),
        nb_marker().plain(),
        storage().plain(),
        storage_backup(id).plain(),
{
    lemma_plain_names();
    lemma_plain_backup(id);
}

/// Whatever the effect writes, moves or removes lies in `dir`.
pub open spec fn stays_in(e: EffectView, dir: PathView) -> bool {
    match e {
        EffectView::CreateDirs(p) => p.within(dir),
        EffectView::RemoveTree(p) => p.within(dir),
        EffectView::Rename(a, b) => a.within(dir) && b.within(dir),
        EffectView::WriteText(p, _) => p.within(dir),
        EffectView::WriteBytes(p, _) => p.within(dir),
        EffectView::SetMode(p, _) => p.within(dir),
        EffectView::Unpack(_, p) => p.within(dir),
        EffectView::OpenLog(p) => p.within(dir),
        _ => true,
    }
}

proof fn lemma_all_in_data_dir(id: Text)
    ensures
        data_dir().within(data_dir()),
        runtime().within(data_dir()),
        config_file().within(data_dir()),
        log_dir().within(data_dir()),
        log_file().within(data_dir()),
        bin_dir().within(data_dir()),
        launcher_file().within(data_dir()),
        ready_marker().within(data_dir()),
        initialized_marker().within(data_dir()),
        nb_marker().within(data_dir()),
        storage().within(data_dir()),
        storage_backup(id).within(data_dir()),
{
    let d = data_dir().parts;
    assert(runtime().parts.subrange(0, 1) =~= d);
    assert(config_file().parts.subrange(0, 1) =~= d);
    assert(log_dir().parts.subrange(0, 1) =~= d);
    assert(log_file().parts.subrange(0, 1) =~= d);
    assert(bin_dir().parts.subrange(0, 1) =~= d);
    assert(launcher_file().parts.subrange(0, 1) =~= d);
    assert(ready_marker().parts.subrange(0, 1) =~= d);
    assert(initialized_marker().parts.subrange(0, 1) =~= d);
    assert(nb_marker().parts.subrange(0, 1) =~= d);
    assert(storage().parts.subrange(0, 1) =~= d);
    assert(storage_backup(id).parts.subrange(0, 1) =~= d);
}

/// The application writes nowhere but in `~/.nocobase-desktop`: no procedure that touches
/// files asks for anything else, whatever the replies.
#[verifier::rlimit(60)]
pub proof fn law_files_stay_in_the_data_directory(
    host: HostView,
    config: ConfigView,
    id: Text,
    save: SavePhase,
    start: StartView,
    cli: CliView,
    r: ReplyView,
)
    ensures
        asked(save_first(host)) matches Some(e) ==> stays_in(e, data_dir()),
        asked(save_step(host, config, save, r)) matches Some(e) ==> stays_in(e, data_dir()),
        asked(start_first(host)) matches Some(e) ==> stays_in(e, data_dir()),
        asked(start_step(host, config, id, start, r)) matches Some(e) ==> stays_in(e, data_dir()),
        asked(cli_first(host)) matches Some(e) ==> stays_in(e, data_dir()),
        asked(cli_step(host, id, cli, r)) matches Some(e) ==> stays_in(e, data_dir()),
{
    lemma_all_in_data_dir(id);
}

/// The effect leaves the log where it is, with what it holds: at most it opens the log.
pub open spec fn spares_log(e: EffectView) -> bool {
    match e {
        EffectView::RemoveTree(p) => !log_file().within(p),
        EffectView::Rename(a, b) => !log_file().within(a) && !log_file().within(b),
        EffectView::WriteText(p, _) => p != log_file(),
        EffectView::WriteBytes(p, _) => p != log_file(),
        EffectView::SetMode(p, _) => p != log_file(),
        EffectView::Unpack(_, p) => !log_file().within(p),
        _ => true,
    }
}

/// The log is only ever opened to be written on: no procedure writes, moves or removes it itself,
/// whatever the replies.
#[verifier::rlimit(60)]
pub proof fn law_log_is_spared(
    host: HostView,
    config: ConfigView,
    id: Text,
    save: SavePhase,
    start: StartView,
    cli: CliView,
    r: ReplyView,
)
    ensures
        asked(save_first(host)) matches Some(e) ==> spares_log(e),
        asked(save_step(host, config, save, r)) matches Some(e) ==> spares_log(e),
        asked(start_first(host)) matches Some(e) ==> spares_log(e),
        asked(start_step(host, config, id, start, r)) matches Some(e) ==> spares_log(e),
        asked(cli_first(host)) matches Some(e) ==> spares_log(e),
        asked(cli_step(host, id, cli, r)) matches Some(e) ==> spares_log(e),
{
    law_other_files_lie_apart(id);
    reveal_strlit("storage");
    reveal_strlit("runtime");
    reveal_strlit("logs");
    reveal_strlit("bin");
    assert(log_file().parts[1] == log_dir().parts[1]);
    assert(log_dir().parts[1][0] == 'l');
    assert(runtime().parts[1][0] == 'r');
    assert(bin_dir().parts[1][0] == 'b');
    assert(storage().parts[1] == runtime().parts[1]);
    assert(ready_marker().parts[1] == runtime().parts[1]);
    assert(initialized_marker().parts[1] == runtime().parts[1]);
    assert(nb_marker().parts[1] == runtime().parts[1]);
    assert(launcher_file().parts[1] == bin_dir().parts[1]);
    assert(config_file().parts.len() == 2 && log_file().parts.len() == 3);
    assert(log_file().parts.subrange(0, 3)[1] == log_file().parts[1]);
}

/// What the log holds stays in it through every effect on files that spares it, opening it
/// among them; a log that was not there is empty when it has been opened.
pub proof fn law_log_keeps_what_it_holds(e: EffectView, d: Disk, r: ReplyView, d2: Disk)
    requires
        is_about_files(e),
        spares_log(e),
        performs(e, d, r, d2),
    ensures
        d.contains_key(log_file()) ==> same_at(d, log_file(), d2, log_file()),
        e == EffectView::OpenLog(log_file()) && r.done() is Ok && !d.contains_key(log_file())
            ==> d2.contains_key(log_file()) && d2[log_file()] == Node::File(Seq::empty()),
{
    if d.contains_key(log_file()) {
        if let EffectView::RemoveTree(p) = e {
            assert(same_at(d, log_file(), d2, log_file()));
        }
    }
}

/// The path of `parts` in the home directory.
pub open spec fn home_path(parts: Seq<Text>) -> PathView {
    PathView { root: Root::Home, parts }
}

/// Each file and directory of the application has its place in `~/.nocobase-desktop`, under its
/// own name.
pub proof fn law_places_have_their_names(id: Text)
    ensures
        data_dir() == home_path(seq![".nocobase-desktop"@]),
        runtime() == home_path(seq![".nocobase-desktop"@, "runtime"@]),
        config_file() == home_path(seq![".nocobase-desktop"@, "database.json"@]),
        log_dir() == home_path(seq![".nocobase-desktop"@, "logs"@]),
        log_file() == home_path(seq![".nocobase-desktop"@, "logs"@, "nocobase.log"@]),
        bin_dir() == home_path(seq![".nocobase-desktop"@, "bin"@]),
        launcher_file() == home_path(seq![".nocobase-desktop"@, "bin"@, "nb"@]),
        storage() == home_path(seq![".nocobase-desktop"@, "runtime"@, "storage"@]),
        ready_marker() == home_path(
            seq![".nocobase-desktop"@, "runtime"@, ".desktop-runtime-ready"@],
        ),
        initialized_marker() == home_path(
            seq![".nocobase-desktop"@, "runtime"@, ".nocobase-initialized"@],
        ),
        nb_marker() == home_path(
            seq![".nocobase-desktop"@, "runtime"@, ".nb-desktop-initialized"@],
        ),
        storage_backup(id) == home_path(seq![".nocobase-desktop"@, ".storage-upgrade-"@ + id]),
{
    assert(data_dir().parts =~= seq![".nocobase-desktop"@]);
    assert(runtime().parts =~= seq![".nocobase-desktop"@, "runtime"@]);
    assert(config_file().parts =~= seq![".nocobase-desktop"@, "database.json"@]);
    assert(log_dir().parts =~= seq![".nocobase-desktop"@, "logs"@]);
    assert(log_file().parts =~= seq![".nocobase-desktop"@, "logs"@, "nocobase.log"@]);
    assert(bin_dir().parts =~= seq![".nocobase-desktop"@, "bin"@]);
    assert(launcher_file().parts =~= seq![".nocobase-desktop"@, "bin"@, "nb"@]);
    assert(storage().parts =~= seq![".nocobase-desktop"@, "runtime"@, "storage"@]);
    assert(ready_marker().parts
        =~= seq![".nocobase-desktop"@, "runtime"@, ".desktop-runtime-ready"@]);
    assert(initialized_marker().parts
        =~= seq![".nocobase-desktop"@, "runtime"@, ".nocobase-initialized"@]);
    assert(nb_marker().parts
        =~= seq![".nocobase-desktop"@, "runtime"@, ".nb-desktop-initialized"@]);
    assert(storage_backup(id).parts
        =~= seq![".nocobase-desktop"@, ".storage-upgrade-"@ + id]);
}

/// The path that is told is the given one exactly where the home directory is known; otherwise it
/// is told that it is not.
pub open spec fn tells_home_path(
    host: &Host,
    r: Result<FilePath, String>,
    parts: Seq<Text>,
) -> bool {
    if host.home_found {
        r matches Ok(p) && p@ == home_path(parts)
    } else {
        r matches Err(m) && m@ == "无法确定 HOME 目录"@
    }
}

/// The directories and files that callers ask for are told by their places.
pub proof fn law_told_paths_are_the_places(
    host: &Host,
    data: Result<FilePath, String>,
    rt: Result<FilePath, String>,
    config: Result<FilePath, String>,
    log: Result<FilePath, String>,
    home: Result<(), String>,
    resources: Result<(), String>,
)
    requires
        call_ensures(app_data_dir, (host,), data),
        call_ensures(runtime_dir, (host,), rt),
        call_ensures(config_path, (host,), config),
        call_ensures(log_path, (host,), log),
        call_ensures(need_home, (host,), home),
        call_ensures(need_resources, (host,), resources),
    ensures
        tells_home_path(host, data, seq![".nocobase-desktop"@]),
        tells_home_path(host, rt, seq![".nocobase-desktop"@, "runtime"@]),
        tells_home_path(host, config, seq![".nocobase-desktop"@, "database.json"@]),
        tells_home_path(host, log, seq![".nocobase-desktop"@, "logs"@, "nocobase.log"@]),
        home is Ok <==> host.home_found,
        home matches Err(m) ==> m@ == "无法确定 HOME 目录"@,
        resources is Ok <==> host.resources is Ok,
        resources matches Err(m) ==> m@ == host.resources->Err_0@,
{
    law_places_have_their_names(Seq::empty());
}

/// The message where the home directory is not known, as the procedures end with it.
pub proof fn law_unknown_home_is_told()
    ensures
        home_unknown() == "无法确定 HOME 目录"@,
{
}

/// A bundled resource lies in `resources` where it is nested, and otherwise in the root itself.
pub proof fn law_resource_has_two_places(name: &str, nested: bool, r: FilePath)
    requires
        call_ensures(bundled_resource, (name, nested), r),
    ensures
        r@ == resource(name@, nested),
        r@.root == Root::Resources,
        r@.parts == if nested {
            seq!["resources"@, name@]
        } else {
            seq![name@]
        },
{
    law_resource_places(name@);
}

/// The two places of a resource.
pub proof fn law_resource_places(name: Text)
    ensures
        resource(name, true) == (PathView {
            root: Root::Resources,
            parts: seq!["resources"@, name],
        }),
        resource(name, false) == (PathView { root: Root::Resources, parts: seq![name] }),
{
    assert(resource(name, true).parts =~= seq!["resources"@, name]);
    assert(resource(name, false).parts =~= seq![name]);
}

/// The backup is the sibling of the runtime whose name ends with the identifier.
pub proof fn law_backup_is_a_sibling(
    runtime: &FilePath,
    id: &str,
    r: Result<FilePath, String>,
)
    requires
        call_ensures(storage_backup_path, (runtime, id), r),
    ensures
        r is Ok <==> runtime@.parts.len() > 0,
        r matches Ok(p) ==> p@ == (PathView {
            root: runtime@.root,
            parts: runtime@.parts.drop_last().push(".storage-upgrade-"@ + id@),
        }),
        r matches Err(m) ==> m@ == "运行时目录没有父目录"@,
{
}

/// Joining adds one name at the end and changes nothing else, the parent takes it off again, and a
/// root has neither names nor a parent.
pub proof fn law_joining_adds_a_name(
    path: &FilePath,
    name: &str,
    root: Root,
    longer: FilePath,
    shorter: Option<FilePath>,
    bare: FilePath,
)
    requires
        call_ensures(FilePath::join, (path, name), longer),
        call_ensures(FilePath::parent, (path,), shorter),
        call_ensures(FilePath::at, (root,), bare),
    ensures
        longer.root == path.root,
        texts(longer.parts@) == texts(path.parts@).push(name@),
        longer@ == path@.join(name@),
        path@.join(name@).parent() == Some(path@),
        shorter is Some <==> path.parts@.len() > 0,
        shorter matches Some(p) ==> p.root == path.root && texts(p.parts@) == texts(
            path.parts@,
        ).drop_last(),
        bare.root == root,
        bare.parts@.len() == 0,
{
    assert(path@.join(name@).parts.drop_last() =~= path@.parts);
    assert(texts(bare.parts@).len() == 0);
}

} // verus!
