//! Keeping the database configuration in its file.
use vstd::prelude::*;

use crate::config::{default_config, is_random_id, ConfigView, DatabaseConfig};
use crate::disk::{lemma_shorter_run, performs, runs_on_disk, Disk, Node};
use crate::effect::{
    asked, fails, lemma_ended, run, succeeds, Effect, EffectView, Reply, ReplyView, Step, StepView,
};
use crate::layout::{
    config_file, config_file_path, config_path, data_dir, home_unknown, Host, HostView,
};

verus! {

/// What saving waits for.
#[derive(Clone, Copy, Debug, PartialEq, Eq, Structural)]
pub enum SavePhase {
    CreateDir,
    Encode,
    Write,
    Protect,
}

impl View for SavePhase {
    type V = SavePhase;

    open spec fn view(&self) -> SavePhase {
        *self
    }
}

/// The permissions of the configuration: its owner alone may read and write it.
pub const PRIVATE_MODE: u32 = 0o600;

/// The first thing to do: make sure of the directory.
pub open spec fn save_first(host: HostView) -> StepView<SavePhase, ()> {
    if host.home_found {
        StepView::Perform(SavePhase::CreateDir, EffectView::CreateDirs(data_dir()))
    } else {
        fails(home_unknown())
    }
}

/// How saving goes on from `phase` when the reply `r` has come.
pub open spec fn save_step(
    host: HostView,
    config: ConfigView,
    phase: SavePhase,
    r: ReplyView,
) -> StepView<SavePhase, ()> {
    match phase {
        SavePhase::CreateDir => match r.done() {
            Ok(_) => StepView::Perform(SavePhase::Encode, EffectView::EncodeConfig(config)),
            Err(m) => fails(m),
        },
        SavePhase::Encode => match r.bytes() {
            Ok(b) => StepView::Perform(SavePhase::Write, EffectView::WriteBytes(config_file(), b)),
            Err(m) => fails(m),
        },
        SavePhase::Write => match r.done() {
            Ok(_) => if host.unix {
                StepView::Perform(
                    SavePhase::Protect,
                    EffectView::SetMode(config_file(), PRIVATE_MODE),
                )
            } else {
                succeeds(())
            },
            Err(m) => fails(m),
        },
        SavePhase::Protect => StepView::Finished(r.done()),
    }
}

/// Begins to save the configuration.
pub fn save_config_file(host: &Host) -> (r: Step<SavePhase, ()>)
    ensures
        r@ == save_first(host@),
{
    match config_path(host) {
        Ok(path) => {
            assert(config_file().parts.drop_last() =~= data_dir().parts);
            let dir = path.parent().unwrap();
            Step::Perform(SavePhase::CreateDir, Effect::CreateDirs(dir))
        },
        Err(m) => Step::Finished(Err(m)),
    }
}

/// Goes on with saving from `phase` when the reply has come.
pub fn save_config_next(
    host: &Host,
    config: &DatabaseConfig,
    phase: SavePhase,
    reply: Reply,
) -> (r: Step<SavePhase, ()>)
    ensures
        r@ == save_step(host@, config@, phase, reply@),
{
    match phase {
        SavePhase::CreateDir => match reply.done() {
            Ok(_) => Step::Perform(SavePhase::Encode, Effect::EncodeConfig(config.clone())),
            Err(m) => Step::Finished(Err(m)),
        },
        SavePhase::Encode => match reply.bytes() {
            Ok(b) => Step::Perform(SavePhase::Write, Effect::WriteBytes(config_file_path(), b)),
            Err(m) => Step::Finished(Err(m)),
        },
        SavePhase::Write => match reply.done() {
            Ok(_) => if host.unix {
                Step::Perform(
                    SavePhase::Protect,
                    Effect::SetMode(config_file_path(), PRIVATE_MODE),
                )
            } else {
                Step::Finished(Ok(()))
            },
            Err(m) => Step::Finished(Err(m)),
        },
        SavePhase::Protect => Step::Finished(reply.done()),
    }
}

/// What loading waits for.
#[derive(Clone, Copy, Debug, PartialEq, Eq, Structural)]
pub enum LoadPhase {
    Probe,
    Read,
    Decode,
}

impl View for LoadPhase {
    type V = LoadPhase;

    open spec fn view(&self) -> LoadPhase {
        *self
    }
}

/// The first thing to do: see whether there is a file.
pub open spec fn load_first(host: HostView) -> StepView<LoadPhase, ConfigView> {
    if host.home_found {
        StepView::Perform(LoadPhase::Probe, EffectView::Exists(config_file()))
    } else {
        fails(home_unknown())
    }
}

/// A configuration of an installation that had none: the default one, with a random key.
pub open spec fn is_fresh(config: ConfigView) -> bool {
    &&& is_random_id(config.app_key)
    &&& config == default_config(config.app_key)
}

/// How loading goes on from `phase` when the reply `r` has come, where `fresh` is the
/// configuration of an installation that has none yet.
pub open spec fn load_step(phase: LoadPhase, r: ReplyView, fresh: ConfigView) -> StepView<
    LoadPhase,
    ConfigView,
> {
    match phase {
        LoadPhase::Probe => match r.answer() {
            Ok(true) => StepView::Perform(LoadPhase::Read, EffectView::ReadBytes(config_file())),
            Ok(false) => succeeds(fresh),
            Err(m) => fails(m),
        },
        LoadPhase::Read => match r.bytes() {
            Ok(b) => StepView::Perform(LoadPhase::Decode, EffectView::DecodeConfig(b)),
            Err(m) => fails(m),
        },
        LoadPhase::Decode => StepView::Finished(r.config()),
    }
}

/// Begins to load the configuration.
pub fn load_config_file(host: &Host) -> (r: Step<LoadPhase, DatabaseConfig>)
    ensures
        r@ == load_first(host@),
{
    match config_path(host) {
        Ok(path) => Step::Perform(LoadPhase::Probe, Effect::Exists(path)),
        Err(m) => Step::Finished(Err(m)),
    }
}

/// Goes on with loading from `phase` when the reply has come. An installation without a
/// configuration gets the default one, with a random key of its own.
pub fn load_config_next(phase: LoadPhase, reply: Reply) -> (r: Step<LoadPhase, DatabaseConfig>)
    ensures
        exists|fresh: ConfigView|
            is_fresh(fresh) && r@ == #[trigger] load_step(phase, reply@, fresh),
{
    proof {
        // Where no key is drawn, any fresh configuration will do.
        let key = "00000000-0000-4000-8000-000000000000"@;
        reveal_strlit("00000000-0000-4000-8000-000000000000");
        assert(is_fresh(default_config(key)));
        let _ = load_step(phase, reply@, default_config(key));
    }
    match phase {
        LoadPhase::Probe => match reply.answer() {
            Ok(there) => if there {
                Step::Perform(LoadPhase::Read, Effect::ReadBytes(config_file_path()))
            } else {
                let fresh = DatabaseConfig::default();
                assert(load_step(phase, reply@, fresh@) == succeeds::<LoadPhase, ConfigView>(
                    fresh@,
                ));
                Step::Finished(Ok(fresh))
            },
            Err(m) => Step::Finished(Err(m)),
        },
        LoadPhase::Read => match reply.bytes() {
            Ok(b) => Step::Perform(LoadPhase::Decode, Effect::DecodeConfig(b)),
            Err(m) => Step::Finished(Err(m)),
        },
        LoadPhase::Decode => Step::Finished(reply.config()),
    }
}

/// How saving goes on, as one function of its phase and the reply.
pub open spec fn save_rule(host: HostView, config: ConfigView) -> spec_fn(
    SavePhase,
    ReplyView,
) -> StepView<SavePhase, ()> {
    |s: SavePhase, r: ReplyView| save_step(host, config, s, r)
}

/// The bytes that the configuration has been encoded as, in a run of saving.
pub open spec fn encoding(replies: Seq<ReplyView>) -> Seq<u8> {
    replies[1].bytes()->Ok_0
}

/// What is known of a run of saving.
spec fn save_past(
    host: HostView,
    config: ConfigView,
    replies: Seq<ReplyView>,
    d: Disk,
) -> bool {
    let stored = replies.len() >= 3 && replies[1].bytes() is Ok && d.contains_key(config_file())
        && d[config_file()] == Node::File(encoding(replies));
    match run(save_rule(host, config), save_first(host), replies) {
        StepView::Perform(p, e) => match p {
            SavePhase::CreateDir => replies.len() == 0 && e == EffectView::CreateDirs(data_dir()),
            SavePhase::Encode => replies.len() == 1 && e == EffectView::EncodeConfig(config),
            SavePhase::Write => replies.len() == 2 && replies[1].bytes() is Ok && e
                == EffectView::WriteBytes(config_file(), encoding(replies)),
            SavePhase::Protect => stored && replies.len() == 3 && e == EffectView::SetMode(
                config_file(),
                PRIVATE_MODE,
            ),
        },
        StepView::Finished(Ok(_)) => stored && replies.len() == if host.unix {
            4int
        } else {
            3
        },
        StepView::Finished(Err(_)) => true,
    }
}

proof fn lemma_save_past(
    host: HostView,
    config: ConfigView,
    replies: Seq<ReplyView>,
    disks: Seq<Disk>,
)
    requires
        runs_on_disk(save_rule(host, config), save_first(host), replies, disks),
    ensures
        save_past(host, config, replies, disks.last()),
    decreases replies.len(),
{
    if replies.len() > 0 {
        lemma_shorter_run(save_rule(host, config), save_first(host), replies, disks);
        lemma_save_past(host, config, replies.drop_last(), disks.drop_last());
    }
}

/// What has been saved is what is read: after a successful run of saving, the file holds
/// the bytes that the configuration was encoded as, and loading asks to decode these.
pub proof fn law_saved_configuration_is_read_back(
    host: HostView,
    config: ConfigView,
    replies: Seq<ReplyView>,
    disks: Seq<Disk>,
    fresh: ConfigView,
    found: ReplyView,
    read: ReplyView,
    d1: Disk,
    d2: Disk,
)
    requires
        runs_on_disk(save_rule(host, config), save_first(host), replies, disks),
        run(save_rule(host, config), save_first(host), replies) matches StepView::Finished(Ok(_)),
        performs(EffectView::Exists(config_file()), disks.last(), found, d1),
        performs(EffectView::ReadBytes(config_file()), d1, read, d2),
        read matches ReplyView::Bytes(Ok(_)),
    ensures
        load_first(host) == StepView::<LoadPhase, ConfigView>::Perform(
            LoadPhase::Probe,
            EffectView::Exists(config_file()),
        ),
        load_step(LoadPhase::Probe, found, fresh) == StepView::<LoadPhase, ConfigView>::Perform(
            LoadPhase::Read,
            EffectView::ReadBytes(config_file()),
        ),
        load_step(LoadPhase::Read, read, fresh) == StepView::<LoadPhase, ConfigView>::Perform(
            LoadPhase::Decode,
            EffectView::DecodeConfig(encoding(replies)),
        ),
        replies[1] == ReplyView::Bytes(Ok(encoding(replies))),
{
    lemma_save_past(host, config, replies, disks);
    if !host.home_found {
        lemma_ended(save_rule(host, config), save_first(host), replies);
    }
}

/// On a system with file modes a run of saving that succeeds ends with making the file
/// private.
pub proof fn law_saved_configuration_is_private(
    host: HostView,
    config: ConfigView,
    replies: Seq<ReplyView>,
    disks: Seq<Disk>,
)
    requires
        host.unix,
        runs_on_disk(save_rule(host, config), save_first(host), replies, disks),
        run(save_rule(host, config), save_first(host), replies) matches StepView::Finished(Ok(_)),
    ensures
        asked(run(save_rule(host, config), save_first(host), replies.drop_last())) == Some(
            EffectView::SetMode(config_file(), PRIVATE_MODE),
        ),
        replies.last().done() is Ok,
{
    lemma_save_past(host, config, replies, disks);
    lemma_shorter_run(save_rule(host, config), save_first(host), replies, disks);
    lemma_save_past(host, config, replies.drop_last(), disks.drop_last());
}

/// An installation without a configuration gets the documented values and a random key.
pub proof fn law_loaded_default_has_the_documented_values(fresh: ConfigView)
    requires
        is_fresh(fresh),
    ensures
        is_random_id(fresh.app_key),
        fresh.dialect == "postgres"@,
        fresh.host == "127.0.0.1"@,
        fresh.port == 5432,
        fresh.database == "nocobase"@,
        fresh.user == "nocobase"@,
        fresh.password.len() == 0,
{
}

} // verus!
