use nocobase_desktop::config::DatabaseConfig;
use nocobase_desktop::config_store::{
    load_config_file, load_config_next, save_config_file, save_config_next, LoadPhase, SavePhase,
};
use nocobase_desktop::effect::{Effect, Reply, Step};
use nocobase_desktop::layout::{app_data_dir, config_path, Host};

fn host(unix: bool, home_found: bool) -> Host {
    Host { unix, home_found, resources: Ok(()), version: "1.2.3".to_string() }
}

fn is_hex(c: char) -> bool {
    c.is_ascii_digit() || ('a'..='f').contains(&c)
}

fn assert_random_id(key: &str) {
    let chars: Vec<char> = key.chars().collect();
    assert_eq!(chars.len(), 36);
    for (i, c) in chars.iter().enumerate() {
        if [8, 13, 18, 23].contains(&i) {
            assert_eq!(*c, '-');
        } else {
            assert!(is_hex(*c));
        }
    }
    assert_eq!(chars[14], '4');
    assert!(['8', '9', 'a', 'b'].contains(&chars[19]));
}

#[test]
fn default_configuration_has_the_documented_values() {
    let config = DatabaseConfig::default();
    assert_eq!(config.dialect, "postgres");
    assert_eq!(config.host, "127.0.0.1");
    assert_eq!(config.port, 5432);
    assert_eq!(config.database, "nocobase");
    assert_eq!(config.user, "nocobase");
    assert_eq!(config.password, "");
    assert_random_id(&config.app_key);
}

#[test]
fn every_default_configuration_has_a_key_of_its_own() {
    assert_ne!(DatabaseConfig::default().app_key, DatabaseConfig::default().app_key);
}

#[test]
fn key_is_taken_as_it_is_given() {
    let config = DatabaseConfig::with_app_key("k".to_string());
    assert_eq!(config.app_key, "k");
    assert_eq!(config.clone(), config);
}

fn performed<S, T>(step: Step<S, T>) -> (S, Effect) {
    match step {
        Step::Perform(s, e) => (s, e),
        Step::Finished(_) => panic!("ended too early"),
    }
}

#[test]
fn saving_writes_the_encoded_bytes_and_makes_the_file_private() {
    let host = host(true, true);
    let config = DatabaseConfig::with_app_key("k".to_string());
    let (phase, effect) = performed(save_config_file(&host));
    assert_eq!(effect, Effect::CreateDirs(app_data_dir(&host).unwrap()));
    let (phase, effect) = performed(save_config_next(&host, &config, phase, Reply::Done(Ok(()))));
    assert_eq!(effect, Effect::EncodeConfig(config.clone()));
    let reply = Reply::Bytes(Ok(vec![1, 2, 3]));
    let (phase, effect) = performed(save_config_next(&host, &config, phase, reply));
    assert_eq!(effect, Effect::WriteBytes(config_path(&host).unwrap(), vec![1, 2, 3]));
    let (phase, effect) = performed(save_config_next(&host, &config, phase, Reply::Done(Ok(()))));
    assert_eq!(effect, Effect::SetMode(config_path(&host).unwrap(), 0o600));
    assert_eq!(
        save_config_next(&host, &config, phase, Reply::Done(Ok(()))),
        Step::Finished(Ok(()))
    );
}

#[test]
fn saving_ends_with_the_write_where_files_have_no_modes() {
    let config = DatabaseConfig::with_app_key("k".to_string());
    assert_eq!(
        save_config_next(&host(false, true), &config, SavePhase::Write, Reply::Done(Ok(()))),
        Step::Finished(Ok(()))
    );
}

#[test]
fn saving_hands_every_failure_on() {
    let host = host(true, true);
    let config = DatabaseConfig::with_app_key("k".to_string());
    for phase in [SavePhase::CreateDir, SavePhase::Write, SavePhase::Protect] {
        assert_eq!(
            save_config_next(&host, &config, phase, Reply::Done(Err("full".to_string()))),
            Step::Finished(Err("full".to_string()))
        );
    }
    assert_eq!(
        save_config_next(&host, &config, SavePhase::Encode, Reply::Bytes(Err("odd".to_string()))),
        Step::Finished(Err("odd".to_string()))
    );
}

#[test]
fn saving_and_loading_need_a_home() {
    let host = host(true, false);
    let message = "无法确定 HOME 目录".to_string();
    assert_eq!(save_config_file(&host), Step::Finished(Err(message.clone())));
    assert_eq!(load_config_file(&host), Step::Finished(Err(message)));
}

#[test]
fn loading_reads_and_decodes_the_file() {
    let host = host(true, true);
    let config = DatabaseConfig::with_app_key("k".to_string());
    let (phase, effect) = performed(load_config_file(&host));
    assert_eq!(effect, Effect::Exists(config_path(&host).unwrap()));
    let (phase, effect) = performed(load_config_next(phase, Reply::Answer(true)));
    assert_eq!(effect, Effect::ReadBytes(config_path(&host).unwrap()));
    let (phase, effect) = performed(load_config_next(phase, Reply::Bytes(Ok(vec![9]))));
    assert_eq!(effect, Effect::DecodeConfig(vec![9]));
    assert_eq!(
        load_config_next(phase, Reply::Config(Ok(config.clone()))),
        Step::Finished(Ok(config))
    );
}

#[test]
fn loading_without_a_file_gives_a_fresh_configuration() {
    match load_config_next(LoadPhase::Probe, Reply::Answer(false)) {
        Step::Finished(Ok(config)) => {
            assert_random_id(&config.app_key);
            assert_eq!(config, DatabaseConfig::with_app_key(config.app_key.clone()));
        }
        _ => panic!("a fresh configuration was due"),
    }
}

#[test]
fn loading_hands_every_failure_on() {
    let failure = || "broken".to_string();
    assert_eq!(
        load_config_next(LoadPhase::Read, Reply::Bytes(Err(failure()))),
        Step::Finished(Err(failure()))
    );
    assert_eq!(
        load_config_next(LoadPhase::Decode, Reply::Config(Err(failure()))),
        Step::Finished(Err(failure()))
    );
}

#[test]
fn reply_of_the_wrong_kind_ends_a_procedure() {
    assert_eq!(
        load_config_next(LoadPhase::Read, Reply::Answer(true)),
        Step::Finished(Err("the reply does not fit the request".to_string()))
    );
}
