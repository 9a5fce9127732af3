use voxoxide::app_config::{
    is_der_path, log_sink_ansi, log_sink_path, AppConfig, AppConfigArgs, AppConfigOverrides, ConfigError, Environment, LogLevel,
};
use voxoxide::audio_manager::{
    AudioManager, AudioManagerSignal, RoomActiveAudioSession, StreamAction,
};
use voxoxide::audio_source::{random_ssrc, Capture, RTPOpusAudioSource};
use voxoxide::client_config::strip_ipv6_brackets;
use voxoxide::packet::PacketHeader;
use voxoxide::tui::{App, AudioCommand, Key};

fn no_overrides() -> AppConfigOverrides {
    AppConfigOverrides {
        environment: None,
        key: None,
        cert: None,
        listen: None,
        connection_limit: None,
        log_level: None,
        log_file: None,
    }
}

fn build_args(config_path: &str) -> AppConfigArgs {
    AppConfigArgs { input: None, config_path: config_path.to_string(), config: no_overrides() }
}

fn valid_test_config() -> AppConfig {
    AppConfig {
        environment: Environment::Development,
        key: "../dev-certs/key.pem".to_string(),
        cert: "../dev-certs/cert.pem".to_string(),
        listen: "[::1]:5555".to_string(),
        connection_limit: 100,
        log_level: "info".to_string(),
        log_file: None,
    }
}

/// Stands for the loader: knows one valid file, one invalid and none else.
fn load(path: &str) -> Result<AppConfig, ConfigError> {
    match path {
        "tests/resources/valid-test-config.yaml" => Ok(valid_test_config()),
        "tests/resources/invalid-test-config-missing-field.yaml" => Err(ConfigError::Invalid),
        _ => Err(ConfigError::Unreadable),
    }
}

fn from_args(mut args: AppConfigArgs, env: Option<&str>) -> Result<AppConfig, ConfigError> {
    args.use_env_path(env.map(|p| p.to_string()));
    let loaded = load(&args.config_path);
    AppConfig::from_args(args, loaded)
}

#[test]
fn loads_valid_yaml_config() {
    let args = build_args("tests/resources/valid-test-config.yaml");
    let config = from_args(args, None).unwrap();
    assert_eq!(config.environment, Environment::Development);
    assert_eq!(config.connection_limit, 100);
    assert_eq!(config.log_level, "info");
    assert_eq!(config.listen.to_string(), "[::1]:5555");
}

#[test]
fn cli_overrides_yaml_values() {
    let mut args = build_args("tests/resources/valid-test-config.yaml");
    args.config.connection_limit = Some(999);
    let config = from_args(args, None).unwrap();
    assert_eq!(config.connection_limit, 999);
}

#[test]
fn env_var_overrides_cli_config_path() {
    let args = build_args("tests/resources/invalid-test-config-missing-field.yaml");
    let config = from_args(args, Some("tests/resources/valid-test-config.yaml"));
    if config.is_err() {
        panic!("{:?}", config);
    }
    let config = config.unwrap();
    assert_eq!(config.connection_limit, 100);
}

#[test]
fn fails_on_invalid_yaml() {
    let args = build_args("tests/resources/invalid-test-config-missing-field.yaml");
    let result = from_args(args, None);
    assert!(result.is_err());
    assert_eq!(result.err(), Some(ConfigError::Invalid));
}

#[test]
fn fails_if_file_does_not_exist() {
    let args = build_args("tests/resources/does-not-exist.yaml");
    let result = from_args(args, None);
    println!("{:?}", result);
    assert!(result.is_err());
    assert_eq!(result.err(), Some(ConfigError::Unreadable));
}

#[test]
fn every_override_replaces_its_setting() {
    let over = AppConfigOverrides {
        environment: Some(Environment::Production),
        key: Some("k.der".to_string()),
        cert: Some("c.der".to_string()),
        listen: Some("0.0.0.0:1".to_string()),
        connection_limit: Some(1),
        log_level: Some("trace".to_string()),
        log_file: Some("server.log".to_string()),
    };
    let merged = valid_test_config().merge(over);
    assert_eq!(merged.environment, Environment::Production);
    assert_eq!(merged.key, "k.der");
    assert_eq!(merged.cert, "c.der");
    assert_eq!(merged.listen, "0.0.0.0:1");
    assert_eq!(merged.connection_limit, 1);
    assert_eq!(merged.log_level, "trace");
    assert_eq!(merged.log_file, Some("server.log".to_string()));
    let same = valid_test_config().merge(no_overrides());
    assert_eq!(same.key, "../dev-certs/key.pem");
    assert_eq!(same.log_file, None);
    assert_eq!(same.environment, Environment::Development);
}

#[test]
fn log_level_is_read_from_its_name() {
    let level = |name: &str| {
        let mut config = valid_test_config();
        config.log_level = name.to_string();
        config.get_log_level()
    };
    assert_eq!(level("trace"), LogLevel::Trace);
    assert_eq!(level("debug"), LogLevel::Debug);
    assert_eq!(level("info"), LogLevel::Info);
    assert_eq!(level("warn"), LogLevel::Warn);
    assert_eq!(level("error"), LogLevel::Error);
    assert_eq!(level("loud"), LogLevel::Info);
    assert_eq!(level("TRACE"), LogLevel::Info);
    assert_eq!(level(""), LogLevel::Info);
}

#[test]
fn environment_is_read_from_its_lower_case_name() {
    assert_eq!(Environment::from_name("production"), Some(Environment::Production));
    assert_eq!(Environment::from_name("development"), Some(Environment::Development));
    assert_eq!(Environment::from_name("Production"), None);
    assert_eq!(Environment::from_name("staging"), None);
    assert_eq!(Environment::default(), Environment::Development);
}

#[test]
fn der_is_told_by_the_extension() {
    assert!(is_der_path("key.der"));
    assert!(is_der_path("/etc/certs/server.der"));
    assert!(is_der_path("a.pem.der"));
    assert!(!is_der_path("key.pem"));
    assert!(!is_der_path("key.DER"));
    assert!(!is_der_path(".der"));
    assert!(!is_der_path("certs/.der"));
    assert!(!is_der_path("der"));
    assert!(!is_der_path("keyder"));
    assert!(!is_der_path(""));
    assert!(!is_der_path("k.der/"));
}

#[test]
fn brackets_are_stripped_from_ipv6_hosts() {
    assert_eq!(strip_ipv6_brackets("[::1]"), "::1");
    assert_eq!(strip_ipv6_brackets("[2001:db8::7]"), "2001:db8::7");
    assert_eq!(strip_ipv6_brackets("example.org"), "example.org");
    assert_eq!(strip_ipv6_brackets("[::1"), "[::1");
    assert_eq!(strip_ipv6_brackets("::1]"), "::1]");
    assert_eq!(strip_ipv6_brackets("[]"), "");
    assert_eq!(strip_ipv6_brackets("["), "[");
    assert_eq!(strip_ipv6_brackets(""), "");
}

#[test]
fn client_host_is_the_override_or_the_url_host() {
    let mut config = voxoxide::client_config::AppConfig {
        url_host: "[::1]".to_string(),
        url_port: None,
        host: None,
        cert_path: None,
        bind: "[::]:0".to_string(),
    };
    assert_eq!(config.get_host(), "::1");
    assert_eq!(config.get_remote_host(), "::1");
    assert_eq!(config.get_remote_port(), 4433);
    config.host = Some("relay.example".to_string());
    config.url_port = Some(9000);
    assert_eq!(config.get_host(), "relay.example");
    assert_eq!(config.get_remote_host(), "::1");
    assert_eq!(config.get_remote_port(), 9000);
}

#[test]
fn signals_have_their_names_and_actions() {
    assert_eq!(AudioManagerSignal::EXIT.to_string(), "EXIT");
    assert_eq!(AudioManagerSignal::MUTE.to_string(), "MUTE");
    assert_eq!(AudioManagerSignal::UNMUTE.to_string(), "UNMUTE");
    assert_eq!(AudioManagerSignal::EXIT.action(), StreamAction::Close { code: 0 });
    assert_eq!(StreamAction::close_reason(), "done");
    assert!(AudioManagerSignal::EXIT.action().ends_stream());
    assert!(!AudioManagerSignal::MUTE.action().ends_stream());
    assert!(!AudioManagerSignal::UNMUTE.action().ends_stream());
    assert_eq!(AudioManagerSignal::MUTE.action(), StreamAction::SetPlaying(false));
    assert_eq!(AudioManagerSignal::UNMUTE.action(), StreamAction::SetPlaying(true));
}

#[test]
fn audio_manager_joins_once() {
    let mut m = AudioManager::new();
    assert!(!m.get_active());
    assert!(!m.get_muted());
    assert!(!m.is_errored());
    assert_eq!(m.get_error(), None);
    assert!(m.play_on_start());
    assert!(m.join_room(10));
    assert!(!m.get_active());
    m.on_authenticated();
    assert!(m.get_active());
    assert!(!m.join_room(10));
    assert_eq!(RoomActiveAudioSession::default().room_id, 0);
}

#[test]
fn audio_manager_keeps_the_stream_error() {
    let mut m = AudioManager::new();
    m.join_room(10);
    m.on_authenticated();
    m.on_stream_failed("connection lost".to_string());
    assert!(m.is_errored());
    assert!(!m.get_active());
    assert_eq!(m.get_error(), Some("connection lost".to_string()));
    assert_eq!(m.set_muted(true), None);
    assert!(m.join_room(10));
    assert!(!m.is_errored());
    assert!(!m.play_on_start());
}

#[test]
fn audio_manager_signals_the_streaming_task() {
    let mut m = AudioManager::new();
    assert_eq!(m.set_muted(true), None);
    assert!(m.get_muted());
    assert_eq!(m.exit_room(), None);
    m.join_room(10);
    assert_eq!(m.set_muted(false), Some(AudioManagerSignal::UNMUTE));
    assert_eq!(m.set_muted(true), Some(AudioManagerSignal::MUTE));
    assert_eq!(m.on_signal(AudioManagerSignal::UNMUTE), StreamAction::SetPlaying(true));
    assert!(!m.get_muted());
    assert_eq!(m.exit_room(), Some(AudioManagerSignal::EXIT));
    assert_eq!(m.exit_room(), None);
    assert!(!m.get_active());
}

#[test]
fn keys_do_what_the_help_line_says() {
    let mut app = App::new();
    assert_eq!(app.handle_key_event(Key::Left, false), None);
    assert_eq!(app.counter, -1);
    assert_eq!(app.handle_key_event(Key::Right, false), None);
    assert_eq!(app.handle_key_event(Key::Right, false), None);
    assert_eq!(app.counter, 1);
    assert_eq!(app.handle_key_event(Key::Char('c'), false), Some(AudioCommand::JoinRoom(10)));
    assert_eq!(app.handle_key_event(Key::Char('v'), false), Some(AudioCommand::ExitRoom));
    assert_eq!(app.handle_key_event(Key::Char('m'), false), Some(AudioCommand::SetMuted(true)));
    assert_eq!(app.handle_key_event(Key::Char('m'), true), Some(AudioCommand::SetMuted(false)));
    assert_eq!(app.handle_key_event(Key::Char('x'), true), None);
    assert_eq!(app.handle_key_event(Key::Other, true), None);
    assert!(!app.exit);
    assert_eq!(app.handle_key_event(Key::Char('q'), true), None);
    assert!(app.exit);
    assert_eq!(app.counter, 1);
}

#[test]
fn counter_wraps() {
    let mut app = App { exit: false, counter: i32::MAX };
    app.handle_key_event(Key::Right, false);
    assert_eq!(app.counter, i32::MIN);
    app.handle_key_event(Key::Left, false);
    assert_eq!(app.counter, i32::MAX);
}

#[test]
fn status_lines() {
    assert_eq!(App::status(true, false), "Now recording audio...");
    assert_eq!(App::status(true, true), "Audio recording stopped: ");
    assert_eq!(App::status(false, false), "Audio recording stopped: ");
    assert_eq!(App::mute_hint(true), "Press M to unmute");
    assert_eq!(App::mute_hint(false), "Press M to mute self");
}

#[test]
fn audio_source_numbers_its_packets() {
    let mut source = RTPOpusAudioSource::with_ssrc(true, 0xA);
    assert!(source.playing);
    let first = source.read(vec![1]).unwrap();
    let second = source.read(vec![2, 3]).unwrap();
    assert_eq!(
        first.header,
        PacketHeader { payload_type: 111, sequence: 0, timestamp: 1200, ssrc: 0xA }
    );
    assert_eq!(
        second.header,
        PacketHeader { payload_type: 111, sequence: 1, timestamp: 1360, ssrc: 0xA }
    );
    assert_eq!(second.payload, vec![2, 3]);
    source.set_playing(false);
    assert!(!source.playing);
    assert_eq!(source.sequence_no, 2);
}

#[test]
fn audio_source_wraps_sequence_and_timestamp() {
    let mut source = RTPOpusAudioSource {
        playing: true,
        sequence_no: 65535,
        start_time: u32::MAX - 59,
        ssrc: 1,
    };
    let last = source.read(Vec::new()).unwrap();
    assert_eq!(last.header.sequence, 65535);
    assert_eq!(last.header.timestamp, u32::MAX - 59);
    assert_eq!(source.sequence_no, 0);
    assert_eq!(source.start_time, 100);
    let mut edge = RTPOpusAudioSource { playing: true, sequence_no: 0, start_time: u32::MAX - 160, ssrc: 1 };
    edge.read(Vec::new()).unwrap();
    assert_eq!(edge.start_time, u32::MAX);
    edge.read(Vec::new()).unwrap();
    assert_eq!(edge.start_time, 159);
}

#[test]
fn frames_are_cut_in_whole_while_playing() {
    let source = RTPOpusAudioSource::with_ssrc(true, 1);
    assert_eq!(source.capture(0), Capture { frames: 0, kept: 0 });
    assert_eq!(source.capture(959), Capture { frames: 0, kept: 959 });
    assert_eq!(source.capture(960), Capture { frames: 1, kept: 0 });
    assert_eq!(source.capture(2000), Capture { frames: 2, kept: 80 });
}

#[test]
fn paused_source_cuts_and_numbers_nothing() {
    let mut source = RTPOpusAudioSource::with_ssrc(false, 1);
    assert_eq!(source.capture(5000), Capture { frames: 0, kept: 0 });
    assert!(source.read(vec![1]).is_none());
    assert_eq!(source.sequence_no, 0);
    assert_eq!(source.start_time, 1200);
    source.set_playing(true);
    let first = source.read(vec![1]).unwrap();
    assert_eq!(first.header.sequence, 0);
    source.set_playing(false);
    assert!(source.read(vec![2]).is_none());
    assert!(source.read(vec![3]).is_none());
    source.set_playing(true);
    let second = source.read(vec![4]).unwrap();
    assert_eq!(second.header.sequence, 1);
    assert_eq!(second.header.timestamp, 1360);
}

#[test]
fn streaming_task_follows_mute_unmute_exit() {
    let mut m = AudioManager::new();
    m.join_room(10);
    m.on_authenticated();
    assert_eq!(m.on_signal(AudioManagerSignal::MUTE), StreamAction::SetPlaying(false));
    assert!(m.get_muted());
    assert_eq!(m.on_signal(AudioManagerSignal::UNMUTE), StreamAction::SetPlaying(true));
    assert!(!m.get_muted());
    let last = m.on_signal(AudioManagerSignal::EXIT);
    assert_eq!(last, StreamAction::Close { code: 0 });
    assert!(last.ends_stream());
    assert!(!m.get_muted());
}

#[test]
fn random_ssrc_is_in_the_lower_half() {
    let mut seen = std::collections::HashSet::new();
    for _ in 0..200 {
        let ssrc = random_ssrc();
        assert!(ssrc < u32::MAX / 2);
        seen.insert(ssrc);
    }
    assert!(seen.len() > 1);
}

#[test]
fn log_goes_to_the_null_device_without_a_log_file() {
    assert_eq!(log_sink_path(&None), "/dev/null");
    assert!(log_sink_ansi(&None));
    let file = Some("server.log".to_string());
    assert_eq!(log_sink_path(&file), "server.log");
    assert!(!log_sink_ansi(&file));
}

#[test]
fn new_audio_source_starts_at_zero_under_a_random_ssrc() {
    let source = RTPOpusAudioSource::new(false);
    assert!(!source.playing);
    assert_eq!(source.sequence_no, 0);
    assert_eq!(source.start_time, 1200);
    assert!(source.ssrc < u32::MAX / 2);
}
