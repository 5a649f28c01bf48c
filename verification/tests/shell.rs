use app_shell::commands::greet;
use app_shell::commands::get_env;
use app_shell::env::Env;
use app_shell::env::parse_env_line;
use app_shell::logsink::LogPipeline;
use app_shell::logsink::LogTarget;
use app_shell::logsink::default_log_config;
use app_shell::startup::Window;
use app_shell::startup::WindowRegistry;
use app_shell::startup::wants_fullscreen;

#[test]
fn greet_world() {
    assert_eq!(greet("World"), "Hello, World! You've been greeted from Rust!");
}

#[test]
fn greet_empty_name() {
    assert_eq!(greet(""), "Hello, ! You've been greeted from Rust!");
}

#[test]
fn greet_unicode_name() {
    assert_eq!(
        greet("Jürgen 🚀"),
        "Hello, Jürgen 🚀! You've been greeted from Rust!"
    );
}

#[test]
fn greet_punctuated_name() {
    assert_eq!(
        greet("O'Brien, Jr."),
        "Hello, O'Brien, Jr.! You've been greeted from Rust!"
    );
}

#[test]
fn get_env_absent_is_empty() {
    let env = Env::new();
    assert_eq!(get_env(&env, "MISSING"), "");
}

#[test]
fn get_env_present_is_value() {
    let mut env = Env::new();
    env.insert_if_absent("HOME_DIR".to_string(), "/home/user".to_string());
    assert_eq!(get_env(&env, "HOME_DIR"), "/home/user");
}

#[test]
fn get_env_set_to_empty_is_empty() {
    let mut env = Env::new();
    env.insert_if_absent("EMPTY".to_string(), "".to_string());
    assert_eq!(get_env(&env, "EMPTY"), "");
}

#[test]
fn insert_if_absent_keeps_existing() {
    let mut env = Env::new();
    env.insert_if_absent("KEY".to_string(), "first".to_string());
    env.insert_if_absent("KEY".to_string(), "second".to_string());
    assert_eq!(get_env(&env, "KEY"), "first");
    assert_eq!(env.len(), 1);
}

#[test]
fn parse_line_splits_at_first_equals() {
    let parsed = parse_env_line("FOO=bar").unwrap();
    assert_eq!(parsed.0, "FOO");
    assert_eq!(parsed.1, "bar");
}

#[test]
fn parse_line_value_may_hold_equals() {
    let parsed = parse_env_line("A=b=c").unwrap();
    assert_eq!(parsed.0, "A");
    assert_eq!(parsed.1, "b=c");
}

#[test]
fn parse_line_empty_value() {
    let parsed = parse_env_line("A=").unwrap();
    assert_eq!(parsed.0, "A");
    assert_eq!(parsed.1, "");
}

#[test]
fn parse_line_without_equals_is_malformed() {
    assert!(parse_env_line("not a pair").is_none());
}

#[test]
fn parse_line_empty_name_is_malformed() {
    assert!(parse_env_line("=value").is_none());
}

#[test]
fn loader_does_not_override_existing() {
    let mut env = Env::new();
    env.insert_if_absent("FOO".to_string(), "original".to_string());
    let lines = vec![
        "FOO=overridden".to_string(),
        "BAR=2".to_string(),
        "malformed line".to_string(),
    ];
    env.load_lines(&lines);
    assert_eq!(get_env(&env, "FOO"), "original");
    assert_eq!(get_env(&env, "BAR"), "2");
    assert_eq!(env.len(), 2);
}

#[test]
fn loader_first_occurrence_wins() {
    let mut env = Env::new();
    let lines = vec!["A=1".to_string(), "A=2".to_string()];
    env.load_lines(&lines);
    assert_eq!(get_env(&env, "A"), "1");
}

fn two_window_registry() -> WindowRegistry {
    let mut reg = WindowRegistry::new();
    reg.register(Window {
        label: "splash".to_string(),
        fullscreen: false,
    });
    reg.register(Window {
        label: "main".to_string(),
        fullscreen: false,
    });
    reg
}

#[test]
fn flag_in_any_position_sets_main_fullscreen() {
    let mut reg = two_window_registry();
    let args = vec![
        "shell".to_string(),
        "--verbose".to_string(),
        "--fullscreen".to_string(),
    ];
    reg.run_startup_hook(&args);
    assert_eq!(reg.is_fullscreen("main"), Some(true));
    assert_eq!(reg.is_fullscreen("splash"), Some(false));
}

#[test]
fn without_flag_main_stays_default() {
    let mut reg = two_window_registry();
    let args = vec!["shell".to_string(), "--fullscreen=yes".to_string()];
    assert!(!wants_fullscreen(&args));
    reg.run_startup_hook(&args);
    assert_eq!(reg.is_fullscreen("main"), Some(false));
}

#[test]
fn missing_main_window_is_noop() {
    let mut reg = WindowRegistry::new();
    reg.register(Window {
        label: "splash".to_string(),
        fullscreen: false,
    });
    let args = vec!["--fullscreen".to_string()];
    reg.run_startup_hook(&args);
    assert_eq!(reg.is_fullscreen("main"), None);
    assert_eq!(reg.is_fullscreen("splash"), Some(false));
}

#[test]
fn default_config_matches_the_shell() {
    let config = default_log_config();
    assert_eq!(config.max_file_size, 5_000_000);
    assert_eq!(config.targets.len(), 2);
    match &config.targets[0] {
        LogTarget::Folder { path, file_name } => {
            assert_eq!(path.as_str(), "logs");
            assert_eq!(file_name.as_str(), "app");
        }
        LogTarget::Stdout => panic!("first target must be the folder target"),
    }
    assert!(matches!(config.targets[1], LogTarget::Stdout));
}

#[test]
fn every_record_reaches_both_targets_in_order() {
    let mut p = LogPipeline::new(5_000_000);
    let records: Vec<Vec<u8>> = vec![b"one".to_vec(), b"two".to_vec(), b"three".to_vec()];
    for r in &records {
        p.emit(r.clone());
    }
    assert_eq!(p.stdout, records);
    assert_eq!(p.active, records);
    assert!(p.backup.is_none());
}

#[test]
fn exceeding_threshold_rotates_exactly_once() {
    let mut p = LogPipeline::new(10);
    p.emit(b"aaaa".to_vec());
    p.emit(b"bbbb".to_vec());
    assert!(p.backup.is_none());
    p.emit(b"cccc".to_vec());
    let expected: Vec<Vec<u8>> = vec![b"aaaa".to_vec(), b"bbbb".to_vec(), b"cccc".to_vec()];
    assert_eq!(p.backup, Some(expected.clone()));
    assert!(p.active.is_empty());
    assert_eq!(p.active_bytes, 0);
    assert_eq!(p.stdout, expected);
}

#[test]
fn later_rotation_overwrites_sole_backup() {
    let mut p = LogPipeline::new(10);
    p.emit(b"aaaa".to_vec());
    p.emit(b"bbbbbbbb".to_vec());
    assert_eq!(
        p.backup,
        Some(vec![b"aaaa".to_vec(), b"bbbbbbbb".to_vec()])
    );
    p.emit(b"cccccccccccc".to_vec());
    assert_eq!(p.backup, Some(vec![b"cccccccccccc".to_vec()]));
    assert!(p.active.is_empty());
    let all: Vec<Vec<u8>> = vec![
        b"aaaa".to_vec(),
        b"bbbbbbbb".to_vec(),
        b"cccccccccccc".to_vec(),
    ];
    assert_eq!(p.stdout, all);
}

#[test]
fn reaching_threshold_exactly_rotates() {
    let mut p = LogPipeline::new(10);
    p.emit(b"0123456789".to_vec());
    assert_eq!(p.backup, Some(vec![b"0123456789".to_vec()]));
    assert!(p.active.is_empty());
}

#[test]
fn staying_below_threshold_keeps_active() {
    let mut p = LogPipeline::new(10);
    p.emit(b"012345678".to_vec());
    assert!(p.backup.is_none());
    assert_eq!(p.active, vec![b"012345678".to_vec()]);
    assert_eq!(p.active_bytes, 9);
}
