use monsoon::config::{record_recent_path, Config};
use monsoon::config_keys::{find_setting, is_restart_key, parse_bool, set_value, text_lines};
use monsoon::binary64::Real64;

fn list(entries: &[&str]) -> Vec<String> {
    entries.iter().map(|entry| entry.to_string()).collect()
}

#[test]
fn record_inserts_at_front() {
    let mut paths = list(&["/data/movies"]);
    record_recent_path(&mut paths, "/data/tv", 5);
    assert_eq!(paths, list(&["/data/tv", "/data/movies"]));
}

#[test]
fn record_moves_existing_entry_to_front_without_duplicating() {
    let mut paths = list(&["/data/tv", "/data/movies", "/data/music"]);
    record_recent_path(&mut paths, "/data/music", 5);
    assert_eq!(paths, list(&["/data/music", "/data/tv", "/data/movies"]));
}

#[test]
fn record_existing_front_entry_is_stable() {
    let mut paths = list(&["/data/tv", "/data/movies"]);
    record_recent_path(&mut paths, "/data/tv", 5);
    assert_eq!(paths, list(&["/data/tv", "/data/movies"]));
}

#[test]
fn record_truncates_to_limit() {
    let mut paths = list(&["/one", "/two", "/three"]);
    record_recent_path(&mut paths, "/zero", 3);
    assert_eq!(paths, list(&["/zero", "/one", "/two"]));
}

#[test]
fn limit_zero_clears_the_list() {
    let mut paths = list(&["/one", "/two"]);
    record_recent_path(&mut paths, "/three", 0);
    assert!(paths.is_empty());
}

#[test]
fn trailing_slash_and_whitespace_dedup_to_one_entry() {
    let mut paths = Vec::new();
    record_recent_path(&mut paths, "/data/tv", 5);
    record_recent_path(&mut paths, "  /data/tv/  ", 5);
    assert_eq!(paths, list(&["/data/tv"]));
}

#[test]
fn bare_root_slash_is_kept_intact() {
    let mut paths = Vec::new();
    record_recent_path(&mut paths, "/", 5);
    assert_eq!(paths, list(&["/"]));
}

#[test]
fn empty_input_after_trimming_is_a_noop() {
    let mut paths = list(&["/data/tv"]);
    record_recent_path(&mut paths, "   ", 5);
    assert_eq!(paths, list(&["/data/tv"]));
}

#[test]
fn sanitize_truncates_recent_paths_to_limit() {
    let mut config = Config {
        recent_paths_limit: 2,
        recent_save_paths: list(&["/one", "/two", "/three"]),
        ..Config::default()
    };
    config.sanitize();
    assert_eq!(config.recent_save_paths, list(&["/one", "/two"]));
}

#[test]
fn add_result_review_defaults_to_always() {
    assert_eq!(Config::default().add_result_review, "always");
}

#[test]
fn sanitize_resets_invalid_add_result_review() {
    let mut config = Config::default();
    config.add_result_review = "sometimes".to_string();
    config.sanitize();
    assert_eq!(config.add_result_review, "always");
}

#[test]
fn sanitize_keeps_valid_add_result_review_values() {
    for value in ["always", "never"] {
        let mut config = Config::default();
        config.add_result_review = value.to_string();
        config.sanitize();
        assert_eq!(config.add_result_review, value);
    }
}

#[test]
fn defaults_are_already_sane() {
    let default = Config::default();
    let mut config = default.clone();
    config.sanitize();
    assert_eq!(config, default);
}

#[test]
fn home_folder_is_found_and_holds_the_downloads() {
    let given = Config::with_home(Some("/home/ann".to_string()));
    assert_eq!(given.default_save_path, "/home/ann/Downloads");
    assert!(Config::default().default_save_path.len() > "Downloads".len());
}

#[test]
fn sanitize_heals_each_kind_of_value() {
    let default = Config::default();
    let mut config = default.clone();
    config.listen_address = "  ".to_string();
    config.max_uploads = -2;
    config.download_rate_limit = -1;
    config.encryption_mode = "perhaps".to_string();
    config.default_content_layout = "odd".to_string();
    config.proxy_type = "carrier".to_string();
    config.sanitize();
    assert_eq!(config, default);
}

fn set(config: &mut Config, key: &str, value: &str) -> Result<(), String> {
    let setting = find_setting(key).expect("known key");
    set_value(config, setting, value, &Ok(Real64 { bits: 2.5f64.to_bits() }))
}

#[test]
fn settings_take_what_they_can_read() {
    let mut config = Config::default();
    assert_eq!(set(&mut config, "listen_port", "7000"), Ok(()));
    assert_eq!(config.listen_port, 7000);
    assert_eq!(set(&mut config, "max_connections", "-1"), Ok(()));
    assert_eq!(config.max_connections, -1);
    assert_eq!(set(&mut config, "enable_dht", "off"), Ok(()));
    assert!(!config.enable_dht);
    assert_eq!(set(&mut config, "seed_ratio_limit", "2.5"), Ok(()));
    assert_eq!(f64::from_bits(config.seed_ratio_limit.bits), 2.5);
    assert_eq!(set(&mut config, "watch_directories", "/a\n\n/b\n"), Ok(()));
    assert_eq!(config.watch_directories, list(&["/a", "/b"]));
}

#[test]
fn numbers_out_of_range_are_refused_with_the_parser_message() {
    let mut config = Config::default();
    let port = set(&mut config, "listen_port", "70000").unwrap_err();
    assert!(port.contains(&"70000".parse::<u16>().unwrap_err().to_string()), "{}", port);
    let number = set(&mut config, "max_uploads", "many").unwrap_err();
    assert!(number.contains(&"many".parse::<i32>().unwrap_err().to_string()), "{}", number);
    assert_eq!(config, Config::default());
}

#[test]
fn unknown_keys_are_not_settings() {
    assert!(find_setting("no_such_key").is_none());
    assert!(is_restart_key("listen_port"));
    assert!(!is_restart_key("enable_dht"));
}

#[test]
fn switches_read_the_usual_words() {
    for word in ["true", "1", "yes"] {
        assert!(parse_bool(word), "{}", word);
    }
    for word in ["false", "0", "no", "on", "TRUE", ""] {
        assert!(!parse_bool(word), "{}", word);
    }
}

#[test]
fn lines_of_a_list_are_trimmed_and_filled() {
    assert_eq!(text_lines(" /a \n\n\t\n/b"), list(&["/a", "/b"]));
}
