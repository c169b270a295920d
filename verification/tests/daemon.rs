use monsoon::autostart::{
    is_supervisor, marker_path, parse_init, probe, process_uid, service_unit, split_words, start_file,
    InitSigns, InitSystem,
};
use monsoon::background::Firing;
use monsoon::config::Config;
use monsoon::daemon::{
    already_running, filter_plan, needs_proxy, network_configured, notify_target, proxy_address,
    refuse_start, script_environment, stored_pid, Chore, Timers,
};
use monsoon::ipc::{Request, Response};
use monsoon::network::{
    auth_line, authorises, bad_request, ends_daemon, read_incoming, screen, token_eq, token_text,
    Incoming,
};
use monsoon::session::{config_to_settings, listen_endpoints, proxy_type_int, rates_representable};

#[test]
fn forced_encryption_needs_mitigation() {
    let mut config = Config::default();
    assert_eq!(refuse_start(&config), None);
    config.encryption_mode = "forced".to_string();
    config.ssrf_mitigation = false;
    assert!(refuse_start(&config).is_some());
    config.ssrf_mitigation = true;
    assert_eq!(refuse_start(&config), None);
}

#[test]
fn proxies_need_a_host_and_a_port() {
    let mut config = Config::default();
    assert!(!needs_proxy(&config));
    config.proxy_type = "socks5".to_string();
    assert!(needs_proxy(&config));
    assert_eq!(proxy_address("host", 1080), Ok("host:1080".to_string()));
    assert!(proxy_address(" ", 1080).is_err());
    assert!(proxy_address("host", 0).is_err());
}

#[test]
fn pid_files_hold_a_number() {
    assert_eq!(stored_pid(" 42\n"), Some(42));
    assert_eq!(stored_pid("x"), None);
    assert!(already_running(42, "/run/monsoon.pid").contains("42"));
}

#[test]
fn abstract_sockets_begin_with_a_zero() {
    assert_eq!(notify_target("/run/notify"), "/run/notify");
    assert_eq!(notify_target("@notify"), "\0notify");
}

#[test]
fn filters_and_listeners_are_planned_from_the_configuration() {
    let mut config = Config::default();
    assert!(filter_plan(&config).is_none());
    assert!(!network_configured(&config));
    config.ip_filter_path = "/f.dat".to_string();
    config.ip_filter_url = "http://host/f".to_string();
    let plan = filter_plan(&config).unwrap();
    assert_eq!(plan.path, "/f.dat");
    assert_eq!(plan.url, Some("http://host/f".to_string()));
    config.network_listen_address = "0.0.0.0:6800".to_string();
    assert!(network_configured(&config));
}

#[test]
fn scripts_learn_of_the_torrent() {
    let firing = Firing {
        index: 0,
        name: "n".to_string(),
        hash: "h".to_string(),
        save_path: "/p".to_string(),
        size: 7,
        category: Some("tv".to_string()),
    };
    let environment = script_environment(&firing);
    assert!(environment.contains(&("MONSOON_TOTAL_SIZE".to_string(), "7".to_string())));
    assert!(environment.contains(&("MONSOON_CATEGORY".to_string(), "tv".to_string())));
    assert_eq!(environment.len(), 5);
}

#[test]
fn chores_wait_for_their_interval() {
    let config = Config::default();
    let mut timers = Timers::start(1000);
    assert!(!timers.due(Chore::Alerts, 1499, false, &config));
    assert!(timers.due(Chore::Alerts, 1500, false, &config));
    timers.mark(Chore::Alerts, 1500);
    assert!(!timers.due(Chore::Alerts, 1600, false, &config));
    assert!(timers.due(Chore::Watch, 1000, false, &config));
    assert!(!timers.due(Chore::Watch, 1000, true, &config));
    assert!(!timers.due(Chore::Filter, u64::MAX, false, &config));
}

#[test]
fn tokens_are_compared_whole() {
    assert!(token_eq("abc", "abc"));
    assert!(!token_eq("abc", "abd"));
    assert!(!token_eq("abc", "ab"));
    assert!(authorises(&auth_line("secret"), "secret"));
    assert!(!authorises("secret", "secret"));
    // without a token nobody is let in
    assert!(!authorises("", ""));
    assert!(!authorises("hello", ""));
    assert!(!authorises(&auth_line(""), ""));
    assert!(!authorises(&auth_line("other"), "secret"));
}

#[test]
fn lines_hold_a_request_or_nothing() {
    assert_eq!(read_incoming(" \r\n"), Incoming::Nothing);
    assert_eq!(read_incoming(" {} \n"), Incoming::Text("{}".to_string()));
    assert_eq!(bad_request("x"), Response::Failed("bad request: x".to_string()));
}

#[test]
fn the_daemon_is_not_shut_down_from_afar() {
    assert_eq!(screen(Request::Shutdown, false), Ok(Request::Shutdown));
    assert!(screen(Request::Shutdown, true).is_err());
    assert_eq!(screen(Request::List, true), Ok(Request::List));
    assert!(ends_daemon(&Request::Shutdown));
    assert!(!ends_daemon(&Request::List));
}

#[test]
fn generated_tokens_are_hexadecimal() {
    let token = token_text(&vec![0u8; 32], 0);
    assert_eq!(token, "0".repeat(64));
    let token = token_text(&vec![0xabu8; 32], 0);
    assert!(token.starts_with("abab"));
}

#[test]
fn settings_follow_the_configuration() {
    let mut config = Config::default();
    config.max_uploads = -1;
    config.encryption_mode = "forced".to_string();
    config.proxy_type = "http_pw".to_string();
    assert!(rates_representable(&config));
    let settings = config_to_settings(&config);
    assert_eq!(settings.proxy_type, proxy_type_int("http_pw"));
    assert_eq!(settings.proxy_type, 5);
    assert_eq!(settings.enable_dht, config.enable_dht);
    config.download_rate_limit = i32::MAX;
    assert!(!rates_representable(&config));
}

#[test]
fn endpoints_join_addresses_and_port() {
    let mut config = Config::default();
    config.listen_port = 6881;
    config.listen_interfaces = vec!["eth0".to_string()];
    let ips = vec!["10.0.0.2".to_string(), "10.0.0.3".to_string()];
    assert_eq!(listen_endpoints(&config, &ips), "10.0.0.2:6881,10.0.0.3:6881");
    config.listen_interfaces = Vec::new();
    config.listen_address = "0.0.0.0".to_string();
    assert_eq!(listen_endpoints(&config, &Vec::new()), "0.0.0.0:6881");
}

fn signs(first: &str) -> InitSigns {
    InitSigns {
        first_process: first.to_string(),
        systemd_answers: true,
        dinit_socket: true,
        dinit_answers: false,
        runit_folder: true,
        runit_runs: true,
    }
}

#[test]
fn the_first_process_tells_the_init_system() {
    assert_eq!(probe(&signs("systemd\n")), InitSystem::Systemd);
    assert_eq!(probe(&signs("Runit")), InitSystem::Runit);
    assert_eq!(probe(&signs("dinit")), InitSystem::Dinit);
    assert_eq!(probe(&signs("busybox")), InitSystem::Xdg);
    assert_eq!(
        probe(&InitSigns { systemd_answers: false, ..signs("systemd") }),
        InitSystem::Xdg
    );
    assert_eq!(parse_init("dinit"), Some(InitSystem::Dinit));
    assert_eq!(parse_init("upstart"), None);
    assert_eq!(InitSystem::Runit.name(), "runit");
}

#[test]
fn start_files_run_the_daemon() {
    for init in [InitSystem::Systemd, InitSystem::Runit, InitSystem::Dinit, InitSystem::Xdg] {
        let file = start_file(init, "/c", "/d", "/usr/bin/monsoon");
        assert!(file.content.contains("/usr/bin/monsoon"), "{:?}", file);
        assert!(marker_path(init, "/c").starts_with("/c/"));
        assert_eq!(file.executable, init == InitSystem::Runit);
    }
    assert!(service_unit("/usr/bin/monsoon").contains("ExecStart=/usr/bin/monsoon"));
}

#[test]
fn words_are_split_as_the_system_does() {
    let text = " a\tb \n c\u{a0}d ";
    let expected: Vec<String> = text.split_whitespace().map(|w| w.to_string()).collect();
    assert_eq!(split_words(text), expected);
    assert_eq!(process_uid("Name:\tx\nUid:\t1000\t1000\t1000\t1000\n"), Some(1000));
    // the effective user, not the real one
    assert_eq!(process_uid("Name:\tx\nUid:\t1000\t0\t0\t0\n"), Some(0));
    assert_eq!(process_uid("Name:\tx\n"), None);
}

#[test]
fn supervisors_are_told_by_their_program() {
    assert!(is_supervisor(&b"/usr/bin/runsvdir\0-P\0/etc/service\0".to_vec()));
    assert!(is_supervisor(&b"runsvdir".to_vec()));
    assert!(!is_supervisor(&b"grep\0runsvdir\0".to_vec()));
    assert!(!is_supervisor(&b"runsv".to_vec()));
    assert!(!is_supervisor(&Vec::new()));
}
