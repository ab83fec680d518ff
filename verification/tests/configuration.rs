use runz::cmd::link_target;
use runz::config::{
    config_format, config_path_from_args, default_candidates, find_config_path, first_candidate,
    option_value, raw_config_from_args, resolve_wdir, split_inline_config, validate_config,
    Config, ConfigError, ConfigFormat, ConfigPath, RawConfig, RawServiceConfig,
};

fn raw(prog: &str) -> RawServiceConfig {
    RawServiceConfig { prog: prog.to_string(), args: None, name: None, wdir: None }
}

fn strings(items: &[&str]) -> Vec<String> {
    items.iter().map(|s| s.to_string()).collect()
}

#[test]
fn services_are_resolved_in_place() {
    let config = RawConfig {
        name: "demo".to_string(),
        services: vec![
            raw("echo"),
            RawServiceConfig {
                prog: "ls".to_string(),
                args: Some(strings(&["-l", "-a"])),
                name: Some("list".to_string()),
                wdir: Some("/srv/./data/../logs".to_string()),
            },
        ],
    };
    let base = "/home/me".to_string();
    let got = Config::from_raw(&config, &base).expect("a valid configuration");
    assert_eq!(got.name, "demo");
    assert_eq!(got.services.len(), 2);
    assert_eq!(got.services[0].id, "0");
    assert_eq!(got.services[0].prog, "echo");
    assert_eq!(got.services[0].name, "echo");
    assert!(got.services[0].args.is_empty());
    assert_eq!(got.services[0].wdir, "/home/me");
    assert_eq!(got.services[1].id, "1");
    assert_eq!(got.services[1].name, "list");
    assert_eq!(got.services[1].args, strings(&["-l", "-a"]));
    assert_eq!(got.services[1].wdir, "/srv/logs");
}

#[test]
fn ids_count_in_decimal() {
    let config = RawConfig {
        name: "many".to_string(),
        services: (0..12).map(|_| raw("true")).collect(),
    };
    let got = validate_config(&config, &"/".to_string()).expect("a valid configuration");
    assert_eq!(got.services[9].id, "9");
    assert_eq!(got.services[10].id, "10");
    assert_eq!(got.services[11].id, "11");
}

#[test]
fn relative_directory_starts_at_the_base() {
    let base = "/home/me".to_string();
    assert_eq!(resolve_wdir(&Some("work/../play".to_string()), &base), "/home/me/play");
    assert_eq!(resolve_wdir(&Some("/opt//tool/".to_string()), &base), "/opt/tool");
    assert_eq!(resolve_wdir(&None, &base), "/home/me");
}

#[test]
fn blank_program_is_refused_by_name() {
    let config = RawConfig {
        name: "demo".to_string(),
        services: vec![
            raw("echo"),
            RawServiceConfig { prog: " \t\n".to_string(), args: None, name: Some("web".to_string()), wdir: None },
            raw(""),
        ],
    };
    match Config::from_raw(&config, &"/".to_string()) {
        Err(ConfigError::MissingProgram { service }) => assert_eq!(service, "web"),
        other => panic!("unexpected result {:?}", other),
    }
}

#[test]
fn blank_program_without_name_is_unnamed() {
    let config = RawConfig { name: "demo".to_string(), services: vec![raw("")] };
    match validate_config(&config, &"/".to_string()) {
        Err(ConfigError::MissingProgram { service }) => assert_eq!(service, "unnamed"),
        other => panic!("unexpected result {:?}", other),
    }
}

#[test]
fn padded_program_is_kept_as_written() {
    let config = RawConfig { name: "demo".to_string(), services: vec![raw(" echo ")] };
    let got = validate_config(&config, &"/".to_string()).expect("a valid configuration");
    assert_eq!(got.services[0].prog, " echo ");
}

#[test]
fn empty_configuration_is_refused() {
    let config = RawConfig { name: "demo".to_string(), services: vec![] };
    assert!(matches!(validate_config(&config, &"/".to_string()), Err(ConfigError::NoServices)));
}

#[test]
fn service_count_is_capped() {
    let at_cap = RawConfig { name: "demo".to_string(), services: (0..200).map(|_| raw("true")).collect() };
    let over = RawConfig { name: "demo".to_string(), services: (0..201).map(|_| raw("true")).collect() };
    assert_eq!(validate_config(&at_cap, &"/".to_string()).expect("at the cap").services.len(), 200);
    assert!(matches!(validate_config(&over, &"/".to_string()), Err(ConfigError::TooManyServices)));
}

#[test]
fn formats_by_tag() {
    assert_eq!(config_format("yaml"), Some(ConfigFormat::Yaml));
    assert_eq!(config_format("yml"), Some(ConfigFormat::Yaml));
    assert_eq!(config_format("json"), Some(ConfigFormat::Json));
    assert_eq!(config_format("jsonc"), Some(ConfigFormat::Json));
    assert_eq!(config_format("toml"), Some(ConfigFormat::Toml));
    assert_eq!(config_format("ini"), None);
    assert_eq!(config_format(""), None);
    assert_eq!(config_format("YAML"), None);
}

#[test]
fn option_value_follows_the_first_flag() {
    let args = strings(&["runz", "-x", "-c", "a.toml", "--config", "b.toml"]);
    assert_eq!(option_value(&args, "-c", "--config"), Some("a.toml".to_string()));
    assert_eq!(config_path_from_args(&args), Some("a.toml".to_string()));
    assert_eq!(raw_config_from_args(&args), None);
}

#[test]
fn option_in_program_name_is_not_seen() {
    let args = strings(&["-c", "x", "y"]);
    assert_eq!(config_path_from_args(&args), None);
}

#[test]
fn trailing_option_has_no_value() {
    let args = strings(&["runz", "--raw-config"]);
    assert_eq!(raw_config_from_args(&args), None);
    let args = strings(&["runz", "-r", "json|{}"]);
    assert_eq!(raw_config_from_args(&args), Some("json|{}".to_string()));
    assert_eq!(raw_config_from_args(&Vec::new()), None);
}

#[test]
fn option_value_may_be_a_flag_itself() {
    let args = strings(&["runz", "-c", "-c", "z"]);
    assert_eq!(config_path_from_args(&args), Some("-c".to_string()));
}

#[test]
fn config_path_by_precedence() {
    let present = vec![false, true, true, false, false];
    match find_config_path(Some("a".to_string()), Some("b".to_string()), &present) {
        Some(ConfigPath::Given(p)) => assert_eq!(p, "a"),
        other => panic!("unexpected path {:?}", other),
    }
    match find_config_path(None, Some("b".to_string()), &present) {
        Some(ConfigPath::Given(p)) => assert_eq!(p, "b"),
        other => panic!("unexpected path {:?}", other),
    }
    match find_config_path(None, None, &present) {
        Some(ConfigPath::Candidate(i)) => assert_eq!(i, 1),
        other => panic!("unexpected path {:?}", other),
    }
    assert!(find_config_path(None, None, &vec![false; 5]).is_none());
    assert_eq!(first_candidate(&vec![]), None);
}

#[test]
fn default_candidates_in_order() {
    assert_eq!(
        default_candidates(),
        strings(&["runz.yaml", "runz.yml", "runz.json", "runz.jsonc", "runz.toml"])
    );
}

#[test]
fn inline_configuration_splits_at_the_first_bar() {
    let got = split_inline_config(&" json | \"{\"a\":\"x|y\"}\" ".to_string());
    assert_eq!(got, Some(("json".to_string(), "{\"a\":\"x|y\"}".to_string())));
    assert_eq!(split_inline_config(&"no bar here".to_string()), None);
    assert_eq!(split_inline_config(&"|".to_string()), Some((String::new(), String::new())));
}

#[test]
fn link_is_freed_of_space_and_quotes() {
    assert_eq!(link_target(&"  \"'https://example.org'\"\n".to_string()), "https://example.org");
    assert_eq!(link_target(&"https://example.org".to_string()), "https://example.org");
    assert_eq!(link_target(&"\"\"".to_string()), "");
}

#[test]
fn unicode_whitespace_makes_a_blank_program() {
    let spaces = "\u{9}\u{b}\u{c}\u{d}\u{85}\u{a0}\u{1680}\u{2000}\u{200a}\u{2028}\u{2029}\u{202f}\u{205f}\u{3000}";
    let config = RawConfig { name: "demo".to_string(), services: vec![raw(spaces)] };
    assert!(matches!(
        validate_config(&config, &"/".to_string()),
        Err(ConfigError::MissingProgram { .. })
    ));
}

#[test]
fn zero_width_space_is_not_whitespace() {
    let config = RawConfig { name: "demo".to_string(), services: vec![raw("\u{200b}")] };
    let got = validate_config(&config, &"/".to_string()).expect("not blank");
    assert_eq!(got.services[0].prog, "\u{200b}");
    let config = RawConfig { name: "demo".to_string(), services: vec![raw("\u{1f}")] };
    assert!(validate_config(&config, &"/".to_string()).is_ok());
}
