use web_automator::config::{
    find_instruction_file_for_domain, locate_instruction_file, get_domain_from_url, ConfigError, ConfigYaml, DomainConfig,
};

fn two_domains() -> ConfigYaml {
    let entry = |path: &str| DomainConfig {
        instructions: path.to_string(),
        skip_elements: Some(vec!["div.x".to_string()]),
        loop_config: None,
        cookie_file: None,
    };
    ConfigYaml {
        domains: vec![
            ("a.com".to_string(), entry("/abs/a.yaml")),
            ("b.com".to_string(), entry("rel/b.yaml")),
        ],
    }
}

#[test]
fn domain_lookup() {
    let cfg = two_domains();
    assert_eq!(cfg.get_domain_config("b.com").unwrap().instructions, "rel/b.yaml");
    assert!(cfg.get_domain_config("c.com").is_none());
}

#[test]
fn instruction_file_absolute_and_relative() {
    let cfg = two_domains();
    let a = find_instruction_file_for_domain(&cfg, "/etc/bot", "a.com").unwrap();
    assert_eq!(a.path, "/abs/a.yaml");
    assert_eq!(a.skip_elements, Some(vec!["div.x".to_string()]));
    let b = find_instruction_file_for_domain(&cfg, "/etc/bot", "b.com").unwrap();
    assert_eq!(b.path, "/etc/bot/rel/b.yaml");
    assert_eq!(
        find_instruction_file_for_domain(&cfg, "/etc/bot", "c.com").unwrap_err(),
        ConfigError::NoConfiguration
    );
}

#[test]
fn domain_from_url() {
    assert_eq!(get_domain_from_url("https://www.example.com/a?b=1").unwrap(), "www.example.com");
    assert_eq!(get_domain_from_url("http://127.0.0.1:8080/"), Err(ConfigError::InvalidDomain));
    assert_eq!(get_domain_from_url("not a url"), Err(ConfigError::InvalidDomain));
}

#[test]
fn located_path_is_configured_or_joined() {
    let cfg = two_domains();
    let a = &cfg.domains[0].1;
    let abs = locate_instruction_file(a, true, "/etc/bot//abs/a.yaml".to_string());
    assert_eq!(abs.path, "/abs/a.yaml");
    let b = &cfg.domains[1].1;
    let rel = locate_instruction_file(b, false, "/etc/bot/rel/b.yaml".to_string());
    assert_eq!(rel.path, "/etc/bot/rel/b.yaml");
    assert_eq!(rel.skip_elements, Some(vec!["div.x".to_string()]));
}
