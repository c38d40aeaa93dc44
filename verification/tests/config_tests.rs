use lsa::config::{config_path, join, Config};

#[test]
fn default_theme_is_catppuccin() {
    assert_eq!(Config::default().default_theme, "catppuccin");
}

#[test]
fn loaded_configuration_wins_over_the_default() {
    let loaded = Config { default_theme: "nord".to_string() };
    assert_eq!(Config::or_default(Some(loaded)).default_theme, "nord");
    assert_eq!(Config::or_default(None).default_theme, "catppuccin");
}

#[test]
fn configuration_file_lies_below_the_configuration_directory() {
    assert_eq!(config_path(Some("/home/me/.config")), "/home/me/.config/lsa/config.toml");
    assert_eq!(config_path(Some("/home/me/.config/")), "/home/me/.config/lsa/config.toml");
    assert_eq!(config_path(None), "./lsa/config.toml");
}

#[test]
fn joining_follows_path_rules() {
    let p = std::path::PathBuf::from("/a").join("lsa").join("config.toml");
    assert_eq!(join(join("/a".to_string(), "lsa"), "config.toml"), p.to_str().unwrap());
    assert_eq!(join(String::new(), "lsa"), "lsa");
    assert_eq!(join("/".to_string(), "lsa"), "/lsa");
}
