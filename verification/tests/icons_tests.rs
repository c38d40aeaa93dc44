use lsa::icons::{find_icon, get_file_icon, IconRule, IconTheme};
use lsa::parser::{detect_format, format_of_extension, DataFormat, DataValue, Member};

fn rule(key: &str, icon: &str) -> IconRule {
    IconRule { key: key.to_string(), icon: icon.to_string() }
}

fn icon_theme() -> IconTheme {
    IconTheme {
        dir: "D".to_string(),
        file: "F".to_string(),
        extension: vec![rule("rs", "R"), rule("md", "M"), rule("rs", "second")],
        name: vec![rule("makefile", "K"), rule(".gitignore", "G")],
    }
}

#[test]
fn directories_get_the_directory_icon() {
    let t = icon_theme();
    assert_eq!(get_file_icon(&t, "src", true), "D");
    assert_eq!(get_file_icon(&t, "weird.rs", true), "D");
}

#[test]
fn files_get_the_icon_of_their_extension() {
    let t = icon_theme();
    assert_eq!(get_file_icon(&t, "main.rs", false), "R");
    assert_eq!(get_file_icon(&t, "dir/README.MD", false), "M");
    assert_eq!(get_file_icon(&t, "a.unknown", false), "F");
}

#[test]
fn files_without_extension_get_the_icon_of_their_name() {
    let t = icon_theme();
    assert_eq!(get_file_icon(&t, "Makefile", false), "K");
    assert_eq!(get_file_icon(&t, "x/.gitignore", false), "G");
    assert_eq!(get_file_icon(&t, "LICENSE", false), "F");
    assert_eq!(get_file_icon(&t, "", false), "F");
    // A name rule does not apply to a file with an extension.
    assert_eq!(get_file_icon(&t, "makefile.bak", false), "F");
}

#[test]
fn the_first_rule_with_a_key_wins() {
    let t = icon_theme();
    assert_eq!(find_icon(&t.extension, "rs"), Some("R"));
    assert_eq!(find_icon(&t.extension, "RS"), None);
    assert_eq!(find_icon(&Vec::new(), "rs"), None);
}

#[test]
fn formats_are_detected_by_extension() {
    assert_eq!(detect_format("config.json"), Ok(DataFormat::Json));
    assert_eq!(detect_format("a/b/settings.YAML"), Ok(DataFormat::Yaml));
    assert_eq!(detect_format("x.yml"), Ok(DataFormat::Yaml));
    assert_eq!(detect_format("Cargo.toml"), Ok(DataFormat::Toml));
    assert_eq!(detect_format("notes.TXT"), Err("Unsupported file format: txt".to_string()));
    assert_eq!(detect_format("Makefile"), Err("Unsupported file format: ".to_string()));
    assert_eq!(format_of_extension("JSON"), Err("Unsupported file format: JSON".to_string()));
}

#[test]
fn formats_have_their_names() {
    assert_eq!(DataFormat::Json.name(), "JSON");
    assert_eq!(DataFormat::Yaml.name(), "YAML");
    assert_eq!(DataFormat::Toml.name(), "TOML");
}

#[test]
fn values_are_shown_in_cells() {
    assert_eq!(DataValue::String("hi".to_string()).to_display_string(), "hi");
    assert_eq!(DataValue::Number("42".to_string()).to_display_string(), "42");
    assert_eq!(DataValue::Boolean(true).to_display_string(), "true");
    assert_eq!(DataValue::Boolean(false).to_display_string(), "false");
    assert_eq!(DataValue::Null.to_display_string(), "null");
    assert_eq!(DataValue::Array(Vec::new()).to_display_string(), "▸ table");
    let obj = DataValue::Object(vec![Member { key: "k".to_string(), value: DataValue::Null }]);
    assert_eq!(obj.to_display_string(), "▸ table");
}

#[test]
fn leaves_are_simple_values() {
    assert!(DataValue::String(String::new()).is_simple_value());
    assert!(DataValue::Number("1.5".to_string()).is_simple_value());
    assert!(DataValue::Boolean(false).is_simple_value());
    assert!(DataValue::Null.is_simple_value());
    assert!(!DataValue::Array(Vec::new()).is_simple_value());
    assert!(!DataValue::Object(Vec::new()).is_simple_value());
}
