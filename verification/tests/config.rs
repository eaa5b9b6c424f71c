use git_branches::config::{get_config_dir, get_data_dir, log_level, version};

#[test]
fn data_dir_prefers_the_environment() {
    assert_eq!(get_data_dir(Some("/env"), Some("/platform"), "./.data"), "/env");
    assert_eq!(get_data_dir(Some("/env"), None, "./.data"), "/env");
    assert_eq!(get_data_dir(None, Some("/platform"), "./.data"), "/platform");
    assert_eq!(get_data_dir(None, None, "./.data"), "./.data");
}

#[test]
fn config_dir_prefers_the_environment() {
    assert_eq!(get_config_dir(Some("/env"), Some("/platform"), "./.config"), "/env");
    assert_eq!(get_config_dir(None, Some("/platform"), "./.config"), "/platform");
    assert_eq!(get_config_dir(None::<&str>, None, "./.config"), "./.config");
}

#[test]
fn log_level_defaults_to_info() {
    assert_eq!(log_level(Some(String::from("debug")), "brancher"), "debug");
    assert_eq!(log_level(None, "brancher"), "brancher=info");
}

#[test]
fn version_text_lists_everything() {
    let text = version("0.1.0-abc (2024-01-01)", "Jo", "/cfg", "/data", "app=info");
    assert_eq!(
        text,
        "0.1.0-abc (2024-01-01)\n\nAuthors: Jo\nConfig directory: /cfg\nData directory: /data\nLog level: app=info"
    );
}
