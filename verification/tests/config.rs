use ylurm::config::{
    Config, DisplayConfig, GeneralConfig, KeyBindings, PathMappings, RemoteConfig,
    DEFAULT_CONFIG_FILE,
};

fn entries(mappings: &PathMappings) -> Vec<(String, String)> {
    (0..mappings.len())
        .map(|i| {
            let (from, to) = mappings.entry(i);
            (from.to_string(), to.to_string())
        })
        .collect()
}

fn pairs(list: &[(&str, &str)]) -> Vec<(String, String)> {
    list.iter().map(|(a, b)| (a.to_string(), b.to_string())).collect()
}

#[test]
fn general_defaults() {
    let general = GeneralConfig::default();
    assert_eq!(general.refresh_interval, 2);
    assert!(general.squeue_args.is_empty());
    assert!(!general.all_users);
}

#[test]
fn keybinding_defaults() {
    let keys = KeyBindings::default();
    assert_eq!(keys.quit, "q");
    assert_eq!(keys.up, "k");
    assert_eq!(keys.down, "j");
    assert_eq!(keys.top, "g");
    assert_eq!(keys.bottom, "G");
    assert_eq!(keys.toggle_logs, "l");
    assert_eq!(keys.cancel_job, "x");
    assert_eq!(keys.refresh, "r");
    assert_eq!(keys.ssh_view_log, "s");
}

#[test]
fn display_defaults() {
    let display = DisplayConfig::default();
    assert_eq!(
        display.columns,
        vec!["JobID", "Partition", "Name", "User", "State", "Time", "Nodes", "NodeList"]
    );
    assert_eq!(display.theme, "default");
    assert!(display.show_details);
}

#[test]
fn remote_defaults() {
    let remote = RemoteConfig::default();
    assert!(remote.ssh_enabled);
    assert_eq!(remote.path_mappings.len(), 0);
    assert_eq!(remote.ssh_timeout, 5);
}

#[test]
fn config_defaults_are_those_of_its_parts() {
    let config = Config::default();
    assert_eq!(config.general.refresh_interval, 2);
    assert!(!config.general.all_users);
    assert_eq!(config.keybindings.quit, "q");
    assert_eq!(config.keybindings.ssh_view_log, "s");
    assert_eq!(config.display.columns.len(), 8);
    assert_eq!(config.display.theme, "default");
    assert!(config.remote.ssh_enabled);
    assert_eq!(config.remote.ssh_timeout, 5);
    let copy = config.clone();
    assert_eq!(copy.keybindings.bottom, "G");
    assert_eq!(copy.remote.path_mappings.len(), 0);
}

#[test]
fn generated_file_is_the_default_file() {
    let file = Config::generate_default();
    assert_eq!(file, DEFAULT_CONFIG_FILE);
    assert!(file.starts_with("# ylurm configuration\n# Place this file at ~/.config/ylurm/config.toml\n"));
    assert!(file.ends_with("# \"/raid/asds/\" = \"/nfs/a100/asds/\"\n"));
    assert_eq!(file.lines().count(), 35);
}

#[test]
fn generated_file_names_the_defaults() {
    let file = Config::generate_default();
    for line in [
        "[general]",
        "refresh_interval = 2",
        "all_users = false",
        "# squeue_args = [\"--partition=a100\"]",
        "[keybindings]",
        "quit = \"q\"",
        "up = \"k\"",
        "down = \"j\"",
        "top = \"g\"",
        "bottom = \"G\"",
        "toggle_logs = \"l\"",
        "cancel_job = \"x\"",
        "refresh = \"r\"",
        "ssh_view_log = \"s\"",
        "[display]",
        "theme = \"default\"",
        "show_details = true",
        "columns = [\"JobID\", \"Partition\", \"Name\", \"User\", \"State\", \"Time\", \"Nodes\", \"NodeList\"]",
        "[remote]",
        "ssh_enabled = true",
        "ssh_timeout = 5",
        "# [remote.path_mappings]",
    ] {
        assert!(file.lines().any(|l| l == line), "{}", line);
    }
}

#[test]
fn mappings_start_empty() {
    let mappings = PathMappings::new();
    assert_eq!(mappings.len(), 0);
    assert!(entries(&mappings).is_empty());
}

#[test]
fn mappings_keep_order_of_first_insertion() {
    let mut mappings = PathMappings::new();
    mappings.insert("/b/".to_string(), "/1/".to_string());
    mappings.insert("/a/".to_string(), "/2/".to_string());
    mappings.insert("/c/".to_string(), "/3/".to_string());
    assert_eq!(mappings.len(), 3);
    assert_eq!(entries(&mappings), pairs(&[("/b/", "/1/"), ("/a/", "/2/"), ("/c/", "/3/")]));
    assert_eq!(mappings.entry(1), ("/a/", "/2/"));
}

#[test]
fn mappings_replace_entry_of_same_prefix() {
    let mut mappings = PathMappings::new();
    mappings.insert("/b/".to_string(), "/1/".to_string());
    mappings.insert("/a/".to_string(), "/2/".to_string());
    mappings.insert("/b/".to_string(), "/9/".to_string());
    assert_eq!(mappings.len(), 2);
    assert_eq!(entries(&mappings), pairs(&[("/b/", "/9/"), ("/a/", "/2/")]));
    mappings.insert("/a/".to_string(), "/2/".to_string());
    assert_eq!(entries(&mappings), pairs(&[("/b/", "/9/"), ("/a/", "/2/")]));
    mappings.distinct();
}

#[test]
fn mappings_clone_is_equal_and_separate() {
    let mut mappings = PathMappings::new();
    mappings.insert("/a/".to_string(), "/1/".to_string());
    let copy = mappings.clone();
    mappings.insert("/b/".to_string(), "/2/".to_string());
    assert_eq!(entries(&copy), pairs(&[("/a/", "/1/")]));
    assert_eq!(mappings.len(), 2);
}
