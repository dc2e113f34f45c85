use glowlay::config::{config_search_paths, default_anchor, expand_home, search_paths_from, Config};

#[test]
fn default_anchor_is_top_left() {
    assert_eq!(default_anchor(), "top-left");
}

#[test]
fn fallback_config_matches_documented_defaults() {
    let c = Config::fallback();
    assert_eq!(c.window.width, 240);
    assert_eq!(c.window.height, 350);
    assert_eq!(c.window.x, 40);
    assert_eq!(c.window.y, 40);
    assert_eq!(c.window.anchor, "top-left");
    assert_eq!(c.monitor.update_interval_ms, 1000);
    assert!(c.features.enable_cpu && c.features.enable_mem && c.features.enable_gpu);
    assert!(c.features.enable_storage && c.features.enable_network);
    assert_eq!(c.network.interface, "");
    assert_eq!(c.storage.paths, vec!["/".to_string()]);
}

#[test]
fn search_order_without_executable() {
    let paths = search_paths_from(None, None);
    assert_eq!(
        paths,
        vec![
            "./config.toml".to_string(),
            "~/.config/glowlay/config.toml".to_string(),
            "/etc/glowlay/config.toml".to_string(),
        ]
    );
}

#[test]
fn search_order_puts_executable_first_and_project_last() {
    let paths = search_paths_from(Some("/opt/app/config.toml".to_string()), Some("/src/config.toml".to_string()));
    assert_eq!(paths.len(), 5);
    assert_eq!(paths[0], "/opt/app/config.toml");
    assert_eq!(paths[1], "./config.toml");
    assert_eq!(paths[2], "~/.config/glowlay/config.toml");
    assert_eq!(paths[3], "/etc/glowlay/config.toml");
    assert_eq!(paths[4], "/src/config.toml");
}

#[test]
fn search_paths_for_installed_executable() {
    let paths = config_search_paths(Some("/usr/local/bin/glowlay"));
    assert_eq!(
        paths,
        vec![
            "/usr/local/bin/config.toml".to_string(),
            "./config.toml".to_string(),
            "~/.config/glowlay/config.toml".to_string(),
            "/etc/glowlay/config.toml".to_string(),
            "/usr/config.toml".to_string(),
        ]
    );
}

#[test]
fn search_paths_for_cargo_build() {
    let paths = config_search_paths(Some("/home/u/glowlay/target/release/glowlay"));
    assert_eq!(paths[0], "/home/u/glowlay/target/release/config.toml");
    assert_eq!(paths[4], "/home/u/glowlay/config.toml");
}

#[test]
fn search_paths_near_the_root() {
    // "/glowlay" has the parent "/", which has no parent: no project file.
    let paths = config_search_paths(Some("/glowlay"));
    assert_eq!(paths.len(), 4);
    assert_eq!(paths[0], "/config.toml");
}

#[test]
fn search_paths_without_known_executable() {
    assert_eq!(config_search_paths(None).len(), 3);
}

#[test]
fn home_expansion_replaces_tilde() {
    let p = expand_home("~/.config/glowlay/config.toml", Some("/home/u"));
    assert_eq!(p, "/home/u/.config/glowlay/config.toml");
}

#[test]
fn home_expansion_without_home_keeps_path() {
    let p = expand_home("~/.config/glowlay/config.toml", None);
    assert_eq!(p, "~/.config/glowlay/config.toml");
}

#[test]
fn home_expansion_leaves_other_paths() {
    assert_eq!(expand_home("/etc/glowlay/config.toml", Some("/home/u")), "/etc/glowlay/config.toml");
    assert_eq!(expand_home("./config.toml", Some("/home/u")), "./config.toml");
    assert_eq!(expand_home("", Some("/home/u")), "");
}

#[test]
fn home_expansion_of_bare_tilde_slash() {
    assert_eq!(expand_home("~/", Some("/home/u")), "/home/u/");
}

use glowlay::config::{first_search_step, next_search_step, SearchStep};

#[test]
fn search_starts_with_first_candidate() {
    assert_eq!(first_search_step(5), SearchStep::Try(0));
    assert_eq!(first_search_step(0), SearchStep::Fallback);
}

#[test]
fn search_uses_first_loadable_candidate() {
    let loaded = [false, false, true, true];
    let mut step = first_search_step(loaded.len());
    let mut tried = Vec::new();
    let chosen = loop {
        match step {
            SearchStep::Try(i) => {
                tried.push(i);
                step = next_search_step(loaded.len(), i, loaded[i]);
            }
            other => break other,
        }
    };
    assert_eq!(chosen, SearchStep::Use(2));
    assert_eq!(tried, vec![0, 1, 2]);
}

#[test]
fn search_falls_back_when_nothing_loads() {
    assert_eq!(next_search_step(3, 2, false), SearchStep::Fallback);
    assert_eq!(next_search_step(3, 0, false), SearchStep::Try(1));
    assert_eq!(next_search_step(3, 2, true), SearchStep::Use(2));
}

#[test]
fn project_root_with_trailing_separator_parent() {
    // The executable's directory already ends without a separator; joining adds one.
    let paths = config_search_paths(Some("bin/glowlay"));
    assert_eq!(paths[0], "bin/config.toml");
    // "bin" has the parent "", whose parent is unknown: no project file.
    assert_eq!(paths.len(), 4);
}

fn settle(loaded: &[bool]) -> SearchStep {
    let mut step = first_search_step(loaded.len());
    loop {
        match step {
            SearchStep::Try(i) => step = next_search_step(loaded.len(), i, loaded[i]),
            other => return other,
        }
    }
}

#[test]
fn lower_ranked_file_never_overrides() {
    // Candidate 3 becomes loadable; candidate 1 already was.
    assert_eq!(settle(&[false, true, false, false]), SearchStep::Use(1));
    assert_eq!(settle(&[false, true, false, true]), SearchStep::Use(1));
    // With nothing ranked before it, candidate 3 wins.
    assert_eq!(settle(&[false, false, false, false]), SearchStep::Fallback);
    assert_eq!(settle(&[false, false, false, true]), SearchStep::Use(3));
}

#[test]
fn joining_an_empty_rest_adds_a_separator() {
    assert_eq!(expand_home("~/", Some("/home/u/")), "/home/u/");
    assert_eq!(expand_home("~xabs", Some("/home/u")), "/home/u/abs");
    assert_eq!(expand_home("~x/abs", Some("/home/u")), "/abs");
    assert_eq!(expand_home("~/", Some("/home/u")), "/home/u/");
}
