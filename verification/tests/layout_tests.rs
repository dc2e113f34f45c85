use glowlay::config::{Config, FeaturesConfig, StorageConfig, WindowConfig};
use glowlay::layout::{placement, storage_row_title, storage_row_titles, window_size, Anchor};

fn window(anchor: &str, x: i32, y: i32) -> WindowConfig {
    WindowConfig { width: 210, height: 460, x, y, anchor: anchor.to_string() }
}

#[test]
fn anchors_are_recognised() {
    assert_eq!(Anchor::from_name("top-left"), Anchor::TopLeft);
    assert_eq!(Anchor::from_name("top-right"), Anchor::TopRight);
    assert_eq!(Anchor::from_name("bottom-left"), Anchor::BottomLeft);
    assert_eq!(Anchor::from_name("bottom-right"), Anchor::BottomRight);
}

#[test]
fn unknown_anchor_means_top_left() {
    assert_eq!(Anchor::from_name("middle"), Anchor::TopLeft);
    assert_eq!(Anchor::from_name(""), Anchor::TopLeft);
    assert_eq!(Anchor::from_name("Top-Right"), Anchor::TopLeft);
}

#[test]
fn top_right_placement_from_readme_example() {
    let p = placement(&window("top-right", 40, 40));
    assert!(p.top && !p.bottom && p.right && !p.left);
    assert_eq!(p.vertical_margin, 20);
    assert_eq!(p.horizontal_margin, 20);
}

#[test]
fn bottom_left_placement() {
    let p = placement(&window("bottom-left", 100, 75));
    assert!(p.bottom && !p.top && p.left && !p.right);
    assert_eq!(p.vertical_margin, 55);
    assert_eq!(p.horizontal_margin, 80);
}

#[test]
fn small_offsets_clamp_to_zero() {
    let p = placement(&window("bottom-right", 5, -30));
    assert!(p.bottom && p.right);
    assert_eq!(p.vertical_margin, 0);
    assert_eq!(p.horizontal_margin, 0);
    let q = placement(&window("top-left", 20, 21));
    assert_eq!(q.horizontal_margin, 0);
    assert_eq!(q.vertical_margin, 1);
}

#[test]
fn window_size_adds_glow_room() {
    assert_eq!(window_size(&window("top-left", 0, 0)), (250, 500));
    assert_eq!(window_size(&Config::fallback().window), (280, 390));
}

#[test]
fn storage_titles_follow_configuration() {
    let features = Config::fallback().features;
    let storage = StorageConfig { paths: vec!["/".to_string(), "/home".to_string()] };
    assert_eq!(storage_row_titles(&features, &storage), vec!["STORAGE (/)".to_string(), "STORAGE (/home)".to_string()]);
}

#[test]
fn storage_titles_absent_when_storage_off() {
    let features = FeaturesConfig {
        enable_cpu: true,
        enable_mem: true,
        enable_gpu: false,
        enable_storage: false,
        enable_network: true,
    };
    let storage = StorageConfig { paths: vec!["/".to_string()] };
    assert!(storage_row_titles(&features, &storage).is_empty());
}

#[test]
fn storage_title_format() {
    assert_eq!(storage_row_title("/mnt/データ"), "STORAGE (/mnt/データ)");
}
