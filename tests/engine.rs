use wpaperd::config::{Config, ConfigError, OutputEntry, WallpaperConfig};
use wpaperd::settings::{FillMode, WallpaperSettings};
use wpaperd::surface::{ConfigureAction, Dimensions, SurfaceState};
use wpaperd::wpaperd::Wpaperd;

fn settings(path: &str, mode: FillMode) -> WallpaperSettings {
    WallpaperSettings::new(path.to_string(), mode)
}

fn entry(name: &str, path: &str) -> OutputEntry {
    OutputEntry { name: name.to_string(), settings: settings(path, FillMode::Fill) }
}

fn config(entries: Vec<OutputEntry>, default: &str) -> WallpaperConfig {
    WallpaperConfig::from_entries(
        "/home/user/.config/wpaperd/wallpaper.toml".to_string(),
        entries,
        settings(default, FillMode::Fill),
    )
    .unwrap()
}

fn dims(width: u32, height: u32) -> Dimensions {
    Dimensions { width, height }
}

#[test]
fn end_to_end_two_outputs() {
    let cfg = config(vec![entry("eDP-1", "/walls/a.png")], "/walls/d.png");
    let mut engine = Wpaperd::new(cfg, false);
    engine.new_output(1, 101, "eDP-1".to_string(), 1);
    engine.new_output(2, 102, "HDMI-1".to_string(), 1);
    assert_eq!(engine.surfaces.len(), 2);
    let edp = &engine.surfaces[engine.find_by_output(1).unwrap()];
    assert_eq!(edp.name, "eDP-1");
    assert_eq!(edp.settings.path, "/walls/a.png");
    let hdmi = &engine.surfaces[engine.find_by_output(2).unwrap()];
    assert_eq!(hdmi.name, "HDMI-1");
    assert_eq!(hdmi.settings.path, "/walls/d.png");

    let gone = engine.output_destroyed(2);
    assert_eq!(gone.name, "HDMI-1");
    assert_eq!(engine.surfaces.len(), 1);
    assert_eq!(engine.surfaces[0].name, "eDP-1");
    assert!(engine.has_output(1));
    assert!(!engine.has_output(2));
    assert!(!engine.has_layer(102));
}

#[test]
fn registry_size_follows_live_outputs() {
    let mut engine = Wpaperd::new(config(vec![], "/walls/d.png"), false);
    for i in 0..5u64 {
        engine.new_output(i, 100 + i, format!("OUT-{}", i), 1);
    }
    assert_eq!(engine.surfaces.len(), 5);
    engine.output_destroyed(0);
    engine.output_destroyed(3);
    assert_eq!(engine.surfaces.len(), 3);
    for i in 0..5u64 {
        assert_eq!(engine.find_by_output(i).is_some(), i != 0 && i != 3);
        assert_eq!(engine.find_by_layer(100 + i).is_some(), i != 0 && i != 3);
    }
    engine.new_output(3, 203, "OUT-3".to_string(), 1);
    assert_eq!(engine.surfaces.len(), 4);
    assert!(engine.has_output(3));
    assert!(engine.has_layer(203));
}

#[test]
fn exact_name_wins_over_fallback() {
    let cfg = config(vec![entry("DP-2", "/walls/b.png"), entry("eDP-1", "/walls/a.png")], "/walls/d.png");
    assert_eq!(cfg.get_output_by_name(&"eDP-1".to_string()).path, "/walls/a.png");
    assert_eq!(cfg.get_output_by_name(&"DP-2".to_string()).path, "/walls/b.png");
    let other = cfg.get_output_by_name(&"HDMI-1".to_string());
    assert_eq!(other.path, "/walls/d.png");
    assert_eq!(other.mode, FillMode::Fill);
}

#[test]
fn duplicate_output_names_are_refused() {
    let r = WallpaperConfig::from_entries(
        "w.toml".to_string(),
        vec![entry("eDP-1", "/walls/a.png"), entry("eDP-1", "/walls/b.png")],
        settings("/walls/d.png", FillMode::Center),
    );
    assert_eq!(r.unwrap_err(), ConfigError::DuplicateOutput);
}

#[test]
fn configuration_equality_ignores_section_order() {
    let a = config(vec![entry("A", "/a"), entry("B", "/b")], "/d");
    let b = config(vec![entry("B", "/b"), entry("A", "/a")], "/d");
    let c = config(vec![entry("B", "/b"), entry("A", "/c")], "/d");
    let d = config(vec![entry("A", "/a")], "/d");
    let e = config(vec![entry("A", "/a"), entry("B", "/b")], "/e");
    assert!(a.same_as(&b));
    assert!(!a.same_as(&c));
    assert!(!a.same_as(&d));
    assert!(!d.same_as(&a));
    assert!(!a.same_as(&e));
}

#[test]
fn reload_with_equal_content_reports_no_change() {
    let mut engine = Wpaperd::new(config(vec![entry("eDP-1", "/walls/a.png")], "/walls/d.png"), false);
    engine.new_output(1, 101, "eDP-1".to_string(), 2);
    let again = config(vec![entry("eDP-1", "/walls/a.png")], "/walls/d.png");
    assert_eq!(engine.reload_config(Ok(again)), Ok(false));
    assert_eq!(engine.surfaces[0].settings.path, "/walls/a.png");
}

#[test]
fn reload_with_new_content_replaces_configuration() {
    let mut engine = Wpaperd::new(config(vec![entry("eDP-1", "/walls/a.png")], "/walls/d.png"), false);
    engine.new_output(1, 101, "eDP-1".to_string(), 2);
    let changed = config(vec![entry("eDP-1", "/walls/z.png")], "/walls/d.png");
    assert_eq!(engine.reload_config(Ok(changed)), Ok(true));
    let cfg = engine.wallpaper_config();
    assert_eq!(cfg.get_output_by_name(&"eDP-1".to_string()).path, "/walls/z.png");
    // Surfaces keep what they resolved; they pull new settings lazily.
    assert_eq!(engine.surfaces[0].settings.path, "/walls/a.png");
}

#[test]
fn failed_reload_keeps_previous_configuration() {
    let mut engine = Wpaperd::new(config(vec![entry("eDP-1", "/walls/a.png")], "/walls/d.png"), false);
    assert_eq!(engine.reload_config(Err(ConfigError::Malformed)), Err(ConfigError::Malformed));
    let cfg = engine.wallpaper_config();
    assert_eq!(cfg.get_output_by_name(&"eDP-1".to_string()).path, "/walls/a.png");
    assert_eq!(cfg.get_output_by_name(&"HDMI-1".to_string()).path, "/walls/d.png");
    assert_eq!(engine.reload_config(Err(ConfigError::Unreadable)), Err(ConfigError::Unreadable));
}

#[test]
fn repeated_scale_factor_asks_one_resize() {
    let mut engine = Wpaperd::new(config(vec![], "/d"), false);
    engine.new_output(7, 70, "eDP-1".to_string(), 1);
    assert!(engine.scale_factor_changed(7, 2));
    assert!(!engine.scale_factor_changed(7, 2));
    assert_eq!(engine.surfaces[0].state.scale, 2);
    assert!(!engine.scale_factor_changed(7, 2));
    assert!(engine.scale_factor_changed(7, 1));
}

#[test]
fn scaled_window_pins_buffer_scale() {
    let mut engine = Wpaperd::new(config(vec![], "/d"), true);
    assert_eq!(engine.new_output(1, 10, "eDP-1".to_string(), 2), 1);
    assert_eq!(engine.surfaces[0].state.scale, 1);
    let mut plain = Wpaperd::new(config(vec![], "/d"), false);
    assert_eq!(plain.new_output(1, 10, "eDP-1".to_string(), 2), 2);
    assert_eq!(plain.surfaces[0].state.scale, 2);
}

#[test]
fn configure_resizes_before_rendering() {
    let mut engine = Wpaperd::new(config(vec![], "/d"), false);
    engine.new_output(1, 10, "eDP-1".to_string(), 1);
    assert!(!engine.can_render(1));
    assert_eq!(engine.configure(10, dims(1920, 1080)), ConfigureAction::Resize(dims(1920, 1080)));
    assert!(!engine.surfaces[0].state.configured);
    assert!(!engine.can_render(1));
    engine.resize_finished(10, true);
    assert!(engine.surfaces[0].state.configured);
    assert_eq!(engine.surfaces[0].state.dimensions, dims(1920, 1080));
    assert!(engine.can_render(1));
    assert_eq!(engine.configure(10, dims(1920, 1080)), ConfigureAction::Ready);
    assert!(engine.can_render(1));
}

#[test]
fn failed_resize_keeps_previous_state_and_retries() {
    let mut engine = Wpaperd::new(config(vec![], "/d"), false);
    engine.new_output(1, 10, "eDP-1".to_string(), 1);
    engine.configure(10, dims(800, 600));
    engine.resize_finished(10, true);
    assert_eq!(engine.configure(10, dims(1024, 768)), ConfigureAction::Resize(dims(1024, 768)));
    assert!(!engine.can_render(1));
    engine.resize_finished(10, false);
    assert_eq!(engine.surfaces[0].state.dimensions, dims(800, 600));
    assert!(engine.surfaces[0].state.configured);
    assert!(engine.can_render(1));
    assert_eq!(engine.configure(10, dims(1024, 768)), ConfigureAction::Resize(dims(1024, 768)));
}

#[test]
fn transform_change_needs_no_resize() {
    let mut engine = Wpaperd::new(config(vec![], "/d"), false);
    engine.new_output(1, 10, "eDP-1".to_string(), 1);
    engine.configure(10, dims(0, 0));
    engine.transform_changed(1, 3);
    assert_eq!(engine.surfaces[0].state.transform, 3);
    assert!(engine.surfaces[0].state.configured);
    assert!(engine.can_render(1));
}

#[test]
fn surface_state_transitions() {
    let mut s = SurfaceState::new(2);
    assert!(!s.can_render());
    assert_eq!(s.configure(dims(0, 0)), ConfigureAction::Ready);
    assert!(s.can_render());
    s.resize_finished(true);
    assert_eq!(s.dimensions, dims(0, 0));
    assert!(!s.scale_factor_changed(2));
    assert!(s.scale_factor_changed(3));
}

#[test]
fn settings_equality_is_whole_record() {
    let a = settings("/a", FillMode::Fit);
    assert!(a.same_as(&a.duplicate()));
    assert!(!a.same_as(&settings("/a", FillMode::Tile)));
    assert!(!a.same_as(&settings("/b", FillMode::Fit)));
}

#[test]
fn default_options() {
    let c = Config::default();
    assert!(c.config.is_none());
    assert!(c.wallpaper_config.is_none());
    assert!(!c.no_daemon);
    assert!(!c.verbose);
    assert!(c.notify.is_none());
}

#[test]
fn surfaces_pull_settings_from_configuration_in_force() {
    let mut engine = Wpaperd::new(config(vec![entry("eDP-1", "/walls/a.png")], "/walls/d.png"), false);
    engine.new_output(1, 101, "eDP-1".to_string(), 1);
    engine.new_output(2, 102, "HDMI-1".to_string(), 1);
    assert_eq!(engine.current_settings(1).path, "/walls/a.png");
    assert_eq!(engine.current_settings(2).path, "/walls/d.png");
    let changed = config(vec![entry("HDMI-1", "/walls/h.png")], "/walls/e.png");
    assert_eq!(engine.reload_config(Ok(changed)), Ok(true));
    assert_eq!(engine.current_settings(1).path, "/walls/e.png");
    assert_eq!(engine.current_settings(2).path, "/walls/h.png");
}

#[test]
fn layer_request_covers_the_output() {
    let engine = Wpaperd::new(config(vec![], "/d"), false);
    let r = engine.layer_request(&"HDMI-1".to_string(), 2);
    assert_eq!(r.namespace, "wpaperd-HDMI-1");
    assert_eq!(r.buffer_scale, 2);
    assert!(r.anchor_all_edges);
    assert_eq!(r.exclusive_zone, -1);
    assert_eq!(r.size, dims(0, 0));
    let scaled = Wpaperd::new(config(vec![], "/d"), true);
    assert_eq!(scaled.layer_request(&"eDP-1".to_string(), 3).buffer_scale, 1);
}
